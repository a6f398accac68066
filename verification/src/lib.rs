#![allow(non_snake_case)]
#![allow(non_camel_case_types)]

use vstd::prelude::*;

pub mod acpi;
pub mod ahci;
pub mod bytes;
pub mod disk;
pub mod dumb_heap;
pub mod fat;
pub mod interrupts;
pub mod logging;
pub mod magic_constants;
pub mod memory_helpers;
pub mod mbr;
pub mod memory_map;
pub mod physical_memory;
pub mod serial;
pub mod shell;
pub mod stage2;
pub mod text;
pub mod types;
pub mod vga;
pub mod virtual_memory;
