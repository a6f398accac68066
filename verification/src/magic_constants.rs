use vstd::prelude::*;

verus! {

/// Virtual address of the kernel's final home, ELF header first; the text
/// section follows it.
pub const VM_KERNEL64_ELF: usize = 0x2000_0000;

/// Virtual address of the kernel's data space (stack, then heap).
pub const VM_KERNEL64_DATA: usize = 0x4000_0000;

/// Length of the stack at the start of the data space.
pub const VM_KERNEL64_STACK_LENGTH: usize = 0x10_0000;

/// Length of the whole data space.
pub const VM_KERNEL64_DATA_LENGTH: usize = 0x20_0000;

/// Size of the bootstrap heap.
pub const DUMB_HEAP_SIZE: usize = 0x5_0000;

} // verus!
