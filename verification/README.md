# danos

The decision-making core of a small x86 hobby operating system and its boot
loader, written in Verus with its behaviour stated in contracts and proved.

`src/` holds the verified library:

- `memory_map`, `physical_memory`: the firmware memory map and the physical
  memory manager that records reserved ranges (they never overlap).
- `dumb_heap`: the bootstrap bump allocator (aligned, in-heap, non-overlapping
  allocations; virtual/physical translation) and the block-list heap.
- `virtual_memory`: canonical addresses, paging indices, and how a mapping
  splits into runs that each stay within one page table.
- `mbr`, `fat`, `disk`: partition table, FAT16 boot sector checks, root
  directory search, cluster-chain walks, BIOS disk packets.
- `acpi`, `ahci`: ACPI root pointer and tables, PCI configuration addresses,
  AHCI controller and port selection.
- `interrupts`, `serial`, `shell`, `stage2`, and small support modules.

`app/` holds the hardware side: port and memory-mapped I/O, inline assembly,
interrupt entry points, BIOS calls and the boot flows, which ask the library
for every decision. Parts of it use `kernel_shared`, the boot code's shared
crate (GDT, page-table structures, relocation).

`tests/` runs the library on concrete values.
