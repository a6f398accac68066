use vstd::prelude::*;

verus! {

/// One gate of the interrupt descriptor table.
#[derive(Debug, Clone, Copy, PartialEq, Eq, Structural)]
pub struct Entry {
    pub IsrLow: u16,
    pub CS: u16,
    pub _IST: u8,
    pub Attributes: u8,
    pub IsrMid: u16,
    pub IsrHigh: u32,
    pub Zero: u32,
}

impl Default for Entry {
    fn default() -> (e: Self)
        ensures
            e == (Entry { IsrLow: 0, CS: 0, _IST: 0, Attributes: 0, IsrMid: 0, IsrHigh: 0, Zero: 0 }),
    {
        Entry { IsrLow: 0, CS: 0, _IST: 0, Attributes: 0, IsrMid: 0, IsrHigh: 0, Zero: 0 }
    }
}

/// Number of gates in the table.
pub const IDT_ENTRY_COUNT: usize = 256;

/// Size of one gate in bytes.
pub const IDT_ENTRY_SIZE: usize = 16;

/// Code segment selector that the gates switch to.
pub const KERNEL_CODE_SELECTOR: u16 = 8;

/// Attributes of a present 64-bit interrupt gate at privilege level 0.
pub const INTERRUPT_GATE: u8 = 0x8E;

/// The gates of the interrupt descriptor table.
#[derive(Debug)]
pub struct Table_ {
    pub Entries: Vec<Entry>,
}

/// The interrupt descriptor table, as the processor needs it aligned.
#[derive(Debug)]
pub struct Table {
    pub Table: Table_,
}

/// The value loaded into the IDT register: the table's last byte offset and
/// its address.
#[derive(Debug, Clone, Copy, PartialEq, Eq, Structural)]
pub struct IDTR {
    pub Limit: u16,
    pub Base: usize,
}

/// What the processor pushes when it takes an interrupt.
#[derive(Debug, Clone, Copy, PartialEq, Eq, Structural)]
pub struct ExceptionStackFrame {
    pub InstructionPointer: usize,
    pub CodeSegment: usize,
    pub CpuFlags: usize,
    pub StackPointer: usize,
    pub StackSegment: usize,
}

/// An installed interrupt descriptor table, by the address of its register image.
#[derive(Debug, Clone, Copy, PartialEq, Eq, Structural)]
pub struct IDT {
    pub idtr: usize,
}

/// An interrupt gate whose target is `address`.
pub open spec fn gate_for(address: u64) -> Entry {
    Entry {
        IsrLow: (address & 0xFFFF) as u16,
        CS: KERNEL_CODE_SELECTOR,
        _IST: 0,
        Attributes: INTERRUPT_GATE,
        IsrMid: ((address >> 16u64) & 0xFFFF) as u16,
        IsrHigh: (address >> 32u64) as u32,
        Zero: 0,
    }
}

/// The handler address that a gate's three address fields hold.
pub open spec fn gate_address(e: Entry) -> u64 {
    ((e.IsrHigh as u64) << 32u64) | ((e.IsrMid as u64) << 16u64) | (e.IsrLow as u64)
}

/// Points `entry` at the handler at `address`: a present interrupt gate in
/// the kernel code segment.
pub fn SetAddress(entry: &mut Entry, address: u64, _index: u16)
    ensures
        *final(entry) == gate_for(address),
{
    entry.IsrHigh = (address >> 32) as u32;
    entry.IsrMid = ((address >> 16) & 0xFFFF) as u16;
    entry.IsrLow = (address & 0xFFFF) as u16;
    entry.CS = KERNEL_CODE_SELECTOR;
    entry.Attributes = INTERRUPT_GATE;
    entry.Zero = 0;
    entry._IST = 0;
}

/// A gate set for a handler leads back to that handler's address.
pub proof fn lemma_gate_round_trip(address: u64)
    ensures
        gate_address(gate_for(address)) == address,
{
    assert(((((address >> 32u64) as u32) as u64) << 32u64) | (((((address >> 16u64) & 0xFFFF) as u16) as u64) << 16u64)
        | (((address & 0xFFFF) as u16) as u64) == address) by (bit_vector);
}

/// Points gates 0 (divide error), 3 (breakpoint) and 14 (page fault) of the
/// table at their handlers.
pub fn SetupStuff(table: &mut Table, divideError: u64, breakpoint: u64, pageFault: u64)
    requires
        old(table).Table.Entries@.len() == IDT_ENTRY_COUNT,
    ensures
        final(table).Table.Entries@ == old(table).Table.Entries@.update(0, gate_for(divideError)).update(3, gate_for(breakpoint)).update(
            14,
            gate_for(pageFault),
        ),
{
    let mut e = table.Table.Entries[0];
    SetAddress(&mut e, divideError, 0);
    table.Table.Entries.set(0, e);
    let mut e = table.Table.Entries[3];
    SetAddress(&mut e, breakpoint, 3);
    table.Table.Entries.set(3, e);
    let mut e = table.Table.Entries[14];
    SetAddress(&mut e, pageFault, 14);
    table.Table.Entries.set(14, e);
}

/// A table of all-zero gates.
pub fn emptyTable() -> (t: Table)
    ensures
        t.Table.Entries@ == Seq::new(IDT_ENTRY_COUNT as nat, |i: int| Entry { IsrLow: 0, CS: 0, _IST: 0, Attributes: 0, IsrMid: 0, IsrHigh: 0, Zero: 0 }),
{
    let mut entries: Vec<Entry> = Vec::new();
    let mut i: usize = 0;
    while i < IDT_ENTRY_COUNT
        invariant
            i <= IDT_ENTRY_COUNT,
            entries@ == Seq::new(i as nat, |k: int| Entry { IsrLow: 0, CS: 0, _IST: 0, Attributes: 0, IsrMid: 0, IsrHigh: 0, Zero: 0 }),
        decreases IDT_ENTRY_COUNT - i,
    {
        entries.push(Entry::default());
        i = i + 1;
    }
    Table { Table: Table_ { Entries: entries } }
}

/// The register image for a table of 256 gates at `base`: its limit is the
/// offset of the table's last byte.
pub fn tableRegister(base: usize) -> (r: IDTR)
    ensures
        r.Base == base,
        r.Limit == IDT_ENTRY_SIZE * IDT_ENTRY_COUNT - 1,
{
    IDTR { Limit: (IDT_ENTRY_SIZE * IDT_ENTRY_COUNT - 1) as u16, Base: base }
}

} // verus!
