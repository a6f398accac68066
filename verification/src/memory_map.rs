use vstd::prelude::*;

verus! {

/// The kinds of address range that the firmware's system address map reports.
#[derive(Debug, Clone, Copy, PartialEq, Eq, Structural)]
pub enum MemoryMapEntryType {
    AddressRangeMemory,
    AddressRangeReserved,
    AddressRangeACPI,
    AddressRangeNVS,
    AddressRangeUnusable,
    AddressRangeDisabled,
    AddressRangePersistentMemory,
    Undefined,
    OemDefined,
}

/// The type that a raw `Type` field of the system address map denotes.
pub open spec fn entry_type_of(raw: u32) -> MemoryMapEntryType {
    if raw == 0 {
        MemoryMapEntryType::Undefined
    } else if raw == 1 {
        MemoryMapEntryType::AddressRangeMemory
    } else if raw == 2 {
        MemoryMapEntryType::AddressRangeReserved
    } else if raw == 3 {
        MemoryMapEntryType::AddressRangeACPI
    } else if raw == 4 {
        MemoryMapEntryType::AddressRangeNVS
    } else if raw == 5 {
        MemoryMapEntryType::AddressRangeUnusable
    } else if raw == 6 {
        MemoryMapEntryType::AddressRangeDisabled
    } else if raw == 7 {
        MemoryMapEntryType::AddressRangePersistentMemory
    } else if raw == 12 || raw >= 0xF000_0000 {
        MemoryMapEntryType::OemDefined
    } else {
        MemoryMapEntryType::Undefined
    }
}

/// One entry of the system address map, as the firmware lays it out.
#[derive(Debug, Clone, Copy, PartialEq, Eq, Structural)]
pub struct MemoryMapEntry {
    pub BaseAddr: u64,
    pub Length: u64,
    pub Type: u32,
    pub Attributes: u32,
}

/// Number of entries a `MemoryMap` has room for.
pub const MEMORY_MAP_CAPACITY: usize = 32;

/// Size in bytes of one packed entry in the firmware's table.
pub const MEMORY_MAP_ENTRY_SIZE: usize = 24;

/// Offset of the first entry from the start of the firmware's table.
pub const MEMORY_MAP_ENTRIES_OFFSET: usize = 0x10;

/// The physical memory available on the machine.
#[derive(Debug)]
pub struct MemoryMap {
    pub Entries: Vec<MemoryMapEntry>,
    pub Count: u8,
}

impl MemoryMapEntry {
    /// Classifies the entry by its `Type` field.
    pub fn GetType(&self) -> (t: MemoryMapEntryType)
        ensures
            t == entry_type_of(self.Type),
    {
        match self.Type {
            0 => MemoryMapEntryType::Undefined,
            1 => MemoryMapEntryType::AddressRangeMemory,
            2 => MemoryMapEntryType::AddressRangeReserved,
            3 => MemoryMapEntryType::AddressRangeACPI,
            4 => MemoryMapEntryType::AddressRangeNVS,
            5 => MemoryMapEntryType::AddressRangeUnusable,
            6 => MemoryMapEntryType::AddressRangeDisabled,
            7 => MemoryMapEntryType::AddressRangePersistentMemory,
            8..=11 => MemoryMapEntryType::Undefined,
            12 => MemoryMapEntryType::OemDefined,
            13..=0xEFFFFFFF => MemoryMapEntryType::Undefined,
            0xF0000000..=0xFFFFFFFF => MemoryMapEntryType::OemDefined,
        }
    }
}

} // verus!

verus! {

use crate::bytes::{le_u32, le_u64, read_u32_le, read_u64_le};

/// The entry that the firmware table `raw` holds at position `i`.
pub open spec fn raw_entry(raw: Seq<u8>, i: int) -> MemoryMapEntry {
    let off = MEMORY_MAP_ENTRIES_OFFSET + i * MEMORY_MAP_ENTRY_SIZE;
    MemoryMapEntry {
        BaseAddr: le_u64(raw, off) as u64,
        Length: le_u64(raw, off + 8) as u64,
        Type: le_u32(raw, off + 16) as u32,
        Attributes: le_u32(raw, off + 20) as u32,
    }
}

/// The zeroed entry that unused slots of a map hold.
pub open spec fn empty_entry() -> MemoryMapEntry {
    MemoryMapEntry { BaseAddr: 0, Length: 0, Type: 0, Attributes: 0 }
}

impl MemoryMapEntry {
    /// An all-zero entry.
    pub fn default() -> (e: MemoryMapEntry)
        ensures
            e == empty_entry(),
    {
        MemoryMapEntry { BaseAddr: 0, Length: 0, Type: 0, Attributes: 0 }
    }
}

impl MemoryMap {
    /// A map is well formed when it has exactly its capacity of slots and
    /// counts no more entries than that.
    pub open spec fn wf(&self) -> bool {
        &&& self.Entries@.len() == MEMORY_MAP_CAPACITY
        &&& self.Count as int <= MEMORY_MAP_CAPACITY
    }

    /// Decodes the firmware's table: an entry count in the first eight bytes,
    /// then packed 24-byte entries from offset 0x10.
    pub fn Load(raw: &[u8]) -> (m: MemoryMap)
        requires
            raw@.len() >= 8,
            le_u64(raw@, 0) <= MEMORY_MAP_CAPACITY,
            raw@.len() >= MEMORY_MAP_ENTRIES_OFFSET + le_u64(raw@, 0) * MEMORY_MAP_ENTRY_SIZE,
        ensures
            m.wf(),
            m.Count == le_u64(raw@, 0),
            forall|i: int| 0 <= i < m.Count ==> #[trigger] m.Entries@[i] == raw_entry(raw@, i),
            forall|i: int| m.Count <= i < MEMORY_MAP_CAPACITY ==> #[trigger] m.Entries@[i] == empty_entry(),
    {
        let total = read_u64_le(raw, 0);
        let total: usize = total as usize;
        let mut entries: Vec<MemoryMapEntry> = Vec::new();
        let mut index: usize = 0;
        while index < MEMORY_MAP_CAPACITY
            invariant
                index <= MEMORY_MAP_CAPACITY,
                total == le_u64(raw@, 0),
                total <= MEMORY_MAP_CAPACITY,
                raw@.len() >= MEMORY_MAP_ENTRIES_OFFSET + total * MEMORY_MAP_ENTRY_SIZE,
                entries@.len() == index,
                forall|i: int| 0 <= i < index && i < total ==> #[trigger] entries@[i] == raw_entry(raw@, i),
                forall|i: int| total <= i < index ==> #[trigger] entries@[i] == empty_entry(),
            decreases MEMORY_MAP_CAPACITY - index,
        {
            if index < total {
                let off = MEMORY_MAP_ENTRIES_OFFSET + index * MEMORY_MAP_ENTRY_SIZE;
                let entry = MemoryMapEntry {
                    BaseAddr: read_u64_le(raw, off),
                    Length: read_u64_le(raw, off + 8),
                    Type: read_u32_le(raw, off + 16),
                    Attributes: read_u32_le(raw, off + 20),
                };
                entries.push(entry);
            } else {
                entries.push(MemoryMapEntry::default());
            }
            index = index + 1;
        }
        MemoryMap { Entries: entries, Count: total as u8 }
    }
}

} // verus!
