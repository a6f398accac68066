use danos::dumb_heap::{BootstrapDumbHeap, DumbHeap, DumbHeapError, HeapError, HEAP_ENTRY_SIZE};
use danos::memory_helpers::{alignDown, align_up_checked};
use danos::memory_map::{MemoryMap, MemoryMapEntry, MemoryMapEntryType};
use danos::physical_memory::{MemoryBlob, PhysicalMemoryManager, ReserveError, WhatDo, BLOB_COUNT};

fn entry(base: u64, length: u64, kind: u32) -> MemoryMapEntry {
    MemoryMapEntry { BaseAddr: base, Length: length, Type: kind, Attributes: 0 }
}

fn map_of(entries: &[MemoryMapEntry]) -> MemoryMap {
    let mut all = Vec::new();
    for e in entries {
        all.push(*e);
    }
    while all.len() < 32 {
        all.push(MemoryMapEntry::default());
    }
    MemoryMap { Entries: all, Count: entries.len() as u8 }
}

fn manager(entries: &[MemoryMapEntry]) -> PhysicalMemoryManager {
    let mut blobs = Vec::new();
    for _ in 0..BLOB_COUNT {
        blobs.push(MemoryBlob::default());
    }
    PhysicalMemoryManager { MemoryMap: map_of(entries), Blobs: blobs }
}

fn raw_table(entries: &[(u64, u64, u32, u32)]) -> Vec<u8> {
    let mut raw = Vec::new();
    raw.extend_from_slice(&(entries.len() as u64).to_le_bytes());
    raw.extend_from_slice(&[0u8; 8]);
    for (b, l, t, a) in entries {
        raw.extend_from_slice(&b.to_le_bytes());
        raw.extend_from_slice(&l.to_le_bytes());
        raw.extend_from_slice(&t.to_le_bytes());
        raw.extend_from_slice(&a.to_le_bytes());
    }
    raw
}

#[test]
fn get_type_classifies_every_range() {
    let kinds = [
        (0u32, MemoryMapEntryType::Undefined),
        (1, MemoryMapEntryType::AddressRangeMemory),
        (2, MemoryMapEntryType::AddressRangeReserved),
        (3, MemoryMapEntryType::AddressRangeACPI),
        (4, MemoryMapEntryType::AddressRangeNVS),
        (5, MemoryMapEntryType::AddressRangeUnusable),
        (6, MemoryMapEntryType::AddressRangeDisabled),
        (7, MemoryMapEntryType::AddressRangePersistentMemory),
        (9, MemoryMapEntryType::Undefined),
        (12, MemoryMapEntryType::OemDefined),
        (13, MemoryMapEntryType::Undefined),
        (0xEFFF_FFFF, MemoryMapEntryType::Undefined),
        (0xF000_0000, MemoryMapEntryType::OemDefined),
        (0xFFFF_FFFF, MemoryMapEntryType::OemDefined),
    ];
    for (raw, kind) in kinds {
        assert_eq!(entry(0, 0, raw).GetType(), kind);
    }
}

#[test]
fn load_reads_count_and_packed_entries() {
    let raw = raw_table(&[(0, 0x9_FC00, 1, 1), (0x10_0000, 0x7F0_0000, 1, 0), (0xF_0000, 0x1_0000, 2, 7)]);
    let m = MemoryMap::Load(&raw);
    assert_eq!(m.Count, 3);
    assert_eq!(m.Entries.len(), 32);
    assert_eq!(m.Entries[1], entry(0x10_0000, 0x7F0_0000, 1));
    assert_eq!(m.Entries[2].Attributes, 7);
    assert_eq!(m.Entries[3], MemoryMapEntry::default());
}

#[test]
fn reserve_normal_in_usable_memory() {
    let mut pmm = manager(&[entry(0, 0x10_0000, 1)]);
    assert_eq!(pmm.checkReserve(0x1000, 0x2000, WhatDo::Normal), Ok(()));
    pmm.Reserve(0x1000, 0x2000, WhatDo::Normal);
    assert_eq!(pmm.Blobs[0], MemoryBlob { Address: 0x1000, Length: 0x2000 });
    assert_eq!(pmm.Blobs[1], MemoryBlob::default());
}

#[test]
fn reserve_rejects_overlap() {
    let mut pmm = manager(&[entry(0, 0x10_0000, 1)]);
    pmm.Reserve(0x1000, 0x2000, WhatDo::Normal);
    assert_eq!(pmm.checkReserve(0x2000, 0x10, WhatDo::Normal), Err(ReserveError::Overlap(0)));
    assert_eq!(pmm.checkReserve(0x800, 0x801, WhatDo::Normal), Err(ReserveError::Overlap(0)));
    assert_eq!(pmm.checkReserve(0x800, 0x800, WhatDo::Normal), Ok(()));
    assert_eq!(pmm.checkReserve(0x3000, 0x10, WhatDo::Normal), Ok(()));
    pmm.Reserve(0x3000, 0x10, WhatDo::Normal);
    assert_eq!(pmm.Blobs[1], MemoryBlob { Address: 0x3000, Length: 0x10 });
}

#[test]
fn reserve_outside_map_fails() {
    let pmm = manager(&[entry(0, 0x1000, 1)]);
    assert_eq!(pmm.checkReserve(0x800, 0x1000, WhatDo::Normal), Err(ReserveError::NotInMemoryRange));
    assert_eq!(pmm.checkReserve(0x800, 0x800, WhatDo::Normal), Ok(()));
    assert_eq!(pmm.Blobs[0], MemoryBlob::default());
}

#[test]
fn reserve_in_reserved_region_needs_use_reserved() {
    let mut pmm = manager(&[entry(0, 0x1000, 1), entry(0x1000, 0x1000, 2)]);
    assert_eq!(
        pmm.checkReserve(0x1000, 0x10, WhatDo::Normal),
        Err(ReserveError::UnusableRegion(MemoryMapEntryType::AddressRangeReserved))
    );
    assert_eq!(pmm.checkReserve(0x1000, 0x10, WhatDo::UseReserved), Ok(()));
    pmm.Reserve(0x1000, 0x10, WhatDo::UseReserved);
    assert_eq!(pmm.Blobs[0], MemoryBlob { Address: 0x1000, Length: 0x10 });
}

#[test]
fn reserve_acpi_region_is_unusable_even_with_use_reserved() {
    let pmm = manager(&[entry(0, 0x1000, 3)]);
    assert_eq!(
        pmm.checkReserve(0, 0x10, WhatDo::UseReserved),
        Err(ReserveError::UnusableRegion(MemoryMapEntryType::AddressRangeACPI))
    );
}

#[test]
fn reserve_first_holding_region_decides() {
    // The ACPI region comes first and holds the range, so the later usable one is never looked at.
    let pmm = manager(&[entry(0, 0x2000, 3), entry(0, 0x10_0000, 1)]);
    assert_eq!(
        pmm.checkReserve(0x1000, 0x10, WhatDo::Normal),
        Err(ReserveError::UnusableRegion(MemoryMapEntryType::AddressRangeACPI))
    );
    assert_eq!(pmm.checkReserve(0x3000, 0x10, WhatDo::Normal), Ok(()));
}

#[test]
fn reserve_reads_regions_only_up_to_the_holding_one() {
    // A later region that runs past the top of the address space is never looked at.
    let mut pmm = manager(&[entry(0x1000, 0x1000, 1), entry(0x10, u64::MAX - 8, 1)]);
    assert_eq!(pmm.checkReserve(0x1F00, 0x100, WhatDo::Normal), Ok(()));
    pmm.Reserve(0x1F00, 0x100, WhatDo::Normal);
    assert_eq!(pmm.Blobs[0], MemoryBlob { Address: 0x1F00, Length: 0x100 });
}

#[test]
fn reserve_fills_the_first_unused_slot() {
    // Whatever lies after the first unused slot, the range lands there and is
    // checked only against the reservations before it.
    let mut pmm = manager(&[]);
    pmm.Blobs[0] = MemoryBlob { Address: 0x100, Length: 0x100 };
    pmm.Blobs[2] = MemoryBlob { Address: 0x400, Length: 0x100 };
    assert_eq!(pmm.checkReserve(0x180, 0x10, WhatDo::YoLo), Err(ReserveError::Overlap(0)));
    assert_eq!(pmm.checkReserve(0x200, 0x100, WhatDo::YoLo), Ok(()));
    pmm.Reserve(0x200, 0x100, WhatDo::YoLo);
    assert_eq!(pmm.Blobs[1], MemoryBlob { Address: 0x200, Length: 0x100 });
    assert_eq!(pmm.Blobs[2], MemoryBlob { Address: 0x400, Length: 0x100 });
}

#[test]
fn reserve_yolo_ignores_map() {
    let mut pmm = manager(&[]);
    assert_eq!(pmm.checkReserve(0, 1, WhatDo::YoLo), Ok(()));
    pmm.Reserve(0, 1, WhatDo::YoLo);
    assert_eq!(pmm.checkReserve(0, 1, WhatDo::YoLo), Err(ReserveError::Overlap(0)));
    assert_eq!(pmm.checkReserve(1, 0x100, WhatDo::YoLo), Ok(()));
    pmm.Reserve(1, 0x100, WhatDo::YoLo);
    assert_eq!(pmm.Blobs[1], MemoryBlob { Address: 1, Length: 0x100 });
}

#[test]
fn reserve_when_full_is_refused() {
    let mut pmm = manager(&[]);
    for i in 0..BLOB_COUNT {
        pmm.Reserve(i * 0x10, 0x10, WhatDo::YoLo);
    }
    assert_eq!(pmm.checkReserve(0x1000, 0x10, WhatDo::YoLo), Err(ReserveError::NoFreeSlot));
    // An overlap met before the end is still reported as such.
    assert_eq!(pmm.checkReserve(0x25, 0x10, WhatDo::YoLo), Err(ReserveError::Overlap(2)));
    for i in 0..BLOB_COUNT {
        assert_eq!(pmm.Blobs[i], MemoryBlob { Address: i * 0x10, Length: 0x10 });
    }
}

#[test]
fn reserve_wherever_follows_last_reservation() {
    let mut pmm = manager(&[entry(0, 0x10_0000, 1)]);
    assert_eq!(pmm.nextFreeAddress(), 0);
    assert_eq!(pmm.ReserveWherever(0x100), 0);
    assert_eq!(pmm.nextFreeAddress(), 0x100);
    assert_eq!(pmm.ReserveWherever(0x200), 0x100);
    assert_eq!(pmm.Blobs[1], MemoryBlob { Address: 0x100, Length: 0x200 });
    assert_eq!(pmm.nextFreeAddress(), 0x300);
    assert_eq!(pmm.checkReserve(0x300, 0x10_0000, WhatDo::Normal), Err(ReserveError::NotInMemoryRange));
}

#[test]
fn dump_lists_counted_regions() {
    let pmm = manager(&[entry(0, 0x1000, 1), entry(0x1000, 0x2000, 2)]);
    let rows = pmm.Dump();
    assert_eq!(rows, vec![(0, 0x1000, MemoryMapEntryType::AddressRangeMemory), (0x1000, 0x3000, MemoryMapEntryType::AddressRangeReserved)]);
}

#[test]
fn align_helpers() {
    assert_eq!(align_up_checked(0x1001, 0x1000), Some(0x2000));
    assert_eq!(align_up_checked(0x2000, 0x1000), Some(0x2000));
    assert_eq!(align_up_checked(usize::MAX, 0x1000), None);
    assert_eq!(alignDown(0x1FFF, 0x1000), 0x1000);
}

#[test]
fn bootstrap_heap_bumps_and_aligns() {
    let mut h = BootstrapDumbHeap::new(0x1_0010, 0x1_0000, false, 0);
    assert_eq!(h.checkAllocate(0x10, 1), Ok(0x1_0010));
    assert_eq!(h.allocate(0x10, 1), 0x1_0010);
    assert_eq!(h.checkAllocate(0x10, 0x1000), Ok(0x1_1000));
    assert_eq!(h.allocate(0x10, 0x1000), 0x1_1000);
    assert_eq!(h.allocate(0x10, 8), 0x1_1010);
    assert_eq!(h.debugDump(), vec![0x1_0010, 0x1_1000, 0x1_1010]);
}

#[test]
fn bootstrap_heap_refusals() {
    let mut h = BootstrapDumbHeap::new(0x1000, 0x100, false, 0);
    assert_eq!(h.checkAllocate(0x101, 1), Err(HeapError::LargerThanHeap));
    assert_eq!(h.checkAllocate(0, 1), Err(HeapError::ZeroLength));
    assert_eq!(h.allocate(0x80, 1), 0x1000);
    assert_eq!(h.checkAllocate(0x81, 1), Err(HeapError::HeapFull));
    assert_eq!(h.checkAllocate(0x80, 1), Ok(0x1080));
    assert_eq!(h.checkAllocate(0x10, 0x100), Err(HeapError::HeapFull));
    for _ in 0..9 {
        h.allocate(1, 1);
    }
    assert_eq!(h.checkAllocate(1, 1), Err(HeapError::NoFreeEntry));
    assert_eq!(h.debugDump().len(), 10);
}

#[test]
fn bootstrap_heap_takes_any_range() {
    // The constructor accepts a range that runs past the end of the address space.
    let h = BootstrapDumbHeap::new(usize::MAX - 0xF, 0x100, false, 0);
    assert_eq!(h.debugDump(), Vec::<usize>::new());
}

#[test]
fn bootstrap_heap_allocations_follow_one_another() {
    let mut h = BootstrapDumbHeap::new(0x2000, 0x1000, false, 0);
    let first = h.allocate(0x30, 0x10);
    let second = h.allocate(0x8, 0x40);
    assert_eq!((first, second), (0x2000, 0x2040));
    assert!(first + 0x30 <= second);
}

#[test]
fn bootstrap_heap_translates_both_ways() {
    let up = BootstrapDumbHeap::new(0x4010_0000, 0x5_0000, true, 0x4000_0000);
    assert_eq!(up.vToP(0x4010_0000), 0x10_0000);
    assert_eq!(up.pToV(0x10_0000), 0x4010_0000);
    let down = BootstrapDumbHeap::new(0x1000, 0x1000, false, 0x100);
    assert_eq!(down.vToP(0x1000), 0x1100);
    assert_eq!(down.pToV(down.vToP(0x1234)), 0x1234);
    assert_eq!(up.checkVToP(0x4010_0000), Some(0x10_0000));
    assert_eq!(up.checkVToP(0x10), None);
    assert_eq!(up.checkPToV(usize::MAX - 0x10), None);
    assert_eq!(down.checkPToV(0x1100), Some(0x1000));
    assert_eq!(down.checkPToV(0xFF), None);
    assert_eq!(down.checkVToP(usize::MAX), None);
}

#[test]
fn dumb_heap_takes_first_large_region_and_splits() {
    let map = map_of(&[entry(0, 0x9_FC00, 1), entry(0x10_0000, 0x20_0000, 1)]);
    let mut h = DumbHeap::new(&map).unwrap();
    let rows = h.DumpHeap();
    assert_eq!(rows, vec![(0x10_0000, true, 0x10_0000 + HEAP_ENTRY_SIZE, 0x20_0000 - HEAP_ENTRY_SIZE, 0)]);
    let a = h.DoSomething(0x100).unwrap();
    assert_eq!(a, 0x10_0020);
    let rows = h.DumpHeap();
    assert_eq!(rows[0], (0x10_0000, false, 0x10_0020, 0x100, 0x10_0120));
    assert_eq!(rows[1], (0x10_0120, true, 0x10_0140, 0x20_0000 - 0x20 - 0x100 - 0x20, 0));
    assert_eq!(h.DoSomething(0x10), Err(DumbHeapError::CannotGrow));
}

#[test]
fn dumb_heap_refusals() {
    let small = map_of(&[entry(0, 0x1000, 1), entry(0x10_0000, 0x20_0000, 2)]);
    assert!(matches!(DumbHeap::new(&small), Err(DumbHeapError::NoUsableMemory)));
    let map = map_of(&[entry(0x10_0000, 0x10_0000, 1)]);
    let mut h = DumbHeap::new(&map).unwrap();
    assert_eq!(h.DoSomething(0x10_0000), Err(DumbHeapError::TooMuch));
    assert_eq!(h.DoSomething(0x10_0000 - 0x30), Err(DumbHeapError::NoRoomForNext));
}
