use danos::dumb_heap::BootstrapDumbHeap;
use danos::memory_map::{MemoryMap, MemoryMapEntry};
use danos::physical_memory::{MemoryBlob, PhysicalMemoryManager};
use danos::virtual_memory::{MapChunk, VirtualMemoryIndex, VirtualMemoryManager, VmError};

fn vmm() -> VirtualMemoryManager {
    let mut entries = Vec::new();
    for _ in 0..32 {
        entries.push(MemoryMapEntry::default());
    }
    let mut blobs = Vec::new();
    for _ in 0..15 {
        blobs.push(MemoryBlob::default());
    }
    let pmm = PhysicalMemoryManager { MemoryMap: MemoryMap { Entries: entries, Count: 0 }, Blobs: blobs };
    VirtualMemoryManager::new(pmm, BootstrapDumbHeap::new(0x10_0000, 0x5_0000, false, 0))
}

#[test]
fn canonicalize_sign_extends_bit_47() {
    assert_eq!(VirtualMemoryManager::canonicalize(0x0000_8000_0000_0000), 0xFFFF_8000_0000_0000);
    assert_eq!(VirtualMemoryManager::canonicalize(0x1234_0000_2000_0000), 0x0000_0000_2000_0000);
    assert_eq!(VirtualMemoryManager::canonicalize(0x2000_0000), 0x2000_0000);
    let c = VirtualMemoryManager::canonicalize(0xABCD_8765_4321_0000);
    assert_eq!(VirtualMemoryManager::canonicalize(c), c);
    assert!(VirtualMemoryManager::is_canonical_address(c));
}

#[test]
fn canonical_check() {
    assert!(VirtualMemoryManager::is_canonical_address(0x0000_7FFF_FFFF_FFFF));
    assert!(VirtualMemoryManager::is_canonical_address(0xFFFF_8000_0000_0000));
    assert!(!VirtualMemoryManager::is_canonical_address(0x0001_0000_0000_0000));
}

#[test]
fn vmi_splits_address_into_nine_bit_indices() {
    let address: u64 = (3 << 39) | (5 << 30) | (7 << 21) | (9 << 12) | 0x123;
    assert_eq!(VirtualMemoryManager::getVmi(address), VirtualMemoryIndex { PML4: 3, PDPT: 5, PD: 7, PT: 9 });
    assert_eq!(VirtualMemoryManager::getVmi(0x2000_0000), VirtualMemoryIndex { PML4: 0, PDPT: 0, PD: 256, PT: 0 });
    assert_eq!(
        VirtualMemoryManager::getVmi(0xFFFF_FFFF_FFFF_F000),
        VirtualMemoryIndex { PML4: 511, PDPT: 511, PD: 511, PT: 511 }
    );
}

#[test]
fn map_splits_at_page_table_boundaries() {
    // Three pages starting at the second-to-last slot of a page table.
    let virt: u64 = 510 << 12;
    let chunks = VirtualMemoryManager::map(0x50_0000, virt, 3 * 0x1000 - 5).unwrap();
    assert_eq!(
        chunks,
        vec![
            MapChunk { physicalAddress: 0x50_0000, virtualAddress: virt, numberOfPages: 2, index: VirtualMemoryIndex { PML4: 0, PDPT: 0, PD: 0, PT: 510 } },
            MapChunk { physicalAddress: 0x50_2000, virtualAddress: 512 << 12, numberOfPages: 1, index: VirtualMemoryIndex { PML4: 0, PDPT: 0, PD: 1, PT: 0 } },
        ]
    );
}

#[test]
fn map_whole_table_in_one_chunk() {
    let chunks = VirtualMemoryManager::map(0, 0x2000_0000, 0x20_0000).unwrap();
    assert_eq!(chunks.len(), 1);
    assert_eq!(chunks[0].numberOfPages, 512);
}

#[test]
fn map_refuses_misaligned_and_non_canonical() {
    assert_eq!(VirtualMemoryManager::map(0x1001, 0x2000, 0x1000), Err(VmError::PhysicalMisaligned(0x1001)));
    assert_eq!(VirtualMemoryManager::map(0x1000, 0x2001, 0x1000), Err(VmError::VirtualMisaligned(0x2001)));
    assert_eq!(
        VirtualMemoryManager::map(0x1000, 0x0001_0000_0000_0000, 0x1000),
        Err(VmError::NotCanonical(0x0001_0000_0000_0000))
    );
    assert_eq!(VirtualMemoryManager::map(0x1001, 0x2001, 0), Ok(vec![]));
    assert_eq!(VirtualMemoryManager::map(0, 0, u64::MAX), Err(VmError::TooLong));
}

#[test]
fn identity_map_checks_alignment_first() {
    assert_eq!(VirtualMemoryManager::identityMap(0xB8001, 0), Err(VmError::PhysicalMisaligned(0xB8001)));
    let chunks = VirtualMemoryManager::identityMap(0xB8000, 80 * 25 * 2).unwrap();
    assert_eq!(chunks.len(), 1);
    assert_eq!(chunks[0].physicalAddress, chunks[0].virtualAddress);
    assert_eq!(chunks[0].numberOfPages, 1);
}

#[test]
fn remembered_addresses() {
    let mut m = vmm();
    assert_eq!(m.nextVirtualAddressIndex, 0);
    assert_eq!(m.setXxx(0xAAAA_0000), 0);
    assert_eq!(m.setXxx(0xBBBB_0000), 1);
    assert_eq!(m.getVirtualAddress(1), 0xBBBB_0000);
    assert_eq!(m.getVirtualAddress(0), 0xAAAA_0000);
    assert_eq!(m.nextVirtualAddressIndex, 2);
}
