use danos::disk::{DiskDriver, DiskError, DAPS};
use danos::mbr::{Mbr, MbrError, PartitionEntry};
use danos::memory_map::{MemoryMap, MemoryMapEntry};
use danos::stage2::{findSpaceForKernels, Stage2Error};

fn mbr_sector(entries: &[[u8; 16]; 4]) -> Vec<u8> {
    let mut s = vec![0u8; 512];
    for (i, e) in entries.iter().enumerate() {
        s[446 + i * 16..446 + (i + 1) * 16].copy_from_slice(e);
    }
    s[510] = 0x55;
    s[511] = 0xAA;
    s
}

fn partition(bootable: bool, lba: u32, size: u32) -> [u8; 16] {
    let mut e = [0u8; 16];
    e[0] = if bootable { 0x80 } else { 0 };
    e[1] = 1;
    e[2] = 0xC1;
    e[3] = 0x22;
    e[4] = 0x06;
    e[5] = 0x3F;
    e[6] = 0xFF;
    e[7] = 0x33;
    e[8..12].copy_from_slice(&lba.to_le_bytes());
    e[12..16].copy_from_slice(&size.to_le_bytes());
    e
}

#[test]
fn mbr_decodes_partition_entries() {
    let s = mbr_sector(&[partition(false, 0, 0), partition(true, 2048, 10240), [0; 16], [0; 16]]);
    let m = Mbr::new(&s).unwrap();
    assert_eq!(
        m.partition2,
        PartitionEntry {
            bootable: true,
            start_head: 1,
            start_sector: 1,
            start_cylinder: 0x22,
            partition_type: 6,
            end_head: 0x3F,
            end_sector: 0x3F,
            end_cylinder: 0x33,
            start_lba: 2048,
            size: 10240,
        }
    );
    let (p, n) = m.getActivePartition().unwrap().unwrap();
    assert_eq!(n, 2);
    assert_eq!(p.start_lba, 2048);
}

#[test]
fn mbr_refusals() {
    assert_eq!(Mbr::new(&[0u8; 65]).unwrap_err(), MbrError::BufferTooShort);
    let mut s = mbr_sector(&[[0; 16]; 4]);
    s[511] = 0;
    assert_eq!(Mbr::new(&s).unwrap_err(), MbrError::InvalidSignature);
    let s = mbr_sector(&[partition(true, 1, 1), [0; 16], [0; 16], partition(true, 2, 2)]);
    assert_eq!(Mbr::new(&s).unwrap().getActivePartition().unwrap_err(), MbrError::MultipleBootable);
    let s = mbr_sector(&[[0; 16]; 4]);
    assert!(Mbr::new(&s).unwrap().getActivePartition().unwrap().is_none());
}

#[test]
fn mbr_uses_last_66_bytes_of_shorter_buffer() {
    let full = mbr_sector(&[partition(true, 7, 9), [0; 16], [0; 16], [0; 16]]);
    let m = Mbr::new(&full[446..]).unwrap();
    assert_eq!(m.partition1.start_lba, 7);
    assert_eq!(Mbr::getPE(&full, 446).size, 9);
}

#[test]
fn disk_read_packet() {
    let d = DiskDriver::new(0x80);
    assert_eq!(d.drive, 0x80);
    assert_eq!(
        d.read(42, 0x7E00, 1024),
        Ok(DAPS { structSize: 16, zero: 0, sectorsToRead: 2, readToOffset: 0x7E00, readToSegment: 0, lbaStart: 42 })
    );
    assert_eq!(d.read(0, 0x1_0000, 512), Err(DiskError::BufferAddressOverflow));
    assert_eq!(d.read(0, 0x1000, 100), Err(DiskError::BufferLengthNotSectorMultiple));
    assert_eq!(DiskDriver::packetAddress(0x1_0000), Err(DiskError::DapAddressOverflow));
    assert_eq!(DiskDriver::packetAddress(0x7C00), Ok(0x7C00));
    assert_eq!(DiskDriver::readResult(0), Ok(()));
    assert_eq!(DiskDriver::readResult(1), Err(DiskError::ReadError(1)));
}

fn map_of(entries: &[MemoryMapEntry]) -> MemoryMap {
    let mut all = entries.to_vec();
    while all.len() < 32 {
        all.push(MemoryMapEntry::default());
    }
    MemoryMap { Entries: all, Count: entries.len() as u8 }
}

#[test]
fn kernels_go_after_the_loader_region() {
    let mm = map_of(&[
        MemoryMapEntry { BaseAddr: 0, Length: 0x9_F000, Type: 1, Attributes: 0 },
        MemoryMapEntry { BaseAddr: 0xF_0000, Length: 0x1_0000, Type: 2, Attributes: 0 },
        MemoryMapEntry { BaseAddr: 0x10_0000, Length: 0x100_0000, Type: 1, Attributes: 0 },
    ]);
    assert_eq!(findSpaceForKernels(&mm, 0x2_0000, 0x8000, 0x10_0000), Ok(0x10_0000));
    assert_eq!(findSpaceForKernels(&mm, 0x2_0000, 0x8000, 0x20_0000), Err(Stage2Error::KernelNotAtJumpAddress));
    assert_eq!(findSpaceForKernels(&mm, 0x200_0000, 0x8000, 0x10_0000), Err(Stage2Error::NoSpaceForKernels));
    // When the loader runs elsewhere, the first region wins.
    assert_eq!(findSpaceForKernels(&mm, 0x2_0000, 0x20_0000, 0), Ok(0));
}
