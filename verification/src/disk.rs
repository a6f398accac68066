use vstd::prelude::*;

verus! {

/// A BIOS disk, by its drive number.
#[derive(Debug, Clone, Copy, PartialEq, Eq, Structural)]
pub struct DiskDriver {
    pub drive: u8,
}

impl DiskDriver {
    /// The disk with BIOS drive number `drive`.
    pub fn new(drive: u8) -> (d: Self)
        ensures
            d.drive == drive,
    {
        DiskDriver { drive }
    }
}

} // verus!

verus! {

/// Bytes per sector for BIOS extended reads.
pub const DISK_SECTOR_SIZE: usize = 512;

/// Disk address packet for a BIOS extended read (INT 13h, AH = 42h).
#[derive(Debug, Clone, Copy, PartialEq, Eq, Structural)]
pub struct DAPS {
    pub structSize: u8,
    pub zero: u8,
    pub sectorsToRead: u16,
    pub readToOffset: u16,
    pub readToSegment: u16,
    pub lbaStart: u64,
}

/// Why a disk read was refused or failed.
#[derive(Debug, Clone, Copy, PartialEq, Eq, Structural)]
pub enum DiskError {
    /// The buffer lies above the first 64 KiB.
    BufferAddressOverflow,
    /// The buffer's length is not a whole number of sectors.
    BufferLengthNotSectorMultiple,
    /// The packet lies above the first 64 KiB.
    DapAddressOverflow,
    /// The BIOS reported an error code.
    ReadError(u8),
}

impl DiskDriver {
    /// The packet for reading whole sectors from `lba` into the buffer at
    /// `bufferAddress` of `bufferLength` bytes; the buffer must lie in the
    /// first 64 KiB and hold whole sectors.
    pub fn read(&self, lba: u64, bufferAddress: usize, bufferLength: usize) -> (r: Result<DAPS, DiskError>)
        requires
            bufferAddress <= u16::MAX && bufferLength % DISK_SECTOR_SIZE == 0 ==> bufferLength / DISK_SECTOR_SIZE <= u16::MAX,
        ensures
            bufferAddress > u16::MAX ==> r == Err::<DAPS, DiskError>(DiskError::BufferAddressOverflow),
            bufferAddress <= u16::MAX && bufferLength % DISK_SECTOR_SIZE != 0
                ==> r == Err::<DAPS, DiskError>(DiskError::BufferLengthNotSectorMultiple),
            bufferAddress <= u16::MAX && bufferLength % DISK_SECTOR_SIZE == 0 ==> r == Ok::<DAPS, DiskError>(DAPS {
                structSize: 16,
                zero: 0,
                sectorsToRead: (bufferLength / DISK_SECTOR_SIZE) as u16,
                readToOffset: bufferAddress as u16,
                readToSegment: 0,
                lbaStart: lba,
            }),
    {
        if bufferAddress > u16::MAX as usize {
            return Err(DiskError::BufferAddressOverflow);
        }
        if bufferLength % DISK_SECTOR_SIZE != 0 {
            return Err(DiskError::BufferLengthNotSectorMultiple);
        }
        Ok(DAPS {
            structSize: 16,
            zero: 0,
            sectorsToRead: (bufferLength / DISK_SECTOR_SIZE) as u16,
            readToOffset: bufferAddress as u16,
            readToSegment: 0,
            lbaStart: lba,
        })
    }

    /// The 16-bit address of the packet, which must lie in the first 64 KiB.
    pub fn packetAddress(address: usize) -> (r: Result<u16, DiskError>)
        ensures
            address > u16::MAX ==> r == Err::<u16, DiskError>(DiskError::DapAddressOverflow),
            address <= u16::MAX ==> r == Ok::<u16, DiskError>(address as u16),
    {
        if address > u16::MAX as usize {
            Err(DiskError::DapAddressOverflow)
        } else {
            Ok(address as u16)
        }
    }

    /// The outcome of the BIOS call by the status it left in AH.
    pub fn readResult(ah: u8) -> (r: Result<(), DiskError>)
        ensures
            ah == 0 ==> r is Ok,
            ah != 0 ==> r == Err::<(), DiskError>(DiskError::ReadError(ah)),
    {
        if ah != 0 {
            Err(DiskError::ReadError(ah))
        } else {
            Ok(())
        }
    }
}

} // verus!
