use vstd::prelude::*;

use crate::bytes::{le_u32, read_u32_le};

verus! {

/// One of the four partition entries of a master boot record.
#[derive(Debug, Clone, Copy, PartialEq, Eq, Structural)]
pub struct PartitionEntry {
    pub bootable: bool,
    pub start_head: u8,
    pub start_sector: u8,
    pub start_cylinder: u8,
    pub partition_type: u8,
    pub end_head: u8,
    pub end_sector: u8,
    pub end_cylinder: u8,
    pub start_lba: u32,
    pub size: u32,
}

/// Master boot record: the partition table of a disk.
#[derive(Debug, Clone, Copy, PartialEq, Eq, Structural)]
pub struct Mbr {
    pub partition1: PartitionEntry,
    pub partition2: PartitionEntry,
    pub partition3: PartitionEntry,
    pub partition4: PartitionEntry,
}

/// Why a master boot record was refused.
#[derive(Debug, Clone, Copy, PartialEq, Eq, Structural)]
pub enum MbrError {
    /// The buffer has fewer than the 66 bytes that the table and signature take.
    BufferTooShort,
    /// The buffer does not end with the bytes 0x55, 0xAA.
    InvalidSignature,
    /// More than one partition is marked bootable.
    MultipleBootable,
}

/// Length of the partition table plus the signature that ends it.
pub const MBR_TAIL_LENGTH: usize = 66;

/// Length of one partition entry.
pub const PARTITION_ENTRY_LENGTH: usize = 16;

/// The partition entry that the 16 bytes of `b` at `o` describe. (The two
/// high cylinder bits held in the sector byte are shifted out of the
/// byte-wide cylinder field, so the cylinder is the low byte alone.)
pub open spec fn partition_at(b: Seq<u8>, o: int) -> PartitionEntry {
    PartitionEntry {
        bootable: b[o] == 0x80,
        start_head: b[o + 1],
        start_sector: b[o + 2] & 0x3F,
        start_cylinder: b[o + 3],
        partition_type: b[o + 4],
        end_head: b[o + 5],
        end_sector: b[o + 6] & 0x3F,
        end_cylinder: b[o + 7],
        start_lba: le_u32(b, o + 8) as u32,
        size: le_u32(b, o + 12) as u32,
    }
}

/// The record that a buffer ending with a partition table holds.
pub open spec fn mbr_of(b: Seq<u8>) -> Mbr {
    let start = b.len() - MBR_TAIL_LENGTH;
    Mbr {
        partition1: partition_at(b, start),
        partition2: partition_at(b, start + 16),
        partition3: partition_at(b, start + 32),
        partition4: partition_at(b, start + 48),
    }
}

/// The partition marked bootable with its number (1 to 4), none, or an
/// error when more than one is.
pub open spec fn active_partition(m: Mbr) -> Result<Option<(PartitionEntry, u8)>, MbrError> {
    let count = (if m.partition1.bootable { 1int } else { 0int }) + (if m.partition2.bootable { 1int } else { 0int })
        + (if m.partition3.bootable { 1int } else { 0int }) + (if m.partition4.bootable { 1int } else { 0int });
    if count > 1 {
        Err(MbrError::MultipleBootable)
    } else if m.partition1.bootable {
        Ok(Some((m.partition1, 1u8)))
    } else if m.partition2.bootable {
        Ok(Some((m.partition2, 2u8)))
    } else if m.partition3.bootable {
        Ok(Some((m.partition3, 3u8)))
    } else if m.partition4.bootable {
        Ok(Some((m.partition4, 4u8)))
    } else {
        Ok(None)
    }
}

fn cylinder(sector_byte: u8, cylinder_byte: u8) -> (r: u8)
    ensures
        r == cylinder_byte,
{
    let r = (sector_byte & 0b1100_0000) << 2u8 | cylinder_byte;
    assert(((sector_byte & 0xC0u8) << 2u8) | cylinder_byte == cylinder_byte) by (bit_vector);
    r
}

impl Mbr {
    /// Reads the partition table from the last 66 bytes of `buffer`, which
    /// must end with the signature 0x55, 0xAA.
    pub fn new(buffer: &[u8]) -> (r: Result<Mbr, MbrError>)
        ensures
            buffer@.len() < MBR_TAIL_LENGTH ==> r == Err::<Mbr, MbrError>(MbrError::BufferTooShort),
            buffer@.len() >= MBR_TAIL_LENGTH && !(buffer@[buffer@.len() - 2] == 0x55 && buffer@[buffer@.len() - 1] == 0xAA)
                ==> r == Err::<Mbr, MbrError>(MbrError::InvalidSignature),
            buffer@.len() >= MBR_TAIL_LENGTH && buffer@[buffer@.len() - 2] == 0x55 && buffer@[buffer@.len() - 1] == 0xAA
                ==> r == Ok::<Mbr, MbrError>(mbr_of(buffer@)),
    {
        let len = buffer.len();
        if len < MBR_TAIL_LENGTH {
            return Err(MbrError::BufferTooShort);
        }
        if !(buffer[len - 2] == 0x55 && buffer[len - 1] == 0xAA) {
            return Err(MbrError::InvalidSignature);
        }
        let mut start = len - MBR_TAIL_LENGTH;
        let partition1 = Self::getPE(buffer, start);
        start = start + PARTITION_ENTRY_LENGTH;
        let partition2 = Self::getPE(buffer, start);
        start = start + PARTITION_ENTRY_LENGTH;
        let partition3 = Self::getPE(buffer, start);
        start = start + PARTITION_ENTRY_LENGTH;
        let partition4 = Self::getPE(buffer, start);
        Ok(Mbr { partition1, partition2, partition3, partition4 })
    }

    /// The partition marked bootable, with its number; an error when more
    /// than one is marked.
    pub fn getActivePartition(&self) -> (r: Result<Option<(&PartitionEntry, u8)>, MbrError>)
        ensures
            match active_partition(*self) {
                Ok(None) => r matches Ok(None),
                Ok(Some((p, n))) => r matches Ok(Some((q, k))) && *q == p && k == n,
                Err(e) => r matches Err(f) && f == e,
            },
    {
        let mut result: Option<(&PartitionEntry, u8)> = None;
        if self.partition1.bootable {
            result = Some((&self.partition1, 1));
        }
        if self.partition2.bootable {
            if result.is_some() {
                return Err(MbrError::MultipleBootable);
            }
            result = Some((&self.partition2, 2));
        }
        if self.partition3.bootable {
            if result.is_some() {
                return Err(MbrError::MultipleBootable);
            }
            result = Some((&self.partition3, 3));
        }
        if self.partition4.bootable {
            if result.is_some() {
                return Err(MbrError::MultipleBootable);
            }
            result = Some((&self.partition4, 4));
        }
        Ok(result)
    }

    /// The partition entry in the 16 bytes of `buffer` at `offset`.
    pub fn getPE(buffer: &[u8], offset: usize) -> (p: PartitionEntry)
        requires
            offset + PARTITION_ENTRY_LENGTH <= buffer.len(),
        ensures
            p == partition_at(buffer@, offset as int),
    {
        PartitionEntry {
            bootable: buffer[offset] == 0x80,
            start_head: buffer[offset + 1],
            start_sector: buffer[offset + 2] & 0b0011_1111,
            start_cylinder: cylinder(buffer[offset + 2], buffer[offset + 3]),
            partition_type: buffer[offset + 4],
            end_head: buffer[offset + 5],
            end_sector: buffer[offset + 6] & 0b0011_1111,
            end_cylinder: cylinder(buffer[offset + 6], buffer[offset + 7]),
            start_lba: read_u32_le(buffer, offset + 8),
            size: read_u32_le(buffer, offset + 12),
        }
    }
}


/// The partition reported active is the one partition marked bootable:
/// it is marked, and no other partition is.
pub proof fn lemma_active_partition_unique(m: Mbr)
    ensures
        active_partition(m) matches Ok(Some((p, n))) ==> {
            &&& p.bootable
            &&& 1 <= n <= 4
            &&& (n == 1) == (m.partition1.bootable)
            &&& (n == 2) == (m.partition2.bootable)
            &&& (n == 3) == (m.partition3.bootable)
            &&& (n == 4) == (m.partition4.bootable)
        },
        active_partition(m) matches Ok(None) ==> !m.partition1.bootable && !m.partition2.bootable
            && !m.partition3.bootable && !m.partition4.bootable,
{
}

} // verus!
