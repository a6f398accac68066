use vstd::prelude::*;

use crate::bytes::{le_u16, le_u32, read_u16_le, read_u32_le};
use crate::disk::DiskDriver;
use crate::mbr::{active_partition, mbr_of, Mbr, MbrError, PartitionEntry, MBR_TAIL_LENGTH};
use crate::text::{str_from_utf8_is_ok, utf8_well_formed};
use vstd::slice::{slice_subrange, slice_to_vec};

verus! {

/// Length of the BIOS parameter block at the start of a FAT partition.
pub const BPB_SIZE: usize = 62;

/// Length of one directory entry.
pub const DIRECTORY_ENTRY_SIZE: usize = 32;

/// Length of one sector as the driver reads it.
pub const SECTOR_LENGTH: usize = 512;

/// Directory entries in one sector.
pub const ENTRIES_PER_SECTOR: usize = 16;

/// Bytes the driver reads per cluster.
pub const CLUSTER_READ_LENGTH: usize = 1024;

/// Number of FAT entries read before printing a file.
pub const PRINT_FAT_ENTRIES: usize = 512;

/// Number of FAT entries read before loading a file.
pub const LOAD_FAT_ENTRIES: usize = 8192;

/// Why the FAT driver refused a request.
#[derive(Debug, Clone, Copy, PartialEq, Eq, Structural)]
pub enum FatError {
    /// The partition table could not be used.
    Mbr(MbrError),
    /// No partition is marked bootable.
    NoActivePartition,
    /// The boot sector has no root directory entries: probably FAT32.
    RootEntriesZero,
    /// The boot sector has no sectors per FAT: probably FAT32.
    SectorsPerFatZero,
    /// The boot sector has no 16-bit total sector count: probably FAT32.
    TotalSectorsZero,
    /// Fewer than 4085 clusters: FAT12.
    Fat12,
    /// 65525 clusters or more: FAT32.
    Fat32,
    /// The boot sector's numbers overflow the 16- and 32-bit arithmetic that
    /// locates the FAT areas (or divide by zero).
    InvalidGeometry,
    /// The driver has no FAT16 volume.
    NoFat16,
    /// The file is not in the root directory.
    FileNotFound,
    /// The file's cluster number has high bits: probably FAT32.
    HighCluster,
    /// A cluster chain went on while no bytes were left to read.
    BytesToReadZero,
    /// The chain reached a free cluster.
    FreeCluster,
    /// The chain reached the reserved value 1.
    ReservedClusterOne,
    /// The chain reached a reserved cluster value.
    ReservedCluster,
    /// The chain reached a bad cluster.
    BadCluster,
    /// A cluster number lies outside the FAT that was read, or below 2.
    ClusterOutOfRange,
    /// The chain ended while bytes were left to read.
    BytesRemaining,
}

/// BIOS parameter block of a FAT volume.
#[derive(Debug, Clone, Copy)]
pub struct Bpb {
    pub jmp: [u8; 3],
    pub oem: [u8; 8],
    pub bytes_per_sector: u16,
    pub sectors_per_cluster: u8,
    pub reserved_sectors: u16,
    pub fat_count: u8,
    pub root_entries: u16,
    pub total_sectors: u16,
    pub media_descriptor: u8,
    pub sectors_per_fat: u16,
    pub sectors_per_track: u16,
    pub head_count: u16,
    pub hidden_sectors: u32,
    pub total_sectors_large: u32,
    pub file_system_type: [u8; 8],
}

/// The parameter block that the first 62 bytes of `b` hold.
pub open spec fn bpb_fields_match(p: Bpb, b: Seq<u8>) -> bool {
    &&& p.jmp@ == b.subrange(0, 3)
    &&& p.oem@ == b.subrange(3, 11)
    &&& p.bytes_per_sector == le_u16(b, 11)
    &&& p.sectors_per_cluster == b[13]
    &&& p.reserved_sectors == le_u16(b, 14)
    &&& p.fat_count == b[16]
    &&& p.root_entries == le_u16(b, 17)
    &&& p.total_sectors == le_u16(b, 19)
    &&& p.media_descriptor == b[21]
    &&& p.sectors_per_fat == le_u16(b, 22)
    &&& p.sectors_per_track == le_u16(b, 24)
    &&& p.head_count == le_u16(b, 26)
    &&& p.hidden_sectors == le_u32(b, 28)
    &&& p.total_sectors_large == le_u32(b, 32)
    &&& p.file_system_type@ == b.subrange(54, 62)
}

/// A 16-bit value, or none when it left the 16-bit range.
pub open spec fn u16_or_none(v: int) -> Option<int> {
    if 0 <= v <= u16::MAX { Some(v) } else { None }
}

/// Sectors of the root directory, in 16-bit arithmetic:
/// `(root_entries * 32 + bytes_per_sector - 1) / bytes_per_sector`.
pub open spec fn root_dir_sectors(p: Bpb) -> Option<int> {
    match u16_or_none(p.root_entries * 32) {
        None => None,
        Some(a) => match u16_or_none(p.bytes_per_sector - 1) {
            None => None,
            Some(m) => match u16_or_none(a + m) {
                None => None,
                Some(s) => Some(s / p.bytes_per_sector as int),
            },
        },
    }
}

/// Sectors in front of the root directory, in 16-bit arithmetic:
/// reserved sectors plus the FAT copies.
pub open spec fn root_dir_start_sector(p: Bpb) -> Option<int> {
    match u16_or_none(p.fat_count * p.sectors_per_fat) {
        None => None,
        Some(f) => u16_or_none(p.reserved_sectors + f),
    }
}

/// Sectors in front of the data area, in 16-bit arithmetic.
pub open spec fn first_data_sector(p: Bpb) -> Option<int> {
    match root_dir_start_sector(p) {
        None => None,
        Some(s) => match root_dir_sectors(p) {
            None => None,
            Some(r) => u16_or_none(s + r),
        },
    }
}

/// The FAT16 checks of a parameter block, giving the cluster count.
pub open spec fn fat16_check(p: Bpb) -> Result<int, FatError> {
    if p.root_entries == 0 {
        Err(FatError::RootEntriesZero)
    } else if p.sectors_per_fat == 0 {
        Err(FatError::SectorsPerFatZero)
    } else if p.total_sectors == 0 {
        Err(FatError::TotalSectorsZero)
    } else {
        match root_dir_sectors(p) {
            None => Err(FatError::InvalidGeometry),
            Some(r) => match root_dir_start_sector(p) {
                None => Err(FatError::InvalidGeometry),
                Some(s) => match u16_or_none(s + r) {
                    None => Err(FatError::InvalidGeometry),
                    Some(meta) => if meta > p.total_sectors || p.sectors_per_cluster == 0 {
                        Err(FatError::InvalidGeometry)
                    } else {
                        let clusters = (p.total_sectors - meta) / p.sectors_per_cluster as int;
                        if clusters < 4085 {
                            Err(FatError::Fat12)
                        } else if clusters >= 65525 {
                            Err(FatError::Fat32)
                        } else {
                            Ok(clusters)
                        }
                    },
                },
            },
        }
    }
}

fn mul_u16(a: u16, b: u16) -> (r: Option<u16>)
    ensures
        r == (if a * b <= u16::MAX { Some((a * b) as u16) } else { None::<u16> }),
{
    if a == 0 || b <= u16::MAX / a {
        proof {
            if a != 0 {
                assert(a * b <= a * (u16::MAX / a)) by (nonlinear_arith)
                    requires
                        b <= u16::MAX / a,
                        a > 0,
                ;
                assert(a * (u16::MAX / a) <= u16::MAX) by (nonlinear_arith)
                    requires
                        a > 0,
                ;
            }
        }
        Some(a * b)
    } else {
        proof {
            assert(a * b > u16::MAX) by (nonlinear_arith)
                requires
                    b > u16::MAX / a,
                    a > 0,
            ;
        }
        None
    }
}

fn add_u16(a: u16, b: u16) -> (r: Option<u16>)
    ensures
        r == (if a + b <= u16::MAX { Some((a + b) as u16) } else { None::<u16> }),
{
    if a <= u16::MAX - b {
        Some(a + b)
    } else {
        None
    }
}

impl Bpb {
    /// Decodes the parameter block from the first 62 bytes of a boot sector.
    pub fn parse(b: &[u8]) -> (p: Bpb)
        requires
            BPB_SIZE <= b.len(),
        ensures
            bpb_fields_match(p, b@),
    {
        let p = Bpb {
            jmp: [b[0], b[1], b[2]],
            oem: [b[3], b[4], b[5], b[6], b[7], b[8], b[9], b[10]],
            bytes_per_sector: read_u16_le(b, 11),
            sectors_per_cluster: b[13],
            reserved_sectors: read_u16_le(b, 14),
            fat_count: b[16],
            root_entries: read_u16_le(b, 17),
            total_sectors: read_u16_le(b, 19),
            media_descriptor: b[21],
            sectors_per_fat: read_u16_le(b, 22),
            sectors_per_track: read_u16_le(b, 24),
            head_count: read_u16_le(b, 26),
            hidden_sectors: read_u32_le(b, 28),
            total_sectors_large: read_u32_le(b, 32),
            file_system_type: [b[54], b[55], b[56], b[57], b[58], b[59], b[60], b[61]],
        };
        assert(p.jmp@ =~= b@.subrange(0, 3));
        assert(p.oem@ =~= b@.subrange(3, 11));
        assert(p.file_system_type@ =~= b@.subrange(54, 62));
        p
    }

    /// Sectors of the root directory (see `root_dir_sectors`).
    pub fn rootDirSectors(&self) -> (r: Option<u16>)
        ensures
            match root_dir_sectors(*self) {
                None => r is None,
                Some(v) => r == Some(v as u16),
            },
    {
        let a = match mul_u16(self.root_entries, 32) {
            None => return None,
            Some(a) => a,
        };
        if self.bytes_per_sector == 0 {
            return None;
        }
        let m = self.bytes_per_sector - 1;
        let s = match add_u16(a, m) {
            None => return None,
            Some(s) => s,
        };
        Some(s / self.bytes_per_sector)
    }

    /// Sectors in front of the root directory (see `root_dir_start_sector`).
    pub fn rootDirStartSector(&self) -> (r: Option<u16>)
        ensures
            match root_dir_start_sector(*self) {
                None => r is None,
                Some(v) => r == Some(v as u16),
            },
    {
        match mul_u16(self.fat_count as u16, self.sectors_per_fat) {
            None => None,
            Some(f) => add_u16(self.reserved_sectors, f),
        }
    }

    /// Sectors in front of the data area (see `first_data_sector`).
    pub fn firstDataSector(&self) -> (r: Option<u16>)
        ensures
            match first_data_sector(*self) {
                None => r is None,
                Some(v) => r == Some(v as u16),
            },
    {
        let s = match self.rootDirStartSector() {
            None => return None,
            Some(s) => s,
        };
        let r = match self.rootDirSectors() {
            None => return None,
            Some(r) => r,
        };
        add_u16(s, r)
    }
}


impl Bpb {
    /// The FAT16 checks (see `fat16_check`): gives the cluster count.
    pub fn checkFat16(&self) -> (r: Result<u16, FatError>)
        ensures
            match fat16_check(*self) {
                Ok(c) => r == Ok::<u16, FatError>(c as u16),
                Err(e) => r == Err::<u16, FatError>(e),
            },
    {
        if self.root_entries == 0 {
            return Err(FatError::RootEntriesZero);
        }
        if self.sectors_per_fat == 0 {
            return Err(FatError::SectorsPerFatZero);
        }
        if self.total_sectors == 0 {
            return Err(FatError::TotalSectorsZero);
        }
        let r = match self.rootDirSectors() {
            None => return Err(FatError::InvalidGeometry),
            Some(r) => r,
        };
        let s = match self.rootDirStartSector() {
            None => return Err(FatError::InvalidGeometry),
            Some(s) => s,
        };
        let meta = match add_u16(s, r) {
            None => return Err(FatError::InvalidGeometry),
            Some(m) => m,
        };
        if meta > self.total_sectors || self.sectors_per_cluster == 0 {
            return Err(FatError::InvalidGeometry);
        }
        let clusters = (self.total_sectors - meta) / (self.sectors_per_cluster as u16);
        if clusters < 4085 {
            return Err(FatError::Fat12);
        }
        if clusters >= 65525 {
            return Err(FatError::Fat32);
        }
        Ok(clusters)
    }
}


/// One entry of a FAT directory.
#[derive(Debug, Clone, Copy)]
pub struct DirectoryEntry {
    pub name: [u8; 8],
    pub ext: [u8; 3],
    pub attributes: u8,
    pub reserved: u8,
    pub creation_time_tenths: u8,
    pub creation_time: u16,
    pub creation_date: u16,
    pub last_access_date: u16,
    pub first_cluster_high: u16,
    pub last_write_time: u16,
    pub last_write_date: u16,
    pub first_cluster_low: u16,
    pub file_size: u32,
}

/// The directory entry that the 32 bytes of `b` at `o` hold.
pub open spec fn dir_entry_matches(e: DirectoryEntry, b: Seq<u8>, o: int) -> bool {
    &&& e.name@ == b.subrange(o, o + 8)
    &&& e.ext@ == b.subrange(o + 8, o + 11)
    &&& e.attributes == b[o + 11]
    &&& e.reserved == b[o + 12]
    &&& e.creation_time_tenths == b[o + 13]
    &&& e.creation_time == le_u16(b, o + 14)
    &&& e.creation_date == le_u16(b, o + 16)
    &&& e.last_access_date == le_u16(b, o + 18)
    &&& e.first_cluster_high == le_u16(b, o + 20)
    &&& e.last_write_time == le_u16(b, o + 22)
    &&& e.last_write_date == le_u16(b, o + 24)
    &&& e.first_cluster_low == le_u16(b, o + 26)
    &&& e.file_size == le_u32(b, o + 28)
}

impl DirectoryEntry {
    /// Decodes the directory entry in the 32 bytes of `b` at `offset`.
    pub fn parse(b: &[u8], offset: usize) -> (e: DirectoryEntry)
        requires
            offset + DIRECTORY_ENTRY_SIZE <= b.len(),
        ensures
            dir_entry_matches(e, b@, offset as int),
    {
        let o = offset;
        let e = DirectoryEntry {
            name: [b[o], b[o + 1], b[o + 2], b[o + 3], b[o + 4], b[o + 5], b[o + 6], b[o + 7]],
            ext: [b[o + 8], b[o + 9], b[o + 10]],
            attributes: b[o + 11],
            reserved: b[o + 12],
            creation_time_tenths: b[o + 13],
            creation_time: read_u16_le(b, o + 14),
            creation_date: read_u16_le(b, o + 16),
            last_access_date: read_u16_le(b, o + 18),
            first_cluster_high: read_u16_le(b, o + 20),
            last_write_time: read_u16_le(b, o + 22),
            last_write_date: read_u16_le(b, o + 24),
            first_cluster_low: read_u16_le(b, o + 26),
            file_size: read_u32_le(b, o + 28),
        };
        assert(e.name@ =~= b@.subrange(o as int, o + 8));
        assert(e.ext@ =~= b@.subrange(o + 8, o + 11));
        e
    }
}

/// The index just past the last byte of `s[..i]` that is not a space, or
/// zero when there is none.
pub open spec fn trimmed_len_from(s: Seq<u8>, i: int) -> int
    decreases i,
{
    if i <= 0 {
        0
    } else if s[i - 1] != 0x20 {
        i
    } else {
        trimmed_len_from(s, i - 1)
    }
}

/// The length of a name field once trailing spaces are dropped; a field of
/// spaces only keeps its full length.
pub open spec fn trimmed_len(s: Seq<u8>) -> int {
    let k = trimmed_len_from(s, s.len() as int);
    if k == 0 { s.len() as int } else { k }
}

/// The text `Invalid Name`, as bytes.
pub open spec fn invalid_name() -> Seq<u8> {
    seq![0x49u8, 0x6E, 0x76, 0x61, 0x6C, 0x69, 0x64, 0x20, 0x4E, 0x61, 0x6D, 0x65]
}

/// The text `Invalid Ext`, as bytes.
pub open spec fn invalid_ext() -> Seq<u8> {
    seq![0x49u8, 0x6E, 0x76, 0x61, 0x6C, 0x69, 0x64, 0x20, 0x45, 0x78, 0x74]
}

/// How a name field reads: its trimmed bytes when they are UTF-8, else the
/// given fallback text.
pub open spec fn shown(field: Seq<u8>, fallback: Seq<u8>) -> Seq<u8> {
    let t = field.take(trimmed_len(field));
    if utf8_well_formed(t) { t } else { fallback }
}

/// The entry at `o` carries the requested name and extension.
pub open spec fn name_matches(b: Seq<u8>, o: int, name: Seq<u8>, ext: Seq<u8>) -> bool {
    &&& shown(b.subrange(o, o + 8), invalid_name()) == name
    &&& shown(b.subrange(o + 8, o + 11), invalid_ext()) == ext
}

/// What a directory scan makes of one entry.
#[derive(Debug, Clone, Copy, PartialEq, Eq, Structural)]
pub enum EntryKind {
    /// The volume label.
    VolumeId,
    /// Part of a long file name.
    LongName,
    /// The end of the directory.
    End,
    /// A deleted entry.
    Free,
    /// A file or a directory.
    File,
}

/// The kind of the directory entry at `o`.
pub open spec fn entry_kind(b: Seq<u8>, o: int) -> EntryKind {
    let a = b[o + 11] & 0x3Fu8;
    if a == 0x08 {
        EntryKind::VolumeId
    } else if a & 0x08u8 != 0 {
        EntryKind::LongName
    } else if b[o] == 0 {
        EntryKind::End
    } else if b[o] == 0xE5 {
        EntryKind::Free
    } else {
        EntryKind::File
    }
}

/// One line of a directory listing.
#[derive(Debug, Clone, Copy, PartialEq, Eq, Structural)]
pub enum DirListing {
    /// The volume label.
    VolumeId,
    /// Part of a long file name.
    LongName,
    /// The end of the directory, after this many entries in all.
    End(u64),
    /// A file or directory: its entry's index in the sector, and the lengths
    /// of its name and extension without trailing spaces.
    Entry { index: usize, name_len: usize, ext_len: usize },
}

/// How a scan of one sector stopped.
#[derive(Debug, Clone, Copy, PartialEq, Eq, Structural)]
pub enum ScanStop {
    /// It went through all the sector's entries.
    Continue,
    /// It met the end of the directory.
    End,
    /// It met the requested file, at this entry index.
    Found(usize),
}

/// The listing and the stop of a scan of the sector `b` from entry `k`,
/// with `base` entries read before the sector.
pub open spec fn scan_entries(b: Seq<u8>, k: int, base: int, filename: Option<(Seq<u8>, Seq<u8>)>) -> (Seq<DirListing>, ScanStop)
    decreases ENTRIES_PER_SECTOR - k,
{
    if k < 0 || k >= ENTRIES_PER_SECTOR {
        (Seq::empty(), ScanStop::Continue)
    } else {
        let o = k * DIRECTORY_ENTRY_SIZE;
        let rest = scan_entries(b, k + 1, base, filename);
        match entry_kind(b, o) {
            EntryKind::VolumeId => (seq![DirListing::VolumeId] + rest.0, rest.1),
            EntryKind::LongName => (seq![DirListing::LongName] + rest.0, rest.1),
            EntryKind::End => (seq![DirListing::End((base + k + 1) as u64)], ScanStop::End),
            EntryKind::Free => rest,
            EntryKind::File => {
                let row = DirListing::Entry {
                    index: k as usize,
                    name_len: trimmed_len(b.subrange(o, o + 8)) as usize,
                    ext_len: trimmed_len(b.subrange(o + 8, o + 11)) as usize,
                };
                match filename {
                    Some((n, x)) => if name_matches(b, o, n, x) {
                        (seq![row], ScanStop::Found(k as usize))
                    } else {
                        (seq![row] + rest.0, rest.1)
                    },
                    None => (seq![row] + rest.0, rest.1),
                }
            },
        }
    }
}


fn trimmed_length(field: &[u8]) -> (r: usize)
    ensures
        r == trimmed_len(field@),
{
    let mut i: usize = field.len();
    while i > 0 && field[i - 1] == 0x20
        invariant
            i <= field.len(),
            trimmed_len_from(field@, field@.len() as int) == trimmed_len_from(field@, i as int),
        decreases i,
    {
        i = i - 1;
    }
    if i == 0 {
        field.len()
    } else {
        i
    }
}

fn bytes_equal(a: &[u8], b: &[u8]) -> (r: bool)
    ensures
        r == (a@ == b@),
{
    if a.len() != b.len() {
        return false;
    }
    let mut i: usize = 0;
    while i < a.len()
        invariant
            a@.len() == b@.len(),
            i <= a.len(),
            forall|k: int| 0 <= k < i ==> a@[k] == b@[k],
        decreases a.len() - i,
    {
        if a[i] != b[i] {
            return false;
        }
        i = i + 1;
    }
    assert(a@ =~= b@);
    true
}

fn shown_equals(field: &[u8], fallback: &[u8], target: &[u8]) -> (r: bool)
    ensures
        r == (shown(field@, fallback@) == target@),
{
    let n = trimmed_length(field);
    proof {
        let k = trimmed_len_from(field@, field@.len() as int);
        lemma_trimmed_bounds(field@, field@.len() as int);
    }
    let t = slice_subrange(field, 0, n);
    assert(t@ =~= field@.take(n as int));
    if str_from_utf8_is_ok(t) {
        bytes_equal(t, target)
    } else {
        bytes_equal(fallback, target)
    }
}

proof fn lemma_trimmed_bounds(s: Seq<u8>, i: int)
    requires
        0 <= i <= s.len(),
    ensures
        0 <= trimmed_len_from(s, i) <= i,
    decreases i,
{
    if i > 0 && s[i - 1] == 0x20 {
        lemma_trimmed_bounds(s, i - 1);
    }
}

/// The requested name and extension as byte sequences.
pub open spec fn filename_view(f: Option<(&[u8], &[u8])>) -> Option<(Seq<u8>, Seq<u8>)> {
    match f {
        Some((n, x)) => Some((n@, x@)),
        None => None,
    }
}

/// The listing and stop of scanning the sector `b` (see `scan_entries`).
pub fn scanEntries(b: &[u8], base: u64, filename: Option<(&[u8], &[u8])>) -> (r: (Vec<DirListing>, ScanStop))
    requires
        SECTOR_LENGTH <= b.len(),
        base + ENTRIES_PER_SECTOR <= u64::MAX,
    ensures
        (r.0@, r.1) == scan_entries(b@, 0, base as int, filename_view(filename)),
{
    let name_fallback: [u8; 12] = [0x49, 0x6E, 0x76, 0x61, 0x6C, 0x69, 0x64, 0x20, 0x4E, 0x61, 0x6D, 0x65];
    let ext_fallback: [u8; 11] = [0x49, 0x6E, 0x76, 0x61, 0x6C, 0x69, 0x64, 0x20, 0x45, 0x78, 0x74];
    assert(name_fallback@ =~= invalid_name());
    assert(ext_fallback@ =~= invalid_ext());
    let mut listing: Vec<DirListing> = Vec::new();
    let mut k: usize = 0;
    while k < ENTRIES_PER_SECTOR
        invariant
            SECTOR_LENGTH <= b.len(),
            base + ENTRIES_PER_SECTOR <= u64::MAX,
            k <= ENTRIES_PER_SECTOR,
            name_fallback@ == invalid_name(),
            ext_fallback@ == invalid_ext(),
            scan_entries(b@, 0, base as int, filename_view(filename))
                == (listing@ + scan_entries(b@, k as int, base as int, filename_view(filename)).0,
                    scan_entries(b@, k as int, base as int, filename_view(filename)).1),
        decreases ENTRIES_PER_SECTOR - k,
    {
        let o = k * DIRECTORY_ENTRY_SIZE;
        let ghost rest = scan_entries(b@, k + 1, base as int, filename_view(filename));
        let ghost before = listing@;
        let a = b[o + 11] & 0x3F;
        if a == 0x08 {
            listing.push(DirListing::VolumeId);
            proof {
                assert(before + (seq![DirListing::VolumeId] + rest.0) =~= listing@ + rest.0);
            }
        } else if a & 0x08 != 0 {
            listing.push(DirListing::LongName);
            proof {
                assert(before + (seq![DirListing::LongName] + rest.0) =~= listing@ + rest.0);
            }
        } else if b[o] == 0 {
            listing.push(DirListing::End(base + k as u64 + 1));
            return (listing, ScanStop::End);
        } else if b[o] == 0xE5 {
        } else {
            let name = slice_subrange(b, o, o + 8);
            let ext = slice_subrange(b, o + 8, o + 11);
            let row = DirListing::Entry { index: k, name_len: trimmed_length(name), ext_len: trimmed_length(ext) };
            listing.push(row);
            match filename {
                Some((n, x)) => {
                    if shown_equals(name, name_fallback.as_slice(), n) && shown_equals(ext, ext_fallback.as_slice(), x) {
                        return (listing, ScanStop::Found(k));
                    }
                },
                None => {},
            }
            proof {
                assert(before + (seq![row] + rest.0) =~= listing@ + rest.0);
            }
        }
        k = k + 1;
    }
    proof {
        assert(listing@ + Seq::<DirListing>::empty() =~= listing@);
    }
    (listing, ScanStop::Continue)
}


/// A FAT16 volume: its parameter block and the LBA of its first sector.
#[derive(Debug, Clone, Copy)]
pub struct Fat16 {
    pub bpb: Bpb,
    pub base_lba: u32,
}

/// Where the root directory starts and how far a search of it goes: the
/// starting LBA and the size, in sectors, rounded up.
pub open spec fn search_start(f: Fat16) -> Option<(int, int)> {
    match root_dir_start_sector(f.bpb) {
        None => None,
        Some(s) => if f.base_lba + s > u32::MAX || f.bpb.bytes_per_sector == 0 {
            None
        } else {
            Some((f.base_lba + s, (f.bpb.root_entries * 32 + f.bpb.bytes_per_sector - 1) / f.bpb.bytes_per_sector as int))
        },
    }
}

/// A search through the root directory, one sector at a time. `read` grows
/// by a sector's length in bytes per sector scanned and the search goes on
/// while it stays below `size`.
#[derive(Debug, Clone, Copy, PartialEq, Eq, Structural)]
pub struct DirectorySearch {
    pub lba: u64,
    pub read: u32,
    pub size: u32,
    pub done: bool,
    pub entries_read: u64,
}

impl DirectorySearch {
    /// The counters stay within the ranges that a root directory gives them.
    pub open spec fn wf(&self) -> bool {
        &&& self.size <= 0x40_0000
        &&& self.read <= self.size + SECTOR_LENGTH
        &&& self.lba <= u32::MAX + self.read
        &&& self.entries_read * 32 <= self.read
    }

    /// The LBA of the next sector to scan, or none when the search is over.
    pub fn nextLba(&self) -> (r: Option<u64>)
        ensures
            r == (if !self.done && self.read < self.size { Some(self.lba) } else { None::<u64> }),
    {
        if !self.done && self.read < self.size {
            Some(self.lba)
        } else {
            None
        }
    }

    /// Scans the sector the search asked for (see `scan_entries`). Meeting
    /// the requested file ends the search as it stands; otherwise the search
    /// moves on to the next sector, and is over when the directory ended.
    pub fn scanSector(&mut self, sector: &[u8], filename: Option<(&[u8], &[u8])>) -> (r: (Vec<DirListing>, ScanStop))
        requires
            old(self).wf(),
            !old(self).done,
            old(self).read < old(self).size,
            SECTOR_LENGTH <= sector.len(),
        ensures
            final(self).wf(),
            (r.0@, r.1) == scan_entries(sector@, 0, old(self).entries_read as int, filename_view(filename)),
            r.1 matches ScanStop::Found(_) ==> *final(self) == *old(self),
            r.1 == ScanStop::End ==> *final(self) == (DirectorySearch {
                lba: (old(self).lba + 1) as u64,
                read: (old(self).read + SECTOR_LENGTH) as u32,
                done: true,
                ..*old(self)
            }),
            r.1 == ScanStop::Continue ==> *final(self) == (DirectorySearch {
                lba: (old(self).lba + 1) as u64,
                read: (old(self).read + SECTOR_LENGTH) as u32,
                entries_read: (old(self).entries_read + ENTRIES_PER_SECTOR) as u64,
                ..*old(self)
            }),
    {
        let (listing, stop) = scanEntries(sector, self.entries_read, filename);
        match stop {
            ScanStop::Found(_) => {},
            ScanStop::End => {
                self.done = true;
                self.read = self.read + SECTOR_LENGTH as u32;
                self.lba = self.lba + 1;
            },
            ScanStop::Continue => {
                self.read = self.read + SECTOR_LENGTH as u32;
                self.lba = self.lba + 1;
                self.entries_read = self.entries_read + ENTRIES_PER_SECTOR as u64;
            },
        }
        (listing, stop)
    }
}

/// The search after scanning `sector` from state `s` for `filename`, and
/// how that scan stopped (the state changes that `scanSector` makes).
pub open spec fn search_step(s: DirectorySearch, sector: Seq<u8>, filename: Option<(Seq<u8>, Seq<u8>)>) -> (DirectorySearch, ScanStop) {
    let stop = scan_entries(sector, 0, s.entries_read as int, filename).1;
    match stop {
        ScanStop::Found(_) => (s, stop),
        ScanStop::End => (DirectorySearch {
            lba: (s.lba + 1) as u64,
            read: (s.read + SECTOR_LENGTH) as u32,
            done: true,
            ..s
        }, stop),
        ScanStop::Continue => (DirectorySearch {
            lba: (s.lba + 1) as u64,
            read: (s.read + SECTOR_LENGTH) as u32,
            entries_read: (s.entries_read + ENTRIES_PER_SECTOR) as u64,
            ..s
        }, stop),
    }
}

/// A search from `s` that has scanned `sectors`, in order: where it then
/// stands, and the sector and entry index where it met `filename`, if it
/// did. Sectors after the file was met, or after the search was over, are
/// not scanned.
pub open spec fn search_run(s: DirectorySearch, sectors: Seq<Seq<u8>>, filename: Option<(Seq<u8>, Seq<u8>)>) -> (DirectorySearch, Option<(int, int)>)
    decreases sectors.len(),
{
    if sectors.len() == 0 {
        (s, None)
    } else {
        let prev = search_run(s, sectors.drop_last(), filename);
        if prev.1 is Some || prev.0.done || prev.0.read >= prev.0.size {
            prev
        } else {
            let (next, stop) = search_step(prev.0, sectors.last(), filename);
            match stop {
                ScanStop::Found(i) => (next, Some((sectors.len() - 1, i as int))),
                _ => (next, None),
            }
        }
    }
}

/// The search is over: it met the file, or the directory ended, or it read
/// the whole root directory.
pub open spec fn search_over(r: (DirectorySearch, Option<(int, int)>)) -> bool {
    r.1 is Some || r.0.done || r.0.read >= r.0.size
}

/// The fresh search of the root directory of `f`, if its geometry allows one.
pub open spec fn fresh_search(f: Fat16) -> Option<DirectorySearch> {
    match search_start(f) {
        None => None,
        Some((lba, size)) => Some(DirectorySearch { lba: lba as u64, read: 0, size: size as u32, done: false, entries_read: 0 }),
    }
}

/// The name `HI`, as bytes.
pub open spec fn hi_name() -> Seq<u8> {
    seq![0x48u8, 0x49]
}

/// The extension `TXT`, as bytes.
pub open spec fn hi_ext() -> Seq<u8> {
    seq![0x54u8, 0x58, 0x54]
}

/// A search of the root directory for one file, which keeps the entry it
/// met and, for the proofs, the search it started from and the sectors it
/// scanned.
pub struct FileFinder {
    search: DirectorySearch,
    name: Vec<u8>,
    ext: Vec<u8>,
    found: Option<DirectoryEntry>,
    start: Ghost<DirectorySearch>,
    scanned: Ghost<Seq<Seq<u8>>>,
}

impl FileFinder {
    /// The name and extension searched for.
    pub closed spec fn filename(&self) -> (Seq<u8>, Seq<u8>) {
        (self.name@, self.ext@)
    }

    /// The search the finder started from.
    pub closed spec fn start(&self) -> DirectorySearch {
        self.start@
    }

    /// The sectors scanned so far, in order.
    pub closed spec fn scanned(&self) -> Seq<Seq<u8>> {
        self.scanned@
    }

    /// The entry met, if any.
    pub closed spec fn found(&self) -> Option<DirectoryEntry> {
        self.found
    }

    /// Where the search stands and what it met (see `search_run`).
    pub open spec fn outcome(&self) -> (DirectorySearch, Option<(int, int)>) {
        search_run(self.start(), self.scanned(), Some(self.filename()))
    }

    /// The finder agrees with the search it ran: its state is the one the
    /// scanned sectors lead to, and its entry is the one decoded where the
    /// search met the file.
    pub closed spec fn wf(&self) -> bool {
        &&& self.start@.wf()
        &&& self.search.wf()
        &&& self.outcome().0 == self.search
        &&& forall|k: int| 0 <= k < self.scanned@.len() ==> SECTOR_LENGTH <= #[trigger] self.scanned@[k].len()
        &&& match self.outcome().1 {
            None => self.found is None,
            Some((k, i)) => {
                &&& 0 <= k < self.scanned@.len()
                &&& 0 <= i < ENTRIES_PER_SECTOR
                &&& self.found matches Some(e) && dir_entry_matches(e, self.scanned@[k], i * DIRECTORY_ENTRY_SIZE)
            },
        }
    }

    /// A finder for `name`.`ext` that starts from `search` and has scanned nothing.
    pub fn new(search: DirectorySearch, name: &[u8], ext: &[u8]) -> (f: FileFinder)
        requires
            search.wf(),
        ensures
            f.wf(),
            f.filename() == (name@, ext@),
            f.start() == search,
            f.scanned() == Seq::<Seq<u8>>::empty(),
            f.found() is None,
    {
        FileFinder {
            search,
            name: slice_to_vec(name),
            ext: slice_to_vec(ext),
            found: None,
            start: Ghost(search),
            scanned: Ghost(Seq::empty()),
        }
    }

    /// The LBA of the next sector to scan, or none when the search is over.
    pub fn nextLba(&self) -> (r: Option<u64>)
        requires
            self.wf(),
        ensures
            r is None <==> search_over(self.outcome()),
            r matches Some(lba) ==> lba == self.outcome().0.lba,
    {
        if self.found.is_some() {
            None
        } else {
            self.search.nextLba()
        }
    }

    /// Scans the next sector of the search and gives back its listing (see
    /// `scan_entries`); keeps the entry where the file is met.
    pub fn scan(&mut self, sector: &[u8]) -> (r: Vec<DirListing>)
        requires
            old(self).wf(),
            !search_over(old(self).outcome()),
            SECTOR_LENGTH <= sector.len(),
        ensures
            final(self).wf(),
            final(self).filename() == old(self).filename(),
            final(self).start() == old(self).start(),
            final(self).scanned() == old(self).scanned().push(sector@),
            r@ == scan_entries(sector@, 0, old(self).outcome().0.entries_read as int, Some(old(self).filename())).0,
    {
        let ghost old_scanned = self.scanned@;
        let (listing, stop) = self.search.scanSector(sector, Some((self.name.as_slice(), self.ext.as_slice())));
        proof {
            lemma_found_entry_matches(sector@, 0, old(self).search.entries_read as int, self.name@, self.ext@);
        }
        match stop {
            ScanStop::Found(i) => {
                self.found = Some(DirectoryEntry::parse(sector, i * DIRECTORY_ENTRY_SIZE));
            },
            _ => {},
        }
        self.scanned = Ghost(old_scanned.push(sector@));
        proof {
            assert(self.scanned@.drop_last() =~= old_scanned);
            assert forall|k: int| 0 <= k < self.scanned@.len() implies SECTOR_LENGTH <= #[trigger] self.scanned@[k].len() by {
                if k < old_scanned.len() {
                    assert(self.scanned@[k] == old_scanned[k]);
                }
            }
        }
        listing
    }
}

/// One cluster read of a file: the LBA to read, where its bytes go in the
/// file, and how many of them belong to the file.
#[derive(Debug, Clone, Copy, PartialEq, Eq, Structural)]
pub struct ClusterRead {
    pub lba: u32,
    pub offset: u64,
    pub length: u64,
}

/// The reads that following a file's cluster chain takes, in order, and how
/// the walk ended after them.
#[derive(Debug)]
pub struct ChainWalk {
    pub reads: Vec<ClusterRead>,
    pub result: Result<(), FatError>,
}

/// Where the data area starts and how many clusters the volume has, or why
/// the parameter block's numbers do not give them.
pub open spec fn data_geometry(f: Fat16) -> Result<(int, int), FatError> {
    match first_data_sector(f.bpb) {
        None => Err(FatError::InvalidGeometry),
        Some(s) => if f.base_lba + s > u32::MAX || f.bpb.sectors_per_cluster == 0 {
            Err(FatError::InvalidGeometry)
        } else {
            Ok((f.base_lba + s, f.bpb.total_sectors as int / f.bpb.sectors_per_cluster as int))
        },
    }
}

/// Walks the chain from `cluster` with `bytes` of the file still to read
/// and the next read landing at `offset`, in the FAT whose bytes are `fat`.
pub open spec fn chain_walk(fat: Seq<u8>, first_data_lba: int, max_cluster: int, spc: int, cluster: int, bytes: int, offset: int)
    -> (Seq<ClusterRead>, Result<(), FatError>)
    decreases bytes,
{
    if bytes <= 0 {
        (Seq::empty(), Err(FatError::BytesToReadZero))
    } else if cluster < 0 || 2 * cluster + 2 > fat.len() {
        (Seq::empty(), Err(FatError::ClusterOutOfRange))
    } else {
        let e = le_u16(fat, 2 * cluster);
        if e == 0 {
            (Seq::empty(), Err(FatError::FreeCluster))
        } else if e == 1 {
            (Seq::empty(), Err(FatError::ReservedClusterOne))
        } else if max_cluster + 1 > u16::MAX {
            (Seq::empty(), Err(FatError::InvalidGeometry))
        } else if e >= max_cluster + 1 && e <= 0xFFF6 {
            (Seq::empty(), Err(FatError::ReservedCluster))
        } else if e == 0xFFF7 {
            (Seq::empty(), Err(FatError::BadCluster))
        } else if cluster < 2 {
            (Seq::empty(), Err(FatError::ClusterOutOfRange))
        } else if first_data_lba + (cluster - 2) * spc > u32::MAX {
            (Seq::empty(), Err(FatError::InvalidGeometry))
        } else {
            let consumed = if bytes <= CLUSTER_READ_LENGTH { bytes } else { CLUSTER_READ_LENGTH as int };
            let read = ClusterRead {
                lba: (first_data_lba + (cluster - 2) * spc) as u32,
                offset: offset as u64,
                length: consumed as u64,
            };
            let remaining = bytes - consumed;
            if e >= 0xFFF8 {
                (seq![read], if remaining != 0 { Err(FatError::BytesRemaining) } else { Ok(()) })
            } else {
                let rest = chain_walk(fat, first_data_lba, max_cluster, spc, e, remaining, offset + CLUSTER_READ_LENGTH);
                (seq![read] + rest.0, rest.1)
            }
        }
    }
}


/// The name, extension, size and first cluster of a file.
#[derive(Debug, Clone, Copy)]
pub struct FileInfo {
    pub name: [u8; 8],
    pub ext: [u8; 3],
    pub file_size: u32,
    pub first_cluster_low: u16,
}

/// The file size rounded up to whole clusters of 1024 bytes.
pub open spec fn padded(file_size: int) -> int {
    ((file_size + 1023) / 1024) * 1024
}

/// The room a file takes in memory when loaded: its size rounded up to whole
/// 1024-byte clusters.
pub fn padded_size(file_size: u32) -> (r: u64)
    ensures
        r == padded(file_size as int),
{
    ((file_size as u64 + 1023) / 1024) * 1024
}

fn walk_chain(fat: &[u8], first_data_lba: u32, max_cluster: u16, spc: u8, first_cluster: u16, file_size: u32) -> (w: ChainWalk)
    ensures
        (w.reads@, w.result) == chain_walk(fat@, first_data_lba as int, max_cluster as int, spc as int, first_cluster as int, file_size as int, 0),
{
    let mut reads: Vec<ClusterRead> = Vec::new();
    let mut cluster: u16 = first_cluster;
    let mut bytes: u32 = file_size;
    let mut offset: u64 = 0;
    loop
        invariant
            bytes > 0 ==> offset + bytes <= file_size,
            offset <= file_size + CLUSTER_READ_LENGTH,
            chain_walk(fat@, first_data_lba as int, max_cluster as int, spc as int, first_cluster as int, file_size as int, 0)
                == (reads@ + chain_walk(fat@, first_data_lba as int, max_cluster as int, spc as int, cluster as int, bytes as int, offset as int).0,
                    chain_walk(fat@, first_data_lba as int, max_cluster as int, spc as int, cluster as int, bytes as int, offset as int).1),
        decreases bytes,
    {
        let ghost before = reads@;
        proof {
            assert(before + Seq::<ClusterRead>::empty() =~= before);
        }
        if bytes == 0 {
            return ChainWalk { reads, result: Err(FatError::BytesToReadZero) };
        }
        if fat.len() / 2 <= cluster as usize {
            return ChainWalk { reads, result: Err(FatError::ClusterOutOfRange) };
        }
        let e = read_u16_le(fat, 2 * cluster as usize);
        if e == 0 {
            return ChainWalk { reads, result: Err(FatError::FreeCluster) };
        }
        if e == 1 {
            return ChainWalk { reads, result: Err(FatError::ReservedClusterOne) };
        }
        if max_cluster == u16::MAX {
            return ChainWalk { reads, result: Err(FatError::InvalidGeometry) };
        }
        if e >= max_cluster + 1 && e <= 0xFFF6 {
            return ChainWalk { reads, result: Err(FatError::ReservedCluster) };
        }
        if e == 0xFFF7 {
            return ChainWalk { reads, result: Err(FatError::BadCluster) };
        }
        if cluster < 2 {
            return ChainWalk { reads, result: Err(FatError::ClusterOutOfRange) };
        }
        assert((cluster as u64 - 2) * (spc as u64) <= 0xFFFF * 0xFF) by (nonlinear_arith)
            requires
                2 <= cluster <= 0xFFFF,
                spc <= 0xFF,
        ;
        let step: u64 = (cluster as u64 - 2) * (spc as u64);
        if first_data_lba as u64 + step > u32::MAX as u64 {
            return ChainWalk { reads, result: Err(FatError::InvalidGeometry) };
        }
        let lba = (first_data_lba as u64 + step) as u32;
        let consumed: u32 = if bytes <= CLUSTER_READ_LENGTH as u32 { bytes } else { CLUSTER_READ_LENGTH as u32 };
        let read = ClusterRead { lba, offset, length: consumed as u64 };
        reads.push(read);
        let remaining = bytes - consumed;
        if e >= 0xFFF8 {
            let result = if remaining != 0 { Err(FatError::BytesRemaining) } else { Ok(()) };
            return ChainWalk { reads, result };
        }
        proof {
            let rest = chain_walk(fat@, first_data_lba as int, max_cluster as int, spc as int, e as int, remaining as int, offset + CLUSTER_READ_LENGTH);
            assert(before + (seq![read] + rest.0) =~= reads@ + rest.0);
        }
        cluster = e;
        bytes = remaining;
        offset = offset + CLUSTER_READ_LENGTH as u64;
    }
}

impl Fat16 {
    /// The volume with parameter block `bpb` whose first sector is at `base_lba`.
    pub fn new(bpb: Bpb, base_lba: u32) -> (f: Self)
        ensures
            f.bpb == bpb,
            f.base_lba == base_lba,
    {
        Self { bpb, base_lba }
    }

    /// Starts a search of the root directory at its first sector.
    pub fn findFile(&self) -> (r: Result<DirectorySearch, FatError>)
        ensures
            match search_start(*self) {
                None => r == Err::<DirectorySearch, FatError>(FatError::InvalidGeometry),
                Some((lba, size)) => r == Ok::<DirectorySearch, FatError>(DirectorySearch {
                    lba: lba as u64,
                    read: 0,
                    size: size as u32,
                    done: false,
                    entries_read: 0,
                }),
            },
            r matches Ok(s) ==> s.wf(),
    {
        let start = match self.bpb.rootDirStartSector() {
            None => return Err(FatError::InvalidGeometry),
            Some(s) => s,
        };
        if self.base_lba > u32::MAX - start as u32 || self.bpb.bytes_per_sector == 0 {
            return Err(FatError::InvalidGeometry);
        }
        let lba = self.base_lba + start as u32;
        let bps = self.bpb.bytes_per_sector as u32;
        let total: u32 = self.bpb.root_entries as u32 * 32 + (bps - 1);
        let size = total / bps;
        proof {
            assert(size <= total) by (nonlinear_arith)
                requires
                    size == total / bps,
                    bps >= 1,
            ;
        }
        Ok(DirectorySearch { lba: lba as u64, read: 0, size, done: false, entries_read: 0 })
    }

    /// Where the data area starts and how many clusters the volume has (see
    /// `data_geometry`).
    fn dataGeometry(&self) -> (r: Result<(u32, u16), FatError>)
        ensures
            match data_geometry(*self) {
                Ok((l, m)) => r == Ok::<(u32, u16), FatError>((l as u32, m as u16)),
                Err(e) => r == Err::<(u32, u16), FatError>(e),
            },
    {
        let s = match self.bpb.firstDataSector() {
            None => return Err(FatError::InvalidGeometry),
            Some(s) => s,
        };
        if self.base_lba > u32::MAX - s as u32 || self.bpb.sectors_per_cluster == 0 {
            return Err(FatError::InvalidGeometry);
        }
        Ok((self.base_lba + s as u32, self.bpb.total_sectors / self.bpb.sectors_per_cluster as u16))
    }

    /// The reads that printing the file of directory entry `entry` takes,
    /// following its chain through the FAT whose bytes are `fat`.
    pub fn printFile(&self, entry: &DirectoryEntry, fat: &[u8]) -> (r: Result<ChainWalk, FatError>)
        ensures
            entry.first_cluster_high != 0 ==> (r matches Err(e) && e == FatError::HighCluster),
            entry.first_cluster_high == 0 ==> match data_geometry(*self) {
                Err(e) => r matches Err(f) && f == e,
                Ok((l, m)) => r matches Ok(w) && (w.reads@, w.result)
                    == chain_walk(fat@, l, m, self.bpb.sectors_per_cluster as int, entry.first_cluster_low as int, entry.file_size as int, 0),
            },
    {
        if entry.first_cluster_high != 0 {
            return Err(FatError::HighCluster);
        }
        let (first_data_lba, max_cluster) = match self.dataGeometry() {
            Err(e) => return Err(e),
            Ok(g) => g,
        };
        Ok(walk_chain(fat, first_data_lba, max_cluster, self.bpb.sectors_per_cluster, entry.first_cluster_low, entry.file_size))
    }

    /// The reads that loading the file `info` takes, following its chain
    /// through the FAT whose bytes are `fat`.
    pub fn loadFile(&self, info: &FileInfo, fat: &[u8]) -> (r: Result<ChainWalk, FatError>)
        ensures
            match data_geometry(*self) {
                Err(e) => r matches Err(f) && f == e,
                Ok((l, m)) => r matches Ok(w) && (w.reads@, w.result)
                    == chain_walk(fat@, l, m, self.bpb.sectors_per_cluster as int, info.first_cluster_low as int, info.file_size as int, 0),
            },
    {
        let (first_data_lba, max_cluster) = match self.dataGeometry() {
            Err(e) => return Err(e),
            Ok(g) => g,
        };
        Ok(walk_chain(fat, first_data_lba, max_cluster, self.bpb.sectors_per_cluster, info.first_cluster_low, info.file_size))
    }
}

/// Every read of a walk from `offset` lands at `offset` or later, one cluster
/// after the other, and ends within the bytes left rounded up to whole
/// clusters; so loading a file never writes past its padded size.
pub proof fn lemma_chain_reads_fit(fat: Seq<u8>, first_data_lba: int, max_cluster: int, spc: int, cluster: int, bytes: int, offset: int)
    requires
        offset >= 0,
        offset + bytes + CLUSTER_READ_LENGTH <= u64::MAX,
    ensures
        forall|k: int| #![trigger chain_walk(fat, first_data_lba, max_cluster, spc, cluster, bytes, offset).0[k]]
            0 <= k < chain_walk(fat, first_data_lba, max_cluster, spc, cluster, bytes, offset).0.len() ==> {
            let r = chain_walk(fat, first_data_lba, max_cluster, spc, cluster, bytes, offset).0[k];
            &&& r.offset == offset + k * CLUSTER_READ_LENGTH
            &&& r.offset + CLUSTER_READ_LENGTH <= offset + padded(bytes)
            &&& 1 <= r.length <= CLUSTER_READ_LENGTH
        },
    decreases bytes,
{
    let w = chain_walk(fat, first_data_lba, max_cluster, spc, cluster, bytes, offset);
    if bytes > 0 && cluster >= 0 && 2 * cluster + 2 <= fat.len() {
        let e = le_u16(fat, 2 * cluster);
        assert(padded(bytes) >= 1024) by {
            assert((bytes + 1023) / 1024 >= 1);
        }
        let consumed = if bytes <= CLUSTER_READ_LENGTH { bytes } else { CLUSTER_READ_LENGTH as int };
        let rem = bytes - consumed;
        if e != 0 && e != 1 && max_cluster + 1 <= u16::MAX && !(e >= max_cluster + 1 && e <= 0xFFF6) && e != 0xFFF7
            && cluster >= 2 && first_data_lba + (cluster - 2) * spc <= u32::MAX && e < 0xFFF8 {
            let rest = chain_walk(fat, first_data_lba, max_cluster, spc, e, rem, offset + CLUSTER_READ_LENGTH);
            if rem > 0 {
                lemma_chain_reads_fit(fat, first_data_lba, max_cluster, spc, e, rem, offset + CLUSTER_READ_LENGTH);
                assert(padded(rem) + 1024 <= padded(bytes)) by {
                    assert(rem + 1023 + 1024 == bytes + 1023);
                    assert((rem + 1023) / 1024 + 1 == (bytes + 1023) / 1024);
                }
            } else {
                assert(rest.0.len() == 0);
            }
            assert forall|k: int| 1 <= k < w.0.len() implies #[trigger] w.0[k] == rest.0[k - 1] by {}
        }
    }
}


/// A FAT16 driver over a BIOS disk.
#[derive(Debug)]
pub struct FatDriver {
    pub disk: DiskDriver,
    pub fat16: Option<Fat16>,
}

/// The bootable partition that the first sector of a disk names, with its
/// number, or why there is none.
pub open spec fn active_partition_of(sector: Seq<u8>) -> Result<(PartitionEntry, u8), FatError> {
    if sector.len() < MBR_TAIL_LENGTH {
        Err(FatError::Mbr(MbrError::BufferTooShort))
    } else if !(sector[sector.len() - 2] == 0x55 && sector[sector.len() - 1] == 0xAA) {
        Err(FatError::Mbr(MbrError::InvalidSignature))
    } else {
        match active_partition(mbr_of(sector)) {
            Err(e) => Err(FatError::Mbr(e)),
            Ok(None) => Err(FatError::NoActivePartition),
            Ok(Some(p)) => Ok(p),
        }
    }
}

impl FatDriver {
    /// The bootable partition of the disk whose first sector is `sector`.
    pub fn activePartition(sector: &[u8]) -> (r: Result<(PartitionEntry, u8), FatError>)
        ensures
            r == active_partition_of(sector@),
    {
        let mbr = match Mbr::new(sector) {
            Err(e) => return Err(FatError::Mbr(e)),
            Ok(m) => m,
        };
        match mbr.getActivePartition() {
            Err(e) => Err(FatError::Mbr(e)),
            Ok(None) => Err(FatError::NoActivePartition),
            Ok(Some((p, n))) => Ok((*p, n)),
        }
    }

    /// Decodes the parameter block at the start of the partition's first
    /// sector and checks that the volume is FAT16.
    pub fn readBpb(sector: &[u8]) -> (r: Result<Bpb, FatError>)
        requires
            BPB_SIZE <= sector.len(),
        ensures
            r matches Ok(p) ==> bpb_fields_match(p, sector@) && fat16_check(p) is Ok,
            r matches Err(e) ==> forall|p: Bpb| #[trigger] bpb_fields_match(p, sector@) ==> fat16_check(p) == Err::<int, FatError>(e),
    {
        let bpb = Bpb::parse(sector);
        match bpb.checkFat16() {
            Err(e) => {
                proof {
                    assert forall|p: Bpb| #[trigger] bpb_fields_match(p, sector@) implies fat16_check(p) == Err::<int, FatError>(e) by {
                        assert(root_dir_sectors(p) == root_dir_sectors(bpb));
                        assert(root_dir_start_sector(p) == root_dir_start_sector(bpb));
                    }
                }
                Err(e)
            },
            Ok(_) => Ok(bpb),
        }
    }

    /// A driver over `disk` for the FAT16 volume with parameter block `bpb`
    /// that starts at `partition`'s first LBA.
    pub fn new(disk: DiskDriver, partition: &PartitionEntry, bpb: Bpb) -> (d: FatDriver)
        ensures
            d.disk == disk,
            d.fat16 matches Some(f) && f.bpb == bpb && f.base_lba == partition.start_lba,
    {
        FatDriver { disk, fat16: Some(Fat16::new(bpb, partition.start_lba)) }
    }

    /// Starts a search of the root directory.
    pub fn fileSearch(&self) -> (r: Result<DirectorySearch, FatError>)
        ensures
            match self.fat16 {
                None => r == Err::<DirectorySearch, FatError>(FatError::NoFat16),
                Some(f) => match search_start(f) {
                    None => r == Err::<DirectorySearch, FatError>(FatError::InvalidGeometry),
                    Some((lba, size)) => r == Ok::<DirectorySearch, FatError>(DirectorySearch {
                        lba: lba as u64,
                        read: 0,
                        size: size as u32,
                        done: false,
                        entries_read: 0,
                    }),
                },
            },
            r matches Ok(s) ==> s.wf(),
    {
        match &self.fat16 {
            None => Err(FatError::NoFat16),
            Some(f) => f.findFile(),
        }
    }

    /// Starts a search of the root directory for `name`.`ext`.
    pub fn fileFinder(&self, name: &[u8], ext: &[u8]) -> (r: Result<FileFinder, FatError>)
        ensures
            match self.fat16 {
                None => r matches Err(e) && e == FatError::NoFat16,
                Some(f) => match fresh_search(f) {
                    None => r matches Err(e) && e == FatError::InvalidGeometry,
                    Some(s) => r matches Ok(ff) && {
                        &&& ff.wf()
                        &&& ff.filename() == (name@, ext@)
                        &&& ff.start() == s
                        &&& ff.scanned() == Seq::<Seq<u8>>::empty()
                    },
                },
            },
    {
        match self.fileSearch() {
            Ok(search) => Ok(FileFinder::new(search, name, ext)),
            Err(e) => Err(e),
        }
    }

    /// Starts the search of the root directory for `HI.TXT`, the file that
    /// `printHiText` prints.
    pub fn hiTextFinder(&self) -> (r: Result<FileFinder, FatError>)
        ensures
            match self.fat16 {
                None => r matches Err(e) && e == FatError::NoFat16,
                Some(f) => match fresh_search(f) {
                    None => r matches Err(e) && e == FatError::InvalidGeometry,
                    Some(s) => r matches Ok(ff) && {
                        &&& ff.wf()
                        &&& ff.filename() == (hi_name(), hi_ext())
                        &&& ff.start() == s
                        &&& ff.scanned() == Seq::<Seq<u8>>::empty()
                    },
                },
            },
    {
        let name: [u8; 2] = [0x48, 0x49];
        let ext: [u8; 3] = [0x54, 0x58, 0x54];
        assert(name@ =~= hi_name());
        assert(ext@ =~= hi_ext());
        self.fileFinder(&name, &ext)
    }

    /// The reads that printing `HI.TXT` takes, given the finished search of
    /// the root directory for it (see `hiTextFinder`): the file is the entry
    /// where that search met the name, and its chain is followed through the
    /// FAT whose bytes are `fat`.
    pub fn printHiText(&self, finder: &FileFinder, fat: &[u8]) -> (r: Result<ChainWalk, FatError>)
        requires
            finder.wf(),
            finder.filename() == (hi_name(), hi_ext()),
            search_over(finder.outcome()),
            self.fat16 matches Some(f) ==> fresh_search(f) == Some(finder.start()),
        ensures
            self.fat16 is None ==> (r matches Err(e) && e == FatError::NoFat16),
            self.fat16 is Some && finder.outcome().1 is None ==> (r matches Err(e) && e == FatError::FileNotFound),
            match (self.fat16, finder.outcome().1) {
                (Some(f), Some((k, i))) => finder.found() matches Some(entry) && {
                    &&& dir_entry_matches(entry, finder.scanned()[k], i * DIRECTORY_ENTRY_SIZE)
                    &&& entry.first_cluster_high != 0 ==> (r matches Err(e) && e == FatError::HighCluster)
                    &&& entry.first_cluster_high == 0 ==> match data_geometry(f) {
                        Err(e) => r matches Err(g) && g == e,
                        Ok((l, m)) => r matches Ok(w) && (w.reads@, w.result)
                            == chain_walk(fat@, l, m, f.bpb.sectors_per_cluster as int, entry.first_cluster_low as int, entry.file_size as int, 0),
                    }
                },
                _ => true,
            },
    {
        match &self.fat16 {
            None => Err(FatError::NoFat16),
            Some(f) => match finder.found {
                None => Err(FatError::FileNotFound),
                Some(entry) => f.printFile(&entry, fat),
            },
        }
    }

    /// The file information of the entry that a search met.
    pub fn getFileInfo(&self, finder: &FileFinder) -> (r: Result<FileInfo, FatError>)
        requires
            finder.wf(),
        ensures
            self.fat16 is None ==> (r matches Err(e) && e == FatError::NoFat16),
            self.fat16 is Some && finder.outcome().1 is None ==> (r matches Err(e) && e == FatError::FileNotFound),
            match (self.fat16, finder.outcome().1) {
                (Some(_), Some((k, i))) => finder.found() matches Some(entry) && {
                    &&& dir_entry_matches(entry, finder.scanned()[k], i * DIRECTORY_ENTRY_SIZE)
                    &&& r matches Ok(info) && {
                        &&& info.name == entry.name
                        &&& info.ext == entry.ext
                        &&& info.file_size == entry.file_size
                        &&& info.first_cluster_low == entry.first_cluster_low
                    }
                },
                _ => true,
            },
    {
        if self.fat16.is_none() {
            return Err(FatError::NoFat16);
        }
        match finder.found {
            None => Err(FatError::FileNotFound),
            Some(entry) => Ok(FileInfo {
                name: entry.name,
                ext: entry.ext,
                file_size: entry.file_size,
                first_cluster_low: entry.first_cluster_low,
            }),
        }
    }

    /// The reads that loading `file_info` takes; the memory that receives it
    /// must hold `padded_size(file_info.file_size)` bytes.
    pub fn loadFile(&self, file_info: &FileInfo, fat: &[u8]) -> (r: Result<ChainWalk, FatError>)
        ensures
            self.fat16 is None ==> (r matches Err(e) && e == FatError::NoFat16),
            self.fat16 matches Some(f) ==> match data_geometry(f) {
                Err(e) => r matches Err(g) && g == e,
                Ok((l, m)) => r matches Ok(w) && (w.reads@, w.result)
                    == chain_walk(fat@, l, m, f.bpb.sectors_per_cluster as int, file_info.first_cluster_low as int, file_info.file_size as int, 0),
            },
    {
        match &self.fat16 {
            None => Err(FatError::NoFat16),
            Some(f) => f.loadFile(file_info, fat),
        }
    }
}


/// The attribute bits of a directory entry.
#[derive(Debug, Clone, Copy, PartialEq, Eq, Structural)]
pub enum DirectoryEntryAttribute {
    ReadOnly,
    Hidden,
    System,
    VolumeId,
    Directory,
    Archive,
}

/// The bit that an attribute occupies.
pub open spec fn attribute_bit(a: DirectoryEntryAttribute) -> u8 {
    match a {
        DirectoryEntryAttribute::ReadOnly => 0x01,
        DirectoryEntryAttribute::Hidden => 0x02,
        DirectoryEntryAttribute::System => 0x04,
        DirectoryEntryAttribute::VolumeId => 0x08,
        DirectoryEntryAttribute::Directory => 0x10,
        DirectoryEntryAttribute::Archive => 0x20,
    }
}

impl DirectoryEntryAttribute {
    /// The bit the attribute occupies in an entry's attribute byte.
    pub fn bits(&self) -> (r: u8)
        ensures
            r == attribute_bit(*self),
    {
        match self {
            DirectoryEntryAttribute::ReadOnly => 0x01,
            DirectoryEntryAttribute::Hidden => 0x02,
            DirectoryEntryAttribute::System => 0x04,
            DirectoryEntryAttribute::VolumeId => 0x08,
            DirectoryEntryAttribute::Directory => 0x10,
            DirectoryEntryAttribute::Archive => 0x20,
        }
    }
}

impl DirectoryEntry {
    /// Whether the entry carries the attribute.
    pub fn has(&self, a: DirectoryEntryAttribute) -> (r: bool)
        ensures
            r == (self.attributes & attribute_bit(a) != 0),
    {
        self.attributes & a.bits() != 0
    }
}


/// The bytes that the reads of a walk hand over, in all.
pub open spec fn read_bytes(reads: Seq<ClusterRead>) -> int
    decreases reads.len(),
{
    if reads.len() == 0 {
        0
    } else {
        reads[0].length + read_bytes(reads.drop_first())
    }
}

/// A walk that ends well hands over exactly the bytes that were left to
/// read: loading or printing a file delivers the whole file and no more.
pub proof fn lemma_chain_delivers_file(fat: Seq<u8>, first_data_lba: int, max_cluster: int, spc: int, cluster: int, bytes: int, offset: int)
    ensures
        chain_walk(fat, first_data_lba, max_cluster, spc, cluster, bytes, offset).1 is Ok
            ==> read_bytes(chain_walk(fat, first_data_lba, max_cluster, spc, cluster, bytes, offset).0) == bytes,
    decreases bytes,
{
    let w = chain_walk(fat, first_data_lba, max_cluster, spc, cluster, bytes, offset);
    if w.1 is Ok {
        let e = le_u16(fat, 2 * cluster);
        let consumed = if bytes <= CLUSTER_READ_LENGTH { bytes } else { CLUSTER_READ_LENGTH as int };
        let rem = bytes - consumed;
        let read = w.0[0];
        if e >= 0xFFF8 {
            assert(w.0.drop_first() =~= Seq::<ClusterRead>::empty());
            assert(read_bytes(Seq::<ClusterRead>::empty()) == 0);
        } else {
            lemma_chain_delivers_file(fat, first_data_lba, max_cluster, spc, e, rem, offset + CLUSTER_READ_LENGTH);
            let rest = chain_walk(fat, first_data_lba, max_cluster, spc, e, rem, offset + CLUSTER_READ_LENGTH);
            assert(w.0.drop_first() =~= rest.0);
        }
    }
}

/// A volume that passes the FAT16 checks has between 4085 and 65524 clusters.
pub proof fn lemma_fat16_cluster_range(p: Bpb)
    ensures
        fat16_check(p) matches Ok(c) ==> 4085 <= c < 65525,
{
}

/// A scan that stops on the requested file stops on a file entry whose
/// shown name and extension are the ones asked for.
pub proof fn lemma_found_entry_matches(b: Seq<u8>, k: int, base: int, name: Seq<u8>, ext: Seq<u8>)
    requires
        0 <= k,
    ensures
        scan_entries(b, k, base, Some((name, ext))).1 matches ScanStop::Found(i) ==> {
            &&& k <= i < ENTRIES_PER_SECTOR
            &&& entry_kind(b, i * DIRECTORY_ENTRY_SIZE) == EntryKind::File
            &&& name_matches(b, i * DIRECTORY_ENTRY_SIZE, name, ext)
        },
    decreases ENTRIES_PER_SECTOR - k,
{
    if k < ENTRIES_PER_SECTOR {
        lemma_found_entry_matches(b, k + 1, base, name, ext);
    }
}

/// Where a search of the root directory meets the file, the entry there is
/// a file entry that shows the requested name and extension.
pub proof fn lemma_search_meets_named_entry(s: DirectorySearch, sectors: Seq<Seq<u8>>, name: Seq<u8>, ext: Seq<u8>)
    ensures
        search_run(s, sectors, Some((name, ext))).1 matches Some((k, i)) ==> {
            &&& 0 <= k < sectors.len()
            &&& 0 <= i < ENTRIES_PER_SECTOR
            &&& entry_kind(sectors[k], i * DIRECTORY_ENTRY_SIZE) == EntryKind::File
            &&& name_matches(sectors[k], i * DIRECTORY_ENTRY_SIZE, name, ext)
        },
    decreases sectors.len(),
{
    if sectors.len() > 0 {
        let rest = sectors.drop_last();
        lemma_search_meets_named_entry(s, rest, name, ext);
        let prev = search_run(s, rest, Some((name, ext)));
        if let Some((k, i)) = prev.1 {
            assert(rest[k] == sectors[k]);
        } else {
            lemma_found_entry_matches(sectors.last(), 0, prev.0.entries_read as int, name, ext);
        }
    }
}


/// A cluster whose FAT entry is an end-of-chain marker (0xFFF8 to 0xFFFF)
/// is the file's last: the walk reads that one cluster, at the LBA of its
/// place in the data area, for what is left of the file up to 1024 bytes,
/// and stops there. The result is `Ok` exactly when nothing is left after
/// that read; a marker is never reported as an error of its own.
pub proof fn lemma_end_of_chain_is_last_read(
    fat: Seq<u8>,
    first_data_lba: int,
    max_cluster: int,
    spc: int,
    cluster: int,
    bytes: int,
    offset: int,
)
    requires
        0 < bytes,
        2 <= cluster,
        2 * cluster + 2 <= fat.len(),
        0xFFF8 <= le_u16(fat, 2 * cluster),
        0 <= max_cluster < 0xFFFF,
        0 <= first_data_lba,
        0 <= spc,
        first_data_lba + (cluster - 2) * spc <= u32::MAX,
        0 <= offset,
    ensures
        chain_walk(fat, first_data_lba, max_cluster, spc, cluster, bytes, offset) == (
            seq![ClusterRead {
                lba: (first_data_lba + (cluster - 2) * spc) as u32,
                offset: offset as u64,
                length: (if bytes <= 1024 { bytes } else { 1024 }) as u64,
            }],
            if bytes <= 1024 { Ok::<(), FatError>(()) } else { Err::<(), FatError>(FatError::BytesRemaining) },
        ),
{
}

/// One step of a cluster chain, by the value `e` of the cluster's FAT
/// entry: a free entry (0), the reserved value 1, a value above the last
/// cluster up to 0xFFF6, and the bad-cluster mark 0xFFF7 each stop the walk
/// with their own error and no read; an entry naming another data cluster
/// (2 up to the last cluster) reads 1024 bytes of this cluster, at its place
/// in the data area, and goes on at that cluster with 1024 fewer bytes, 1024
/// bytes further into the file; when no more than 1024 bytes were left, that
/// read takes them all and the chain going on past the file's end is an
/// error.
pub proof fn lemma_chain_step(
    fat: Seq<u8>,
    first_data_lba: int,
    max_cluster: int,
    spc: int,
    cluster: int,
    bytes: int,
    offset: int,
)
    requires
        0 < bytes,
        2 <= cluster,
        2 * cluster + 2 <= fat.len(),
        0 <= max_cluster < 0xFFFF,
        0 <= first_data_lba,
        0 <= spc,
        first_data_lba + (cluster - 2) * spc <= u32::MAX,
        0 <= offset,
    ensures
        ({
            let e = le_u16(fat, 2 * cluster);
            let r = chain_walk(fat, first_data_lba, max_cluster, spc, cluster, bytes, offset);
            &&& e == 0 ==> r == (Seq::<ClusterRead>::empty(), Err::<(), FatError>(FatError::FreeCluster))
            &&& e == 1 ==> r == (Seq::<ClusterRead>::empty(), Err::<(), FatError>(FatError::ReservedClusterOne))
            &&& 2 <= e && max_cluster < e <= 0xFFF6 ==> r == (Seq::<ClusterRead>::empty(), Err::<(), FatError>(FatError::ReservedCluster))
            &&& e == 0xFFF7 ==> r == (Seq::<ClusterRead>::empty(), Err::<(), FatError>(FatError::BadCluster))
            &&& 2 <= e <= max_cluster && e <= 0xFFF6 && bytes > 1024 ==> {
                let rest = chain_walk(fat, first_data_lba, max_cluster, spc, e as int, bytes - 1024, offset + 1024);
                r == (seq![ClusterRead {
                    lba: (first_data_lba + (cluster - 2) * spc) as u32,
                    offset: offset as u64,
                    length: 1024u64,
                }] + rest.0, rest.1)
            }
            &&& 2 <= e <= max_cluster && e <= 0xFFF6 && bytes <= 1024 ==> r == (seq![ClusterRead {
                lba: (first_data_lba + (cluster - 2) * spc) as u32,
                offset: offset as u64,
                length: bytes as u64,
            }], Err::<(), FatError>(FatError::BytesToReadZero))
        }),
{
    let e = le_u16(fat, 2 * cluster);
    let rest = chain_walk(fat, first_data_lba, max_cluster, spc, e, 0, offset + 1024);
    assert(rest == (Seq::<ClusterRead>::empty(), Err::<(), FatError>(FatError::BytesToReadZero)));
    assert(seq![ClusterRead {
        lba: (first_data_lba + (cluster - 2) * spc) as u32,
        offset: offset as u64,
        length: bytes as u64,
    }] + rest.0 =~= seq![ClusterRead {
        lba: (first_data_lba + (cluster - 2) * spc) as u32,
        offset: offset as u64,
        length: bytes as u64,
    }]);
}

} // verus!

