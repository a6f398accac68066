use danos::disk::DiskDriver;
use danos::fat::{
    padded_size, scanEntries, Bpb, ClusterRead, DirListing, DirectoryEntry, Fat16, FatDriver, FatError, FileInfo, ScanStop,
};
use danos::mbr::MbrError;

struct Geometry {
    bps: u16,
    spc: u8,
    reserved: u16,
    fats: u8,
    root: u16,
    total: u16,
    spf: u16,
}

const GOOD: Geometry = Geometry { bps: 512, spc: 4, reserved: 4, fats: 2, root: 512, total: 20480, spf: 20 };

fn boot_sector(g: &Geometry) -> Vec<u8> {
    let mut b = vec![0u8; 512];
    b[0..3].copy_from_slice(&[0xEB, 0x3C, 0x90]);
    b[3..11].copy_from_slice(b"MSWIN4.1");
    b[11..13].copy_from_slice(&g.bps.to_le_bytes());
    b[13] = g.spc;
    b[14..16].copy_from_slice(&g.reserved.to_le_bytes());
    b[16] = g.fats;
    b[17..19].copy_from_slice(&g.root.to_le_bytes());
    b[19..21].copy_from_slice(&g.total.to_le_bytes());
    b[21] = 0xF8;
    b[22..24].copy_from_slice(&g.spf.to_le_bytes());
    b[28..32].copy_from_slice(&2048u32.to_le_bytes());
    b[54..62].copy_from_slice(b"FAT16   ");
    b
}

fn volume() -> Fat16 {
    Fat16::new(FatDriver::readBpb(&boot_sector(&GOOD)).unwrap(), 2048)
}

fn dir_entry(name: &[u8; 8], ext: &[u8; 3], attributes: u8, cluster: u16, size: u32) -> [u8; 32] {
    let mut e = [0u8; 32];
    e[0..8].copy_from_slice(name);
    e[8..11].copy_from_slice(ext);
    e[11] = attributes;
    e[26..28].copy_from_slice(&cluster.to_le_bytes());
    e[28..32].copy_from_slice(&size.to_le_bytes());
    e
}

fn sector(entries: &[[u8; 32]]) -> Vec<u8> {
    let mut s = vec![0u8; 512];
    for (i, e) in entries.iter().enumerate() {
        s[i * 32..(i + 1) * 32].copy_from_slice(e);
    }
    s
}

fn fat_bytes(chain: &[(usize, u16)], entries: usize) -> Vec<u8> {
    let mut f = vec![0u8; entries * 2];
    f[0..2].copy_from_slice(&0xFFF8u16.to_le_bytes());
    f[2..4].copy_from_slice(&0xFFFFu16.to_le_bytes());
    for (c, v) in chain {
        f[c * 2..c * 2 + 2].copy_from_slice(&v.to_le_bytes());
    }
    f
}

#[test]
fn bpb_parse_reads_fields() {
    let b = Bpb::parse(&boot_sector(&GOOD));
    assert_eq!(b.bytes_per_sector, 512);
    assert_eq!(b.sectors_per_cluster, 4);
    assert_eq!(b.root_entries, 512);
    assert_eq!(b.hidden_sectors, 2048);
    assert_eq!(&b.oem, b"MSWIN4.1");
    assert_eq!(&b.file_system_type, b"FAT16   ");
    assert_eq!(b.rootDirSectors(), Some(32));
    assert_eq!(b.rootDirStartSector(), Some(44));
    assert_eq!(b.firstDataSector(), Some(76));
    assert_eq!(b.checkFat16(), Ok(5101));
}

#[test]
fn read_bpb_refuses_other_file_systems() {
    let g = |f: fn(&mut Geometry)| {
        let mut g = Geometry { ..GOOD };
        f(&mut g);
        FatDriver::readBpb(&boot_sector(&g)).err()
    };
    assert_eq!(g(|g| g.root = 0), Some(FatError::RootEntriesZero));
    assert_eq!(g(|g| g.spf = 0), Some(FatError::SectorsPerFatZero));
    assert_eq!(g(|g| g.total = 0), Some(FatError::TotalSectorsZero));
    assert_eq!(g(|g| g.total = 4000), Some(FatError::Fat12));
    assert_eq!(g(|g| { g.total = 65535; g.spc = 1; g.reserved = 1; g.spf = 1; g.root = 16 }), Some(FatError::Fat32));
    assert_eq!(g(|g| g.bps = 0), Some(FatError::InvalidGeometry));
    assert_eq!(g(|g| g.root = 4096), Some(FatError::InvalidGeometry));
    assert_eq!(g(|_| {}), None);
}

#[test]
fn active_partition_errors() {
    assert_eq!(FatDriver::activePartition(&[0u8; 10]).unwrap_err(), FatError::Mbr(MbrError::BufferTooShort));
    let mut s = vec![0u8; 512];
    s[510] = 0x55;
    s[511] = 0xAA;
    assert_eq!(FatDriver::activePartition(&s).unwrap_err(), FatError::NoActivePartition);
    s[446] = 0x80;
    s[454..458].copy_from_slice(&2048u32.to_le_bytes());
    let (p, n) = FatDriver::activePartition(&s).unwrap();
    assert_eq!((p.start_lba, n), (2048, 1));
}

#[test]
fn directory_scan_lists_and_finds() {
    let s = sector(&[
        dir_entry(b"DANOS   ", b"   ", 0x08, 0, 0),
        dir_entry(b"AKERNEL ", b"BIN", 0x0F, 0, 0),
        dir_entry(b"\xE5ERNEL  ", b"BIN", 0x20, 5, 100),
        dir_entry(b"KERNEL  ", b"BIN", 0x20, 2, 1500),
        dir_entry(b"HI      ", b"TXT", 0x20, 9, 12),
    ]);
    let (listing, stop) = scanEntries(&s, 0, None);
    assert_eq!(stop, ScanStop::End);
    assert_eq!(
        listing,
        vec![
            DirListing::VolumeId,
            DirListing::LongName,
            DirListing::Entry { index: 3, name_len: 6, ext_len: 3 },
            DirListing::Entry { index: 4, name_len: 2, ext_len: 3 },
            DirListing::End(6),
        ]
    );
    let (_, stop) = scanEntries(&s, 0, Some((b"HI", b"TXT")));
    assert_eq!(stop, ScanStop::Found(4));
    let e = DirectoryEntry::parse(&s, 4 * 32);
    assert_eq!((e.first_cluster_low, e.file_size), (9, 12));
    let (_, stop) = scanEntries(&s, 0, Some((b"HI", b"TX")));
    assert_eq!(stop, ScanStop::End);
}

#[test]
fn directory_scan_names_invalid_utf8() {
    let s = sector(&[dir_entry(b"\xFF\xFE      ", b"   ", 0x20, 2, 1)]);
    let (_, stop) = scanEntries(&s, 0, Some((b"Invalid Name", b"")));
    assert_eq!(stop, ScanStop::End);
    let (_, stop) = scanEntries(&s, 0, Some((b"Invalid Name", b"   ")));
    assert_eq!(stop, ScanStop::Found(0));
}

#[test]
fn directory_scan_names_multibyte_utf8() {
    let s = sector(&[
        dir_entry(b"\xC3\xA9TE    ", b"   ", 0x20, 2, 1),
        dir_entry(b"\xC0\xAFA     ", b"   ", 0x20, 3, 1),
        dir_entry(b"\xED\xA0\x80B    ", b"   ", 0x20, 4, 1),
        dir_entry(b"\xF4\x8F\xBF\xBFC   ", b"   ", 0x20, 5, 1),
    ]);
    // A well-formed two-byte sequence is read as the name itself.
    let (_, stop) = scanEntries(&s, 0, Some((b"\xC3\xA9TE", b"   ")));
    assert_eq!(stop, ScanStop::Found(0));
    // An overlong form and an encoded surrogate are not UTF-8.
    let (_, stop) = scanEntries(&s, 0, Some((b"Invalid Name", b"   ")));
    assert_eq!(stop, ScanStop::Found(1));
    let (_, stop) = scanEntries(&s, 0, Some((b"\xED\xA0\x80B", b"   ")));
    assert_eq!(stop, ScanStop::End);
    // The highest code point is still accepted.
    let (_, stop) = scanEntries(&s, 0, Some((b"\xF4\x8F\xBF\xBFC", b"   ")));
    assert_eq!(stop, ScanStop::Found(3));
}

#[test]
fn directory_search_walks_sectors() {
    let f = volume();
    let mut search = f.findFile().unwrap();
    assert_eq!(search.lba, 2048 + 44);
    assert_eq!(search.size, 32);
    assert_eq!(search.nextLba(), Some(2092));
    let full = sector(&vec![dir_entry(b"X       ", b"Y  ", 0x20, 2, 1); 16]);
    let (_, stop) = search.scanSector(&full, None);
    assert_eq!(stop, ScanStop::Continue);
    assert_eq!(search.read, 512);
    assert_eq!(search.entries_read, 16);
    // The byte count already passes the 32-sector size, so the search stops.
    assert_eq!(search.nextLba(), None);
}

#[test]
fn chain_walk_reads_clusters_in_order() {
    let f = volume();
    let fat = fat_bytes(&[(2, 3), (3, 0xFFFF)], 512);
    let info = FileInfo { name: *b"KERNEL  ", ext: *b"BIN", file_size: 1500, first_cluster_low: 2 };
    let w = f.loadFile(&info, &fat).unwrap();
    let first_data_lba = 2048 + 76;
    assert_eq!(
        w.reads,
        vec![
            ClusterRead { lba: first_data_lba, offset: 0, length: 1024 },
            ClusterRead { lba: first_data_lba + 4, offset: 1024, length: 476 },
        ]
    );
    assert_eq!(w.result, Ok(()));
    assert_eq!(padded_size(1500), 2048);
}

#[test]
fn chain_walk_errors() {
    let f = volume();
    let info = |size: u32, cluster: u16| FileInfo { name: [0x20; 8], ext: [0x20; 3], file_size: size, first_cluster_low: cluster };
    let fat = fat_bytes(&[(2, 3), (3, 0xFFFF), (4, 0), (5, 0xFFF7), (6, 1), (7, 0xF000)], 512);
    assert_eq!(f.loadFile(&info(3000, 2), &fat).unwrap().result, Err(FatError::BytesRemaining));
    assert_eq!(f.loadFile(&info(500, 2), &fat).unwrap().result, Err(FatError::BytesToReadZero));
    assert_eq!(f.loadFile(&info(500, 2), &fat).unwrap().reads.len(), 1);
    assert_eq!(f.loadFile(&info(500, 4), &fat).unwrap().result, Err(FatError::FreeCluster));
    assert_eq!(f.loadFile(&info(500, 5), &fat).unwrap().result, Err(FatError::BadCluster));
    assert_eq!(f.loadFile(&info(500, 6), &fat).unwrap().result, Err(FatError::ReservedClusterOne));
    assert_eq!(f.loadFile(&info(500, 7), &fat).unwrap().result, Err(FatError::ReservedCluster));
    assert_eq!(f.loadFile(&info(500, 600), &fat).unwrap().result, Err(FatError::ClusterOutOfRange));
    assert_eq!(f.loadFile(&info(500, 1), &fat).unwrap().result, Err(FatError::ClusterOutOfRange));
    assert_eq!(f.loadFile(&info(0, 2), &fat).unwrap().result, Err(FatError::BytesToReadZero));
}

fn driver_of(disk: DiskDriver) -> FatDriver {
    let partition = FatDriver::activePartition(&{
        let mut m = vec![0u8; 512];
        m[510] = 0x55;
        m[511] = 0xAA;
        m[446] = 0x80;
        m[454..458].copy_from_slice(&2048u32.to_le_bytes());
        m
    })
    .unwrap()
    .0;
    FatDriver::new(disk, &partition, Bpb::parse(&boot_sector(&GOOD)))
}

#[test]
fn print_file_and_driver_checks() {
    let disk = DiskDriver::new(0x80);
    let none = FatDriver { disk, fat16: None };
    assert!(matches!(none.fileSearch(), Err(FatError::NoFat16)));
    assert!(matches!(none.hiTextFinder(), Err(FatError::NoFat16)));
    assert!(matches!(none.fileFinder(b"HI", b"TXT"), Err(FatError::NoFat16)));
    assert!(matches!(none.loadFile(&FileInfo { name: [0; 8], ext: [0; 3], file_size: 1, first_cluster_low: 2 }, &[]), Err(FatError::NoFat16)));

    let driver = driver_of(disk);
    let fat = fat_bytes(&[(2, 0xFFFF)], 512);
    let finished = {
        let mut f = driver.hiTextFinder().unwrap();
        f.scan(&sector(&[dir_entry(b"HI      ", b"TXT", 0x20, 2, 12)]));
        f
    };
    assert!(matches!(none.printHiText(&finished, &[]), Err(FatError::NoFat16)));
    assert!(matches!(none.getFileInfo(&finished), Err(FatError::NoFat16)));

    // HI.TXT is the second entry of the first root-directory sector.
    let s = sector(&[dir_entry(b"BIG     ", b"DAT", 0x20, 3, 12), dir_entry(b"HI      ", b"TXT", 0x20, 2, 12)]);
    let mut hi = driver.hiTextFinder().unwrap();
    assert_eq!(hi.nextLba(), Some(2048 + 44));
    let listing = hi.scan(&s);
    assert_eq!(listing.last(), Some(&DirListing::Entry { index: 1, name_len: 2, ext_len: 3 }));
    assert_eq!(hi.nextLba(), None);
    let w = driver.printHiText(&hi, &fat).unwrap();
    assert_eq!(w.reads, vec![ClusterRead { lba: 2048 + 76, offset: 0, length: 12 }]);

    let mut big = driver.fileFinder(b"BIG", b"DAT").unwrap();
    big.scan(&s);
    let info = driver.getFileInfo(&big).unwrap();
    assert_eq!((&info.name, &info.ext, info.file_size, info.first_cluster_low), (b"BIG     ", b"DAT", 12, 3));

    // A directory that ends without HI.TXT.
    let mut missing = driver.hiTextFinder().unwrap();
    missing.scan(&sector(&[dir_entry(b"BIG     ", b"DAT", 0x20, 3, 12)]));
    assert_eq!(missing.nextLba(), None);
    assert!(matches!(driver.printHiText(&missing, &fat), Err(FatError::FileNotFound)));
    assert!(matches!(driver.getFileInfo(&missing), Err(FatError::FileNotFound)));

    // An entry whose high cluster word is set.
    let mut high = sector(&[dir_entry(b"HI      ", b"TXT", 0x20, 2, 12)]);
    high[20] = 1;
    let mut h = driver.hiTextFinder().unwrap();
    h.scan(&high);
    assert!(matches!(driver.printHiText(&h, &fat), Err(FatError::HighCluster)));

    let search = driver.fileSearch().unwrap();
    assert_eq!(search.nextLba(), Some(2048 + 44));
}

#[test]
fn file_search_stops_after_the_first_root_sector() {
    // The search counts bytes read against the root directory's size in
    // sectors, so with 32 root-directory sectors it is over after one sector.
    let driver = driver_of(DiskDriver::new(0x80));
    let full: Vec<[u8; 32]> = (0..16).map(|_| dir_entry(b"BIG     ", b"DAT", 0x20, 3, 12)).collect();
    let mut hi = driver.hiTextFinder().unwrap();
    hi.scan(&sector(&full));
    assert_eq!(hi.nextLba(), None);
    let fat = fat_bytes(&[(2, 0xFFFF)], 512);
    assert!(matches!(driver.printHiText(&hi, &fat), Err(FatError::FileNotFound)));
}
