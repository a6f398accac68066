use danos::acpi::{
    checkSignature, findRsdp, getRsdp, AcpiError, Bar, McfgEntry, PciCommonHeader, PciError, PciHeaderType, PciProbe, RsdtLocation, MCFG, RSDT,
};
use danos::ahci::{ABar, AhciError, Controller, HbaData, PortRegister, DET, IPM};
use danos::interrupts::{emptyTable, tableRegister, Entry, SetAddress, SetupStuff};
use danos::logging::{log_writer, logger};
use danos::serial::{COMPort, SerialPort};
use danos::shell::{KernelShell, StatusRegister};
use danos::dumb_heap::BootstrapDumbHeap;
use danos::memory_map::{MemoryMap, MemoryMapEntry};
use danos::physical_memory::{MemoryBlob, PhysicalMemoryManager};
use danos::types::{PhysicalAddress, VirtualAddress};
use danos::virtual_memory::VirtualMemoryManager;
use danos::vga::Writer;

fn header(class: u8, subclass: u8, prog_if: u8, header_type: u8) -> PciCommonHeader {
    let mut b = [0u8; 16];
    b[0..2].copy_from_slice(&0x8086u16.to_le_bytes());
    b[9] = prog_if;
    b[10] = subclass;
    b[11] = class;
    b[14] = header_type;
    PciCommonHeader::parse(&b)
}

#[test]
fn pci_header_types() {
    assert_eq!(header(0, 0, 0, 0).getType(), PciHeaderType::General);
    assert_eq!(header(0, 0, 0, 1).getType(), PciHeaderType::NormalBridge);
    assert_eq!(header(0, 0, 0, 2).getType(), PciHeaderType::CardBridge);
    assert_eq!(header(0, 0, 0, 0x80).getType(), PciHeaderType::MultiFunctionGeneral);
    assert_eq!(header(0, 0, 0, 0x81).getType(), PciHeaderType::Dunno);
    assert_eq!(header(0, 0, 0, 0).VendorID, 0x8086);
}

#[test]
fn pci_config_addresses() {
    let mut raw = [0u8; 16];
    raw[0..8].copy_from_slice(&0xB000_0000u64.to_le_bytes());
    let e = McfgEntry::parse(&raw);
    assert_eq!(e.BaseAddress, 0xB000_0000);
    assert_eq!(PciCommonHeader::calculateAddress(&e, 0, 3, 2), 0xB000_0000 + 3 * 0x8000 + 2 * 0x1000);
    assert_eq!(PciCommonHeader::calculateAddress(&e, 1, 0, 0), 0xB010_0000);
    assert_eq!(PciCommonHeader::calculateAddress(&e, 2, 31, 7), 0xB020_0000 + 31 * 0x8000 + 7 * 0x1000);
    assert_eq!(PciCommonHeader::checkAddress(&e, 0, 3, 2), Ok(0xB000_0000 + 3 * 0x8000 + 2 * 0x1000));
    assert_eq!(PciCommonHeader::checkAddress(&e, 0, 32, 0), Err(PciError::DeviceOutOfRange));
    assert_eq!(PciCommonHeader::checkAddress(&e, 0, 0, 8), Err(PciError::FunctionOutOfRange));
    let far = McfgEntry { BaseAddress: u64::MAX - 0x10, SegmentGroup: 0, StartBus: 0, EndBus: 0, Reserved: 0 };
    assert_eq!(PciCommonHeader::checkAddress(&far, 0, 1, 0), Err(PciError::AddressTooBig));
}

#[test]
fn ahci_controller_search() {
    let mut probes: Vec<Option<PciProbe>> = vec![None; 256];
    probes[0] = Some(PciProbe { header: header(6, 0, 0, 0), general: true });
    // Device 2 is multi-function; function 0 is a SATA controller of another interface,
    // and function 3 is judged by its own header.
    probes[16] = Some(PciProbe { header: header(1, 6, 0, 0x80), general: true });
    probes[19] = Some(PciProbe { header: header(1, 6, 1, 0), general: true });
    probes[40] = Some(PciProbe { header: header(1, 6, 1, 0), general: true });
    assert_eq!(McfgEntry::findAhci(&probes), Some((2, 3)));
    // A function whose own interface is not AHCI is passed over.
    probes[19] = Some(PciProbe { header: header(1, 6, 0, 0), general: true });
    assert_eq!(McfgEntry::findAhci(&probes), Some((5, 0)));
    // Without the multi-function bit only function 0 of a device is looked at.
    probes[16] = Some(PciProbe { header: header(1, 6, 0, 0), general: true });
    probes[19] = Some(PciProbe { header: header(1, 6, 1, 0), general: true });
    assert_eq!(McfgEntry::findAhci(&probes), Some((5, 0)));
    assert_eq!(McfgEntry::findAhci(&vec![None; 256]), None);
}

fn mcfg(length: u32) -> MCFG {
    MCFG {
        Signature: *b"MCFG",
        Length: length,
        Revision: 1,
        Checksum: 0,
        OEMID: [0; 6],
        OemTableID: [0; 8],
        OemRevision: [0; 4],
        CreateID: [0; 4],
        CreatorRevision: [0; 4],
        Reserved: 0,
        FirstConfigEntry: 0,
    }
}

fn rsdt(length: u32) -> RSDT {
    RSDT {
        Signature: *b"RSDT",
        Length: length,
        Revision: 1,
        Checksum: 0,
        OEMID: [0; 6],
        OemTableID: [0; 8],
        OemRevision: [0; 4],
        CreateID: [0; 4],
        CreatorRevision: [0; 4],
        FirstEntry: 0,
    }
}

#[test]
fn acpi_table_entry_counts() {
    assert_eq!(mcfg(60).entryCount(), Ok(1));
    assert_eq!(mcfg(76).entryCount(), Ok(2));
    assert_eq!(mcfg(61).entryCount(), Err(AcpiError::PartialEntries));
    assert_eq!(rsdt(40).entryCount(), Ok(1));
    assert_eq!(rsdt(52).entryCount(), Ok(4));
    assert_eq!(rsdt(42).entryCount(), Err(AcpiError::PartialEntries));
}

fn rsdp(address: u32) -> [u8; 20] {
    let mut p = [0u8; 20];
    p[0..8].copy_from_slice(b"RSD PTR ");
    p[9..15].copy_from_slice(b"BOCHS ");
    p[16..20].copy_from_slice(&address.to_le_bytes());
    let sum: u32 = p.iter().map(|b| *b as u32).sum();
    p[8] = ((256 - sum % 256) % 256) as u8;
    p
}

#[test]
fn rsdp_signature_and_checksum() {
    let p = rsdp(0x07FE_1234);
    assert_eq!(checkSignature(&p, 0), Ok(RsdtLocation { address: 0x07FE_1234, aligned: 0x07FE_1000, offset: 0x234 }));
    let mut bad = p;
    bad[8] = bad[8].wrapping_add(1);
    assert_eq!(checkSignature(&bad, 0), Err(AcpiError::ChecksumFailed));
    let mut other = p;
    other[0] = b'X';
    assert_eq!(checkSignature(&other, 0), Err(AcpiError::NotSignature));
}

#[test]
fn rsdp_scan_on_16_byte_boundaries() {
    let mut region = vec![0u8; 0x100];
    let p = rsdp(0x1000);
    region[0x41..0x55].copy_from_slice(&p);
    assert_eq!(findRsdp(&region), None);
    region[0x60..0x74].copy_from_slice(&p);
    assert_eq!(findRsdp(&region).map(|(o, _)| o), Some(0x60));
    assert_eq!(getRsdp(&region), (0x60, RsdtLocation { address: 0x1000, aligned: 0x1000, offset: 0 }));
    assert_eq!(findRsdp(&region[..10]), None);
}

#[test]
fn bar_size() {
    let b = Bar::new(0xFEBF_0000, 0xFEBF_0000, 0xFFFF_E000);
    assert_eq!(b._AddressSpace, 0x2000);
    assert_eq!(b.BarTarget, 0xFEBF_0000);
    assert_eq!(Bar::new(1, 2, 0xFFFF_FFF8)._AddressSpace, 8);
}

#[test]
fn ahci_port_status() {
    assert_eq!(Controller::parseIPM(1), IPM::Active);
    assert_eq!(Controller::parseIPM(6), IPM::Slumber);
    assert_eq!(Controller::parseIPM(3), IPM::Reserved);
    assert_eq!(Controller::praseDET(3), DET::DetectedAndEstablished);
    assert_eq!(Controller::praseDET(4), DET::Offline);
    assert_eq!(Controller::praseDET(2), DET::Reserved);
    assert_eq!(Controller::isSATA(0x133, 0x101), Some(true));
    assert_eq!(Controller::isSATA(0x133, 0xEB14_0101), Some(false));
    assert_eq!(Controller::isSATA(0x131, 0x101), None);
    assert_eq!(Controller::isSATA(0x633, 0x101), None);
}

#[test]
fn ahci_port_enumeration() {
    let mut sata = vec![None; 32];
    sata[1] = Some(true);
    assert_eq!(Controller::enumeratePorts(0b11, &sata), Some(1));
    // Port 1 is probed through its own bit of PI, whatever bit 0 holds.
    assert_eq!(Controller::enumeratePorts(0b10, &sata), Some(1));
    // A SATA port whose PI bit is clear is never reported.
    assert_eq!(Controller::enumeratePorts(0b01, &sata), None);
    sata[1] = Some(false);
    assert_eq!(Controller::enumeratePorts(u32::MAX, &sata), None);
}

#[test]
fn ahci_registers() {
    let bar = Bar::new(0xFEBF_1000, 0xFEBF_1000, 0xFFFF_F000);
    let abar = ABar::tryGet(Some(bar)).unwrap();
    assert!(ABar::tryGet(None).is_none());
    let c = Controller { ABar: abar };
    assert_eq!(c.getPort(0), Ok(0xFEBF_1100));
    assert_eq!(c.getPort(2), Ok(0xFEBF_1100 + 2 * 0x74));
    assert_eq!(c.getPort(32), Err(AhciError::BogusPort(32)));
    let mut p = PortRegister {
        CLB: 1, CLBU: 2, FB: 0, FBU: 0, IS: 0, IE: 0, CMD: 0, Reserved: 0, TFD: 0, SIG: 0, SSTS: 0, SCTL: 0, SERR: 0, SACT: 0,
        CI: 0, SNTF: 0, FSB: 0, DEVSLP: 0, VS: 0,
    };
    assert_eq!(p.setClb(0x1200), Err(AhciError::ClbMisaligned(0x1200)));
    assert_eq!((p.CLB, p.CLBU), (1, 2));
    assert_eq!(p.setClb(0x1400), Ok(()));
    assert_eq!((p.CLB, p.CLBU), (0x1400, 0));
}

#[test]
fn interrupt_gates() {
    let mut e = Entry::default();
    SetAddress(&mut e, 0x1234_5678_9ABC_DEF0, 3);
    let (low, mid, high) = (e.IsrLow, e.IsrMid, e.IsrHigh);
    assert_eq!((low, mid, high), (0xDEF0, 0x9ABC, 0x1234_5678));
    let (high64, mid64, low64) = (high as u64, mid as u64, low as u64);
    assert_eq!((high64 << 32) | (mid64 << 16) | low64, 0x1234_5678_9ABC_DEF0);
    let (cs, attributes) = (e.CS, e.Attributes);
    assert_eq!((cs, attributes), (8, 0x8E));
    let mut t = emptyTable();
    SetupStuff(&mut t, 0x1000, 0x2000, 0xFFFF_8000_0000_3000);
    assert_eq!(t.Table.Entries[3].IsrLow, 0x2000);
    assert_eq!(t.Table.Entries[14].IsrHigh, 0xFFFF_8000);
    assert_eq!(t.Table.Entries[1], Entry::default());
    let r = tableRegister(0x5000);
    assert_eq!((r.Limit, r.Base), (4095, 0x5000));
}

#[test]
fn serial_port_decisions() {
    assert_eq!(COMPort::COM1.getPortAddress(), 0x3F8);
    let s = SerialPort { port: COMPort::COM1 };
    assert_eq!(s.register(5), 0x3FD);
    assert!(SerialPort::isTransmitNotEmpty(0x00));
    assert!(!SerialPort::isTransmitNotEmpty(0x60));
    assert!(SerialPort::dataAvailable(0x61));
    assert!(!SerialPort::dataAvailable(0x60));
    assert!(SerialPort::loopbackOk(0xDA));
    assert!(!SerialPort::loopbackOk(0xDB));
}

#[test]
fn keyboard_scan_codes() {
    let vmm = {
        let pmm = PhysicalMemoryManager {
            MemoryMap: MemoryMap { Entries: vec![MemoryMapEntry::default(); 32], Count: 0 },
            Blobs: vec![MemoryBlob::default(); 15],
        };
        VirtualMemoryManager::new(pmm, BootstrapDumbHeap::new(0, 0x1000, false, 0))
    };
    let shell = KernelShell::new(&vmm);
    assert_eq!(shell.translate_potential_scan_code(0x9E), Some('A'));
    assert_eq!(shell.translate_potential_scan_code(0xAC), Some('Z'));
    assert_eq!(shell.translate_potential_scan_code(0x8B), Some('0'));
    assert_eq!(shell.translate_potential_scan_code(0xB9), Some(' '));
    assert_eq!(shell.translate_potential_scan_code(0xAB), Some('\\'));
    assert_eq!(shell.translate_potential_scan_code(0xA8), Some('\''));
    assert_eq!(shell.translate_potential_scan_code(0xCE), Some('+'));
    assert_eq!(shell.translate_potential_scan_code(0x1E), None);
    let sr = StatusRegister::new(0x01);
    assert!(sr.out_buffer_full && !sr.in_buffer_full);
}

#[test]
fn small_types() {
    assert_eq!(VirtualAddress::new(0x2000).address, 0x2000);
    assert_eq!(PhysicalAddress::new(0x3000).address, 0x3000);
    assert_eq!(Writer::new(), Writer);
    assert_eq!(log_writer::LogWriter::new(), log_writer::LogWriter);
    assert_eq!(logger::LogWriter::new(), logger::LogWriter);
    let l = logger::Logger { serial: Some(SerialPort { port: COMPort::COM1 }) };
    assert!(l.serial.is_some());
}

#[test]
fn hba_registers_decode() {
    let mut raw = vec![0u8; 0x100 + 32 * 0x74];
    raw[12..16].copy_from_slice(&0b101u32.to_le_bytes());
    let port2 = 0x100 + 2 * 0x74;
    raw[port2 + 36..port2 + 40].copy_from_slice(&0x101u32.to_le_bytes());
    raw[port2 + 40..port2 + 44].copy_from_slice(&0x133u32.to_le_bytes());
    let hba = HbaData::parse(&raw);
    assert_eq!(hba.GHC.PI, 0b101);
    assert_eq!(hba.Ports.len(), 32);
    assert_eq!((hba.Ports[2].SIG, hba.Ports[2].SSTS), (0x101, 0x133));
    let judged: Vec<Option<bool>> = hba.Ports.iter().map(|p| Controller::isSATA(p.SSTS, p.SIG)).collect();
    // Port 0 is implemented but empty; port 2 is implemented and holds a SATA drive.
    assert_eq!(Controller::enumeratePorts(hba.GHC.PI, &judged), Some(2));
    assert_eq!(Controller::enumeratePorts(0b011, &judged), None);
}
