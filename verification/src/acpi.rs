use vstd::prelude::*;

use crate::bytes::{le_u16, le_u32, le_u64, read_u16_le, read_u32_le, read_u64_le};
use crate::memory_helpers::{alignDown, aligned_down};

verus! {

/// A PCI base address register: where it points, its raw value and the
/// size of the space it decodes.
#[derive(Debug, Clone, Copy, PartialEq, Eq, Structural)]
pub struct Bar {
    pub BarTarget: u32,
    pub _Value: u32,
    pub _AddressSpace: u32,
}

impl Bar {
    /// The register at `address` whose value was `barValue` and which read
    /// back `readBack` after all ones were written to it: the decoded size
    /// is the two's complement of the read-back with the three info bits
    /// cleared.
    pub fn new(address: u32, barValue: u32, readBack: u32) -> (b: Bar)
        requires
            readBack & 0xFFFF_FFF8u32 != 0,
        ensures
            b.BarTarget == address,
            b._Value == barValue,
            b._AddressSpace == (!(readBack & 0xFFFF_FFF8u32)) + 1,
    {
        let masked = readBack & 0xFFFF_FFF8;
        assert(!masked < u32::MAX) by (bit_vector)
            requires
                masked != 0,
        ;
        let size = (!masked) + 1;
        Bar { BarTarget: address, _AddressSpace: size, _Value: barValue }
    }
}

/// The layout kinds of a PCI configuration header.
#[derive(Debug, Clone, Copy, PartialEq, Eq, Structural)]
pub enum PciHeaderType {
    General,
    NormalBridge,
    CardBridge,
    MultiFunctionGeneral,
    Dunno,
}

/// The first 16 bytes of a PCI configuration header.
#[derive(Debug, Clone, Copy, PartialEq, Eq, Structural)]
pub struct PciCommonHeader {
    pub VendorID: u16,
    pub DeviceID: u16,
    pub Command: u16,
    pub Status: u16,
    pub RevisionID: u8,
    pub ProgIF: u8,
    pub Subclass: u8,
    pub ClassCode: u8,
    pub CacheLineSize: u8,
    pub LatenchTimer: u8,
    pub HeaderType: u8,
    pub BIST: u8,
}

/// One entry of the MCFG table: the configuration space of a bus range.
#[derive(Debug, Clone, Copy, PartialEq, Eq, Structural)]
pub struct McfgEntry {
    pub BaseAddress: u64,
    pub SegmentGroup: u16,
    pub StartBus: u8,
    pub EndBus: u8,
    pub Reserved: u32,
}

/// Why a PCI configuration address could not be formed.
#[derive(Debug, Clone, Copy, PartialEq, Eq, Structural)]
pub enum PciError {
    /// Device numbers go up to 31.
    DeviceOutOfRange,
    /// Function numbers go up to 7.
    FunctionOutOfRange,
    /// The segment's base address does not fit in a `usize`.
    BaseTooBig,
    /// The configuration address does not fit in a `usize`.
    AddressTooBig,
}

/// The header kind that a `HeaderType` byte denotes.
pub open spec fn header_type_of(t: u8) -> PciHeaderType {
    if t == 0 {
        PciHeaderType::General
    } else if t == 1 {
        PciHeaderType::NormalBridge
    } else if t == 2 {
        PciHeaderType::CardBridge
    } else if t == 0x80 {
        PciHeaderType::MultiFunctionGeneral
    } else {
        PciHeaderType::Dunno
    }
}

/// The configuration-space address of `bus`, `device`, `function` in the
/// range that `entry` describes.
pub open spec fn config_address(entry: McfgEntry, bus: int, device: int, function: int) -> int {
    entry.BaseAddress + (bus - entry.StartBus) * 0x10_0000 + device * 0x8000 + function * 0x1000
}

impl PciCommonHeader {
    /// Decodes a header from its first 16 bytes.
    pub fn parse(b: &[u8]) -> (h: PciCommonHeader)
        requires
            16 <= b.len(),
        ensures
            h.VendorID == le_u16(b@, 0),
            h.DeviceID == le_u16(b@, 2),
            h.Command == le_u16(b@, 4),
            h.Status == le_u16(b@, 6),
            h.RevisionID == b@[8],
            h.ProgIF == b@[9],
            h.Subclass == b@[10],
            h.ClassCode == b@[11],
            h.CacheLineSize == b@[12],
            h.LatenchTimer == b@[13],
            h.HeaderType == b@[14],
            h.BIST == b@[15],
    {
        PciCommonHeader {
            VendorID: read_u16_le(b, 0),
            DeviceID: read_u16_le(b, 2),
            Command: read_u16_le(b, 4),
            Status: read_u16_le(b, 6),
            RevisionID: b[8],
            ProgIF: b[9],
            Subclass: b[10],
            ClassCode: b[11],
            CacheLineSize: b[12],
            LatenchTimer: b[13],
            HeaderType: b[14],
            BIST: b[15],
        }
    }

    /// The header's layout kind.
    pub fn getType(&self) -> (t: PciHeaderType)
        ensures
            t == header_type_of(self.HeaderType),
    {
        match self.HeaderType {
            0 => PciHeaderType::General,
            1 => PciHeaderType::NormalBridge,
            2 => PciHeaderType::CardBridge,
            0x80 => PciHeaderType::MultiFunctionGeneral,
            _ => PciHeaderType::Dunno,
        }
    }

    /// The memory-mapped configuration address of a function, or why it
    /// cannot be had: a device or function number out of range, or a base
    /// or result that does not fit in a `usize`.
    pub fn checkAddress(entry: &McfgEntry, bus: u8, device: u8, function: u8) -> (r: Result<usize, PciError>)
        requires
            entry.StartBus <= bus,
        ensures
            device >= 32 ==> r == Err::<usize, PciError>(PciError::DeviceOutOfRange),
            device < 32 && function >= 8 ==> r == Err::<usize, PciError>(PciError::FunctionOutOfRange),
            device < 32 && function < 8 && entry.BaseAddress > usize::MAX
                ==> r == Err::<usize, PciError>(PciError::BaseTooBig),
            device < 32 && function < 8 && entry.BaseAddress <= usize::MAX
                && config_address(*entry, bus as int, device as int, function as int) > usize::MAX
                ==> r == Err::<usize, PciError>(PciError::AddressTooBig),
            device < 32 && function < 8 && entry.BaseAddress <= usize::MAX
                && config_address(*entry, bus as int, device as int, function as int) <= usize::MAX
                ==> r == Ok::<usize, PciError>(config_address(*entry, bus as int, device as int, function as int) as usize),
    {
        if device >= 32 {
            return Err(PciError::DeviceOutOfRange);
        }
        if function >= 8 {
            return Err(PciError::FunctionOutOfRange);
        }
        let base = entry.BaseAddress;
        if base > usize::MAX as u64 {
            return Err(PciError::BaseTooBig);
        }
        let big_bus: u64 = (bus - entry.StartBus) as u64;
        let big_device: u64 = device as u64;
        let big_function: u64 = function as u64;
        let a = big_bus << 20u64;
        let b = big_device << 15u64;
        let c = big_function << 12u64;
        let d = a | b | c;
        assert(d == big_bus * 0x10_0000 + big_device * 0x8000 + big_function * 0x1000) by (bit_vector)
            requires
                big_bus < 256,
                big_device < 32,
                big_function < 8,
                a == big_bus << 20u64,
                b == big_device << 15u64,
                c == big_function << 12u64,
                d == a | b | c,
        ;
        if base > u64::MAX - d {
            return Err(PciError::AddressTooBig);
        }
        let e = base + d;
        if e > usize::MAX as u64 {
            return Err(PciError::AddressTooBig);
        }
        Ok(e as usize)
    }

    /// The memory-mapped configuration address of a function. The device and
    /// function numbers must be in range and the base and the result must fit
    /// in a `usize` (see `checkAddress`); anything else halts the kernel.
    pub fn calculateAddress(entry: &McfgEntry, bus: u8, device: u8, function: u8) -> (r: usize)
        requires
            entry.StartBus <= bus,
            device < 32,
            function < 8,
            entry.BaseAddress <= usize::MAX,
            config_address(*entry, bus as int, device as int, function as int) <= usize::MAX,
        ensures
            r == config_address(*entry, bus as int, device as int, function as int),
    {
        match Self::checkAddress(entry, bus, device, function) {
            Ok(address) => address,
            Err(_) => 0,
        }
    }
}

impl McfgEntry {
    /// Decodes an entry from its 16 bytes.
    pub fn parse(b: &[u8]) -> (e: McfgEntry)
        requires
            16 <= b.len(),
        ensures
            e.BaseAddress == le_u64(b@, 0),
            e.SegmentGroup == le_u16(b@, 8),
            e.StartBus == b@[10],
            e.EndBus == b@[11],
            e.Reserved == le_u32(b@, 12),
    {
        McfgEntry {
            BaseAddress: read_u64_le(b, 0),
            SegmentGroup: read_u16_le(b, 8),
            StartBus: b[10],
            EndBus: b[11],
            Reserved: read_u32_le(b, 12),
        }
    }
}


/// What probing one PCI function found: its header, and whether it is a
/// general device whose registers could be mapped.
#[derive(Debug, Clone, Copy, PartialEq, Eq, Structural)]
pub struct PciProbe {
    pub header: PciCommonHeader,
    pub general: bool,
}

/// The function is an AHCI controller: a general device whose own header
/// names mass storage (class 1), SATA (subclass 6) and the AHCI interface.
pub open spec fn is_ahci(p: PciProbe) -> bool {
    p.general && p.header.ClassCode == 1 && p.header.Subclass == 6 && p.header.ProgIF == 1
}

/// The first AHCI controller among functions `f..8` of `device`, each
/// judged by its own header.
pub open spec fn ahci_in_functions(probes: Seq<Option<PciProbe>>, device: int, f: int) -> Option<(u8, u8)>
    decreases 8 - f,
{
    if f < 1 || f >= 8 {
        None
    } else {
        match probes[device * 8 + f] {
            Some(p) => if is_ahci(p) {
                Some((device as u8, f as u8))
            } else {
                ahci_in_functions(probes, device, f + 1)
            },
            None => ahci_in_functions(probes, device, f + 1),
        }
    }
}

/// The first AHCI controller among devices `d..32`: function 0 of each
/// present device, then, for a multi-function device, its functions 1 to 7.
pub open spec fn ahci_from(probes: Seq<Option<PciProbe>>, d: int) -> Option<(u8, u8)>
    decreases 32 - d,
{
    if d < 0 || d >= 32 {
        None
    } else {
        match probes[d * 8] {
            None => ahci_from(probes, d + 1),
            Some(h) => if is_ahci(h) {
                Some((d as u8, 0u8))
            } else if header_type_of(h.header.HeaderType) == PciHeaderType::MultiFunctionGeneral {
                match ahci_in_functions(probes, d, 1) {
                    Some(found) => Some(found),
                    None => ahci_from(probes, d + 1),
                }
            } else {
                ahci_from(probes, d + 1)
            },
        }
    }
}

impl McfgEntry {
    /// The first AHCI controller on bus 0, as device and function numbers,
    /// given what probing each function found (`probes[device * 8 + function]`).
    pub fn findAhci(probes: &[Option<PciProbe>]) -> (r: Option<(u8, u8)>)
        requires
            probes@.len() == 256,
        ensures
            r == ahci_from(probes@, 0),
    {
        let mut device: usize = 0;
        while device < 32
            invariant
                probes@.len() == 256,
                device <= 32,
                ahci_from(probes@, 0) == ahci_from(probes@, device as int),
            decreases 32 - device,
        {
            match probes[device * 8] {
                None => {},
                Some(h) => {
                    if h.general && h.header.ClassCode == 1 && h.header.Subclass == 6 && h.header.ProgIF == 1 {
                        return Some((device as u8, 0));
                    }
                    if h.header.getType() == PciHeaderType::MultiFunctionGeneral {
                        let mut f: usize = 1;
                        while f < 8
                            invariant
                                probes@.len() == 256,
                                device < 32,
                                1 <= f <= 8,
                                probes@[device * 8] == Some(h),
                                !is_ahci(h),
                                header_type_of(h.header.HeaderType) == PciHeaderType::MultiFunctionGeneral,
                                ahci_from(probes@, 0) == ahci_from(probes@, device as int),
                                ahci_in_functions(probes@, device as int, 1)
                                    == ahci_in_functions(probes@, device as int, f as int),
                            decreases 8 - f,
                        {
                            match probes[device * 8 + f] {
                                Some(p) => {
                                    if p.general && p.header.ClassCode == 1 && p.header.Subclass == 6 && p.header.ProgIF == 1 {
                                        return Some((device as u8, f as u8));
                                    }
                                },
                                None => {},
                            }
                            f = f + 1;
                        }
                    }
                },
            }
            device = device + 1;
        }
        None
    }
}

/// Why an ACPI table could not be used.
#[derive(Debug, Clone, Copy, PartialEq, Eq, Structural)]
pub enum AcpiError {
    /// The space after the fixed part does not hold whole entries.
    PartialEntries,
    /// The checksum of the root pointer is not zero.
    ChecksumFailed,
    /// The bytes do not start with the root pointer's signature.
    NotSignature,
}

/// Size of the MCFG table before its first entry, counting the entry's first byte.
pub const MCFG_SIZE: u32 = 45;

/// Size of one MCFG entry.
pub const MCFG_ENTRY_SIZE: u32 = 16;

/// Size of the RSDT table including its first entry.
pub const RSDT_SIZE: usize = 40;

/// The MCFG table: the PCI Express memory-mapped configuration ranges.
#[derive(Debug, Clone, Copy)]
pub struct MCFG {
    pub Signature: [u8; 4],
    pub Length: u32,
    pub Revision: u8,
    pub Checksum: u8,
    pub OEMID: [u8; 6],
    pub OemTableID: [u8; 8],
    pub OemRevision: [u8; 4],
    pub CreateID: [u8; 4],
    pub CreatorRevision: [u8; 4],
    pub Reserved: u64,
    pub FirstConfigEntry: u8,
}

impl MCFG {
    /// The number of configuration entries that the table's length gives,
    /// which must leave no partial entry.
    pub fn entryCount(&self) -> (r: Result<u32, AcpiError>)
        requires
            self.Length >= MCFG_SIZE,
        ensures
            (self.Length - MCFG_SIZE + 1) % MCFG_ENTRY_SIZE as int != 0 ==> r == Err::<u32, AcpiError>(AcpiError::PartialEntries),
            (self.Length - MCFG_SIZE + 1) % MCFG_ENTRY_SIZE as int == 0
                ==> r == Ok::<u32, AcpiError>(((self.Length - MCFG_SIZE + 1) / MCFG_ENTRY_SIZE as int) as u32),
    {
        let length_for_entries = self.Length - MCFG_SIZE + 1;
        if length_for_entries % MCFG_ENTRY_SIZE != 0 {
            return Err(AcpiError::PartialEntries);
        }
        Ok(length_for_entries / MCFG_ENTRY_SIZE)
    }
}

/// The root system description table.
#[derive(Debug, Clone, Copy)]
pub struct RSDT {
    pub Signature: [u8; 4],
    pub Length: u32,
    pub Revision: u8,
    pub Checksum: u8,
    pub OEMID: [u8; 6],
    pub OemTableID: [u8; 8],
    pub OemRevision: [u8; 4],
    pub CreateID: [u8; 4],
    pub CreatorRevision: [u8; 4],
    pub FirstEntry: u32,
}

impl RSDT {
    /// The number of 32-bit table pointers the table holds, its length
    /// leaving no partial pointer.
    pub fn entryCount(&self) -> (r: Result<usize, AcpiError>)
        requires
            self.Length >= RSDT_SIZE,
        ensures
            (self.Length - RSDT_SIZE) % 4 != 0 ==> r == Err::<usize, AcpiError>(AcpiError::PartialEntries),
            (self.Length - RSDT_SIZE) % 4 == 0 ==> r == Ok::<usize, AcpiError>(((self.Length - RSDT_SIZE) / 4 + 1) as usize),
    {
        let extra = self.Length as usize - RSDT_SIZE;
        if extra % 4 != 0 {
            return Err(AcpiError::PartialEntries);
        }
        Ok(extra / 4 + 1)
    }
}

/// Where the RSDT that a root pointer names lies: its address, that address
/// rounded down to a page, and the offset between the two.
#[derive(Debug, Clone, Copy, PartialEq, Eq, Structural)]
pub struct RsdtLocation {
    pub address: u32,
    pub aligned: usize,
    pub offset: usize,
}

/// Length of the part of the root pointer that its checksum covers.
pub const RSDP_LENGTH: usize = 20;

/// The signature `RSD PTR ` as bytes.
pub open spec fn rsdp_signature() -> Seq<u8> {
    seq![0x52u8, 0x53, 0x44, 0x20, 0x50, 0x54, 0x52, 0x20]
}

/// The sum of the first `n` bytes of `s`.
pub open spec fn byte_sum(s: Seq<u8>, n: int) -> int
    decreases n,
{
    if n <= 0 { 0 } else { byte_sum(s, n - 1) + s[n - 1] }
}

/// What checking a root pointer at `o` in `b` gives.
pub open spec fn rsdp_check(b: Seq<u8>, o: int) -> Result<RsdtLocation, AcpiError> {
    if b.subrange(o, o + 8) != rsdp_signature() {
        Err(AcpiError::NotSignature)
    } else if byte_sum(b.subrange(o, o + RSDP_LENGTH), RSDP_LENGTH as int) % 256 != 0 {
        Err(AcpiError::ChecksumFailed)
    } else {
        let a = le_u32(b, o + 16);
        Ok(RsdtLocation {
            address: a as u32,
            aligned: aligned_down(a, 0x1000) as usize,
            offset: (a - aligned_down(a, 0x1000)) as usize,
        })
    }
}

proof fn lemma_byte_sum_bound(s: Seq<u8>, n: int)
    requires
        0 <= n <= s.len(),
    ensures
        0 <= byte_sum(s, n) <= 255 * n,
    decreases n,
{
    if n > 0 {
        lemma_byte_sum_bound(s, n - 1);
    }
}

/// Checks the 20 bytes of a root system description pointer at `offset`:
/// the signature `RSD PTR `, then a zero checksum; gives where its RSDT lies.
pub fn checkSignature(b: &[u8], offset: usize) -> (r: Result<RsdtLocation, AcpiError>)
    requires
        offset + RSDP_LENGTH <= b.len(),
    ensures
        r == rsdp_check(b@, offset as int),
{
    let expected: [u8; 8] = [0x52, 0x53, 0x44, 0x20, 0x50, 0x54, 0x52, 0x20];
    let mut i: usize = 0;
    while i < 8
        invariant
            offset + RSDP_LENGTH <= b.len(),
            i <= 8,
            expected@ == rsdp_signature(),
            forall|k: int| 0 <= k < i ==> b@[offset + k] == rsdp_signature()[k],
        decreases 8 - i,
    {
        if b[offset + i] != expected[i] {
            proof {
                assert(b@.subrange(offset as int, offset + 8)[i as int] != rsdp_signature()[i as int]);
            }
            return Err(AcpiError::NotSignature);
        }
        i = i + 1;
    }
    assert(b@.subrange(offset as int, offset + 8) =~= rsdp_signature());
    let ghost window = b@.subrange(offset as int, offset + RSDP_LENGTH);
    let mut sum: u32 = 0;
    let mut j: usize = 0;
    while j < RSDP_LENGTH
        invariant
            offset + RSDP_LENGTH <= b.len(),
            j <= RSDP_LENGTH,
            window == b@.subrange(offset as int, offset + RSDP_LENGTH),
            sum == byte_sum(window, j as int),
            sum <= 255 * j,
        decreases RSDP_LENGTH - j,
    {
        proof {
            lemma_byte_sum_bound(window, j as int);
        }
        sum = sum + b[offset + j] as u32;
        j = j + 1;
    }
    if sum % 256 != 0 {
        return Err(AcpiError::ChecksumFailed);
    }
    let address = read_u32_le(b, offset + 16);
    let aligned = alignDown(address as usize, 0x1000);
    Ok(RsdtLocation { address, aligned, offset: address as usize - aligned })
}

/// The first 16-byte boundary from `o` on, in `b`, that holds a valid root
/// pointer, with what it gives.
pub open spec fn rsdp_from(b: Seq<u8>, o: int) -> Option<(usize, RsdtLocation)>
    decreases b.len() - o,
{
    if o < 0 || o + RSDP_LENGTH > b.len() {
        None
    } else {
        match rsdp_check(b, o) {
            Ok(loc) => Some((o as usize, loc)),
            Err(_) => rsdp_from(b, o + 16),
        }
    }
}

/// Scans the memory `region` on 16-byte boundaries for the root system
/// description pointer, and gives the offset of the first valid one and
/// where its RSDT lies, or `None` when the region holds none.
pub fn findRsdp(region: &[u8]) -> (r: Option<(usize, RsdtLocation)>)
    ensures
        r == rsdp_from(region@, 0),
{
    if region.len() < RSDP_LENGTH {
        return None;
    }
    let last = region.len() - RSDP_LENGTH;
    let mut o: usize = 0;
    while o <= last
        invariant
            last + RSDP_LENGTH == region@.len(),
            rsdp_from(region@, 0) == rsdp_from(region@, o as int),
        decreases last + 1 - o,
    {
        match checkSignature(region, o) {
            Ok(loc) => return Some((o, loc)),
            Err(_) => {},
        }
        if last - o < 16 {
            assert(rsdp_from(region@, o + 16) is None);
            return None;
        }
        o = o + 16;
    }
    None
}

/// The offset of the first valid root system description pointer in the
/// memory `region` and where its RSDT lies. The region must hold one (the
/// kernel halts when the BIOS area holds none).
pub fn getRsdp(region: &[u8]) -> (r: (usize, RsdtLocation))
    requires
        rsdp_from(region@, 0) is Some,
    ensures
        rsdp_from(region@, 0) == Some(r),
{
    match findRsdp(region) {
        Some(found) => found,
        None => (0, RsdtLocation { address: 0, aligned: 0, offset: 0 }),
    }
}

} // verus!
