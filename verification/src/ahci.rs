use vstd::prelude::*;

use crate::acpi::Bar;
use crate::bytes::{le_u32, read_u32_le};

verus! {

/// Interface power management state of a SATA port.
#[derive(Debug, Clone, Copy, PartialEq, Eq, Structural)]
pub enum IPM {
    NotPresentOrEstablished,
    Active,
    Partial,
    Slumber,
    DevSleep,
    Reserved,
}

/// Device detection state of a SATA port.
#[derive(Debug, Clone, Copy, PartialEq, Eq, Structural)]
pub enum DET {
    NotDetected,
    DetectedButNotEstablished,
    DetectedAndEstablished,
    Offline,
    Reserved,
}

/// The power management state that an IPM field value denotes.
pub open spec fn ipm_of(v: u32) -> IPM {
    if v == 0 {
        IPM::NotPresentOrEstablished
    } else if v == 1 {
        IPM::Active
    } else if v == 2 {
        IPM::Partial
    } else if v == 6 {
        IPM::Slumber
    } else if v == 8 {
        IPM::DevSleep
    } else {
        IPM::Reserved
    }
}

/// The detection state that a DET field value denotes.
pub open spec fn det_of(v: u32) -> DET {
    if v == 0 {
        DET::NotDetected
    } else if v == 1 {
        DET::DetectedButNotEstablished
    } else if v == 3 {
        DET::DetectedAndEstablished
    } else if v == 4 {
        DET::Offline
    } else {
        DET::Reserved
    }
}

/// Signature of a SATA drive in a port's signature register.
pub const SATA_SIGNATURE: u32 = 0x0000_0101;

/// What a port's status and signature registers say: `None` when no device
/// is established and active there, else whether it is a SATA drive.
pub open spec fn port_is_sata(status: u32, signature: u32) -> Option<bool> {
    if det_of(status & 0xF) != DET::DetectedAndEstablished {
        None
    } else if ipm_of((status >> 8u32) & 0xF) != IPM::Active {
        None
    } else {
        Some(signature == SATA_SIGNATURE)
    }
}

/// Offset of port 0's registers from the start of the host bus adapter's registers.
pub const PORT_REGISTERS_OFFSET: usize = 0x100;

/// Size of one port's register block as the adapter's layout lays it out.
pub const PORT_REGISTER_SIZE: usize = 0x74;

/// The generic host control registers of an AHCI adapter.
#[derive(Debug, Clone, Copy, PartialEq, Eq, Structural)]
pub struct GenericHostControl {
    pub Cap: u32,
    pub Ghc: u32,
    pub IS: u32,
    pub PI: u32,
    pub VS: u32,
    pub Ccc_Ctl: u32,
    pub Ccc_Ports: u32,
    pub Em_Log: u32,
    pub Em_Ctl: u32,
    pub Cap2: u32,
    pub Bohc: u32,
}

/// The registers of one SATA port.
#[derive(Debug, Clone, Copy, PartialEq, Eq, Structural)]
pub struct PortRegister {
    pub CLB: u32,
    pub CLBU: u32,
    pub FB: u32,
    pub FBU: u32,
    pub IS: u32,
    pub IE: u32,
    pub CMD: u32,
    pub Reserved: u32,
    pub TFD: u32,
    pub SIG: u32,
    pub SSTS: u32,
    pub SCTL: u32,
    pub SERR: u32,
    pub SACT: u32,
    pub CI: u32,
    pub SNTF: u32,
    pub FSB: u32,
    pub DEVSLP: u32,
    pub VS: u32,
}

/// Why an AHCI request was refused.
#[derive(Debug, Clone, Copy, PartialEq, Eq, Structural)]
pub enum AhciError {
    /// The command list address is not 1 KiB aligned.
    ClbMisaligned(u32),
    /// Ports go up to 31.
    BogusPort(u8),
    /// The port's registers lie beyond the address space.
    AddressTooBig,
}

impl PortRegister {
    /// Points the port's command list at `address`, which must be 1 KiB
    /// aligned and in the low 4 GiB.
    pub fn setClb(&mut self, address: u32) -> (r: Result<(), AhciError>)
        ensures
            address % 1024 != 0 ==> r == Err::<(), AhciError>(AhciError::ClbMisaligned(address)) && *final(self) == *old(self),
            address % 1024 == 0 ==> r is Ok && *final(self) == (PortRegister { CLB: address, CLBU: 0, ..*old(self) }),
    {
        let low = address & 0b11_1111_1111;
        assert(low == address % 1024) by (bit_vector)
            requires
                low == address & 0x3FFu32,
        ;
        if low != 0 {
            return Err(AhciError::ClbMisaligned(address));
        }
        self.CLB = address;
        self.CLBU = 0;
        Ok(())
    }
}

/// The AHCI base address register (BAR 5) and where the adapter's
/// registers start.
#[derive(Debug, Clone, Copy, PartialEq, Eq, Structural)]
pub struct ABar {
    pub _Bar: Bar,
    pub HBA: usize,
}

impl ABar {
    /// The AHCI registers named by BAR 5, when the device has it.
    pub fn tryGet(bar5: Option<Bar>) -> (r: Option<ABar>)
        ensures
            match bar5 {
                None => r is None,
                Some(b) => r == Some(ABar { _Bar: b, HBA: b.BarTarget as usize }),
            },
    {
        match bar5 {
            None => None,
            Some(bar) => Some(ABar { _Bar: bar, HBA: bar.BarTarget as usize }),
        }
    }
}

/// An AHCI controller.
#[derive(Debug, Clone, Copy, PartialEq, Eq, Structural)]
pub struct Controller {
    pub ABar: ABar,
}

/// Port `index` is marked in the implemented-ports mask `pi` (its own bit
/// set) and holds a SATA drive.
pub open spec fn sata_port_at(pi: u32, sata: Seq<Option<bool>>, index: int) -> bool {
    (pi >> (index as u32)) & 1 == 1 && sata[index] == Some(true)
}

/// The first port from `index` on that the implemented-ports mask `pi`
/// marks and whose device is a SATA drive.
pub open spec fn sata_port_from(pi: u32, sata: Seq<Option<bool>>, index: int) -> Option<u8>
    decreases 32 - index,
{
    if index < 0 || index >= 32 {
        None
    } else if sata_port_at(pi, sata, index) {
        Some(index as u8)
    } else {
        sata_port_from(pi, sata, index + 1)
    }
}

/// What the search from `index` finds: a port whose own bit of the
/// implemented-ports mask is set and that holds a SATA drive, with no such
/// port between `index` and it.
proof fn lemma_sata_port(pi: u32, sata: Seq<Option<bool>>, index: int)
    requires
        0 <= index <= 32,
    ensures
        sata_port_from(pi, sata, index) matches Some(i) ==> index <= i < 32 && sata_port_at(pi, sata, i as int),
        forall|j: int| index <= j < 32 && (sata_port_from(pi, sata, index) matches Some(i) ==> j < i)
            ==> !#[trigger] sata_port_at(pi, sata, j),
    decreases 32 - index,
{
    if index < 32 {
        lemma_sata_port(pi, sata, index + 1);
    }
}

impl Controller {
    /// The power management state in an IPM field value.
    pub fn parseIPM(ipm: u32) -> (r: IPM)
        ensures
            r == ipm_of(ipm),
    {
        match ipm {
            0 => IPM::NotPresentOrEstablished,
            1 => IPM::Active,
            2 => IPM::Partial,
            6 => IPM::Slumber,
            8 => IPM::DevSleep,
            _ => IPM::Reserved,
        }
    }

    /// The detection state in a DET field value.
    pub fn praseDET(det: u32) -> (r: DET)
        ensures
            r == det_of(det),
    {
        match det {
            0 => DET::NotDetected,
            1 => DET::DetectedButNotEstablished,
            3 => DET::DetectedAndEstablished,
            4 => DET::Offline,
            _ => DET::Reserved,
        }
    }

    /// Judges a port by its status and signature registers (see `port_is_sata`).
    pub fn isSATA(status: u32, signature: u32) -> (r: Option<bool>)
        ensures
            r == port_is_sata(status, signature),
    {
        let ipm = Self::parseIPM((status >> 8) & 0xF);
        let det = Self::praseDET(status & 0xF);
        if det != DET::DetectedAndEstablished {
            return None;
        }
        if ipm != IPM::Active {
            return None;
        }
        Some(signature == SATA_SIGNATURE)
    }

    /// The lowest port that the implemented-ports mask marks and whose device
    /// is a SATA drive (see `sata_port_from`), given the judgement of each port.
    pub fn enumeratePorts(pi: u32, sata: &[Option<bool>]) -> (r: Option<u8>)
        requires
            sata@.len() == 32,
        ensures
            r == sata_port_from(pi, sata@, 0),
            r matches Some(i) ==> i < 32 && sata_port_at(pi, sata@, i as int),
            forall|j: int| 0 <= j < 32 && (r matches Some(i) ==> j < i) ==> !#[trigger] sata_port_at(pi, sata@, j),
    {
        proof {
            lemma_sata_port(pi, sata@, 0);
        }
        let mut index: usize = 0;
        while index < 32
            invariant
                sata@.len() == 32,
                index <= 32,
                sata_port_from(pi, sata@, 0) == sata_port_from(pi, sata@, index as int),
            decreases 32 - index,
        {
            if (pi >> (index as u32)) & 1 == 1 && sata[index] == Some(true) {
                proof {
                    lemma_sata_port(pi, sata@, 0);
                }
                return Some(index as u8);
            }
            index = index + 1;
        }
        None
    }

    /// The address of port `index`'s registers.
    pub fn getPort(&self, index: u8) -> (r: Result<usize, AhciError>)
        ensures
            index > 31 ==> r == Err::<usize, AhciError>(AhciError::BogusPort(index)),
            index <= 31 && self.ABar.HBA + PORT_REGISTERS_OFFSET + index * PORT_REGISTER_SIZE > usize::MAX
                ==> r == Err::<usize, AhciError>(AhciError::AddressTooBig),
            index <= 31 && self.ABar.HBA + PORT_REGISTERS_OFFSET + index * PORT_REGISTER_SIZE <= usize::MAX
                ==> r == Ok::<usize, AhciError>((self.ABar.HBA + PORT_REGISTERS_OFFSET + index * PORT_REGISTER_SIZE) as usize),
    {
        if index > 31 {
            return Err(AhciError::BogusPort(index));
        }
        let offset = PORT_REGISTERS_OFFSET + index as usize * PORT_REGISTER_SIZE;
        if self.ABar.HBA > usize::MAX - offset {
            return Err(AhciError::AddressTooBig);
        }
        Ok(self.ABar.HBA + offset)
    }
}


/// Number of ports an adapter can have.
pub const PORT_COUNT: usize = 32;

/// The registers of a host bus adapter: its generic host control and its
/// 32 port blocks.
#[derive(Debug)]
pub struct HbaData {
    pub GHC: GenericHostControl,
    pub Ports: Vec<PortRegister>,
}

/// The port block that the bytes of `b` at `o` hold matches `p`.
pub open spec fn port_matches(p: PortRegister, b: Seq<u8>, o: int) -> bool {
    &&& p.CLB == le_u32(b, o)
    &&& p.CLBU == le_u32(b, o + 4)
    &&& p.FB == le_u32(b, o + 8)
    &&& p.FBU == le_u32(b, o + 12)
    &&& p.IS == le_u32(b, o + 16)
    &&& p.IE == le_u32(b, o + 20)
    &&& p.CMD == le_u32(b, o + 24)
    &&& p.Reserved == le_u32(b, o + 28)
    &&& p.TFD == le_u32(b, o + 32)
    &&& p.SIG == le_u32(b, o + 36)
    &&& p.SSTS == le_u32(b, o + 40)
    &&& p.SCTL == le_u32(b, o + 44)
    &&& p.SERR == le_u32(b, o + 48)
    &&& p.SACT == le_u32(b, o + 52)
    &&& p.CI == le_u32(b, o + 56)
    &&& p.SNTF == le_u32(b, o + 60)
    &&& p.FSB == le_u32(b, o + 64)
    &&& p.DEVSLP == le_u32(b, o + 68)
    &&& p.VS == le_u32(b, o + 112)
}

impl PortRegister {
    /// Decodes the port block at `offset` of the adapter's register bytes.
    pub fn parse(b: &[u8], offset: usize) -> (p: PortRegister)
        requires
            offset + PORT_REGISTER_SIZE <= b.len(),
        ensures
            port_matches(p, b@, offset as int),
    {
        let o = offset;
        PortRegister {
            CLB: read_u32_le(b, o),
            CLBU: read_u32_le(b, o + 4),
            FB: read_u32_le(b, o + 8),
            FBU: read_u32_le(b, o + 12),
            IS: read_u32_le(b, o + 16),
            IE: read_u32_le(b, o + 20),
            CMD: read_u32_le(b, o + 24),
            Reserved: read_u32_le(b, o + 28),
            TFD: read_u32_le(b, o + 32),
            SIG: read_u32_le(b, o + 36),
            SSTS: read_u32_le(b, o + 40),
            SCTL: read_u32_le(b, o + 44),
            SERR: read_u32_le(b, o + 48),
            SACT: read_u32_le(b, o + 52),
            CI: read_u32_le(b, o + 56),
            SNTF: read_u32_le(b, o + 60),
            FSB: read_u32_le(b, o + 64),
            DEVSLP: read_u32_le(b, o + 68),
            VS: read_u32_le(b, o + 112),
        }
    }
}

impl HbaData {
    /// Decodes the adapter's registers from their bytes: the generic host
    /// control at the start and the port blocks from offset 0x100.
    pub fn parse(b: &[u8]) -> (h: HbaData)
        requires
            PORT_REGISTERS_OFFSET + PORT_COUNT * PORT_REGISTER_SIZE <= b.len(),
        ensures
            h.GHC.Cap == le_u32(b@, 0),
            h.GHC.PI == le_u32(b@, 12),
            h.Ports@.len() == PORT_COUNT,
            forall|i: int| 0 <= i < PORT_COUNT ==> port_matches(#[trigger] h.Ports@[i], b@, PORT_REGISTERS_OFFSET + i * PORT_REGISTER_SIZE),
    {
        let ghc = GenericHostControl {
            Cap: read_u32_le(b, 0),
            Ghc: read_u32_le(b, 4),
            IS: read_u32_le(b, 8),
            PI: read_u32_le(b, 12),
            VS: read_u32_le(b, 16),
            Ccc_Ctl: read_u32_le(b, 20),
            Ccc_Ports: read_u32_le(b, 24),
            Em_Log: read_u32_le(b, 28),
            Em_Ctl: read_u32_le(b, 32),
            Cap2: read_u32_le(b, 36),
            Bohc: read_u32_le(b, 40),
        };
        let mut ports: Vec<PortRegister> = Vec::new();
        let mut i: usize = 0;
        while i < PORT_COUNT
            invariant
                PORT_REGISTERS_OFFSET + PORT_COUNT * PORT_REGISTER_SIZE <= b.len(),
                i <= PORT_COUNT,
                ports@.len() == i,
                forall|k: int| 0 <= k < i ==> port_matches(#[trigger] ports@[k], b@, PORT_REGISTERS_OFFSET + k * PORT_REGISTER_SIZE),
            decreases PORT_COUNT - i,
        {
            ports.push(PortRegister::parse(b, PORT_REGISTERS_OFFSET + i * PORT_REGISTER_SIZE));
            i = i + 1;
        }
        HbaData { GHC: ghc, Ports: ports }
    }
}


/// A port is judged at all only when its link is up and in use: the DET
/// field (bits 0 to 3 of the status) says a device is present with
/// communication established (3), and the IPM field (bits 8 to 11) says the
/// interface is active (1). A judged port is a SATA drive exactly when its
/// signature is 0x101.
pub proof fn lemma_sata_needs_active_link(status: u32, signature: u32)
    ensures
        port_is_sata(status, signature) is Some <==> (status & 0xF == 3 && (status >> 8u32) & 0xF == 1),
        port_is_sata(status, signature) matches Some(b) ==> (b <==> signature == 0x101),
{
}

} // verus!
