use vstd::prelude::*;

use crate::dumb_heap::BootstrapDumbHeap;
use crate::memory_helpers::aligned_up;
use crate::physical_memory::PhysicalMemoryManager;

verus! {

/// Size of a page in bytes.
pub const SIZE_OF_PAGE: u64 = 0x1000;

/// Number of entries in each paging table.
pub const PAGES_PER_TABLE: u64 = 512;

/// Number of virtual addresses the manager can remember.
pub const VIRTUAL_ADDRESS_SLOTS: usize = 100;

/// The indices into the four paging levels that a virtual address selects.
#[derive(Debug, Clone, Copy, PartialEq, Eq, Structural)]
pub struct VirtualMemoryIndex {
    pub PML4: u64,
    pub PDPT: u64,
    pub PD: u64,
    pub PT: u64,
}

/// One run of pages that a single page table covers: the physical and
/// virtual address of its first page, the page count, and where it lives in
/// the paging structures.
#[derive(Debug, Clone, Copy, PartialEq, Eq, Structural)]
pub struct MapChunk {
    pub physicalAddress: u64,
    pub virtualAddress: u64,
    pub numberOfPages: u64,
    pub index: VirtualMemoryIndex,
}

/// Why a virtual memory request was refused.
#[derive(Debug, Clone, Copy, PartialEq, Eq, Structural)]
pub enum VmError {
    /// The physical address is not page aligned.
    PhysicalMisaligned(u64),
    /// The virtual address is not page aligned.
    VirtualMisaligned(u64),
    /// The virtual address is not canonical.
    NotCanonical(u64),
    /// The rounded-up length, or an address it reaches, does not fit in 64 bits.
    TooLong,
}

/// Bits 48 and up of the address are all clear or all set.
pub open spec fn canonical(address: u64) -> bool {
    (address >> 48u64) == 0 || (address >> 48u64) == 0xFFFF
}

/// The address with bit 47 copied into bits 48 to 63.
pub open spec fn canonical_form(address: u64) -> u64 {
    if address & 0x8000_0000_0000u64 != 0 {
        address | 0xFFFF_0000_0000_0000u64
    } else {
        address & 0x0000_FFFF_FFFF_FFFFu64
    }
}

/// The paging indices of a virtual address: nine bits each, from bit 39,
/// 30, 21 and 12.
pub open spec fn vmi_of(address: u64) -> VirtualMemoryIndex {
    VirtualMemoryIndex {
        PML4: ((address as int / 0x80_0000_0000) % 512) as u64,
        PDPT: ((address as int / 0x4000_0000) % 512) as u64,
        PD: ((address as int / 0x20_0000) % 512) as u64,
        PT: ((address as int / 0x1000) % 512) as u64,
    }
}

/// The pages that one call into the page tables maps for a request of
/// `pages` pages at `virt`: no more than remain in the page table that holds
/// `virt`.
pub open spec fn chunk_pages(virt: u64, pages: int) -> int {
    let room = PAGES_PER_TABLE - vmi_of(virt).PT;
    if pages > room { room } else { pages }
}

/// How mapping `pages` pages from `phys` to `virt` splits into runs, each
/// within one page table; or the first check that refuses it.
pub open spec fn map_plan(phys: u64, virt: u64, pages: int) -> Result<Seq<MapChunk>, VmError>
    decreases pages,
{
    if pages <= 0 {
        Ok(Seq::empty())
    } else if phys % SIZE_OF_PAGE != 0 {
        Err(VmError::PhysicalMisaligned(phys))
    } else if virt % SIZE_OF_PAGE != 0 {
        Err(VmError::VirtualMisaligned(virt))
    } else if !canonical(virt) {
        Err(VmError::NotCanonical(virt))
    } else {
        let n = chunk_pages(virt, pages);
        let chunk = MapChunk { physicalAddress: phys, virtualAddress: virt, numberOfPages: n as u64, index: vmi_of(virt) };
        if n == pages {
            Ok(seq![chunk])
        } else if phys + n * SIZE_OF_PAGE > u64::MAX || virt + n * SIZE_OF_PAGE > u64::MAX {
            Err(VmError::TooLong)
        } else {
            match map_plan((phys + n * SIZE_OF_PAGE) as u64, (virt + n * SIZE_OF_PAGE) as u64, pages - n) {
                Ok(rest) => Ok(seq![chunk] + rest),
                Err(e) => Err(e),
            }
        }
    }
}

/// The number of whole pages that cover `length` bytes.
pub open spec fn pages_for(length: int) -> int {
    (length + SIZE_OF_PAGE - 1) / SIZE_OF_PAGE as int
}

proof fn lemma_vmi_bits(address: u64)
    ensures
        (address >> 39u64) & 0x1FFu64 == vmi_of(address).PML4,
        (address >> 30u64) & 0x1FFu64 == vmi_of(address).PDPT,
        (address >> 21u64) & 0x1FFu64 == vmi_of(address).PD,
        (address >> 12u64) & 0x1FFu64 == vmi_of(address).PT,
        vmi_of(address).PT < 512,
{
    assert((address >> 39u64) & 0x1FFu64 == (address / 0x80_0000_0000u64) % 512u64) by (bit_vector);
    assert((address >> 30u64) & 0x1FFu64 == (address / 0x4000_0000u64) % 512u64) by (bit_vector);
    assert((address >> 21u64) & 0x1FFu64 == (address / 0x20_0000u64) % 512u64) by (bit_vector);
    assert((address >> 12u64) & 0x1FFu64 == (address / 0x1000u64) % 512u64) by (bit_vector);
}

/// The result of `canonical_form` is canonical, an address whose bits 47 to
/// 63 are all equal is its own canonical form, and taking the canonical form twice changes nothing.
pub proof fn lemma_canonical_form(address: u64)
    ensures
        canonical(canonical_form(address)),
        (address >> 47u64) == 0 || (address >> 47u64) == 0x1FFFF ==> canonical_form(address) == address,
        canonical_form(canonical_form(address)) == canonical_form(address),
{
    assert(canonical(canonical_form(address))) by (bit_vector);
    assert((address >> 47u64) == 0 || (address >> 47u64) == 0x1FFFF ==> canonical_form(address) == address) by (bit_vector);
    assert(canonical_form(canonical_form(address)) == canonical_form(address)) by (bit_vector);
}

/// Keeps the physical memory manager, the bootstrap heap that holds the
/// paging structures, and the virtual addresses handed out so far.
pub struct VirtualMemoryManager {
    pub physical: PhysicalMemoryManager,
    pub bdh: BootstrapDumbHeap,
    pub virtualAddresses: Vec<u64>,
    pub nextVirtualAddressIndex: u8,
}

impl VirtualMemoryManager {
    /// The virtual addresses remembered so far, in the order they were given.
    pub open spec fn remembered(&self) -> Seq<u64> {
        self.virtualAddresses@.take(self.nextVirtualAddressIndex as int)
    }

    /// The remembered-address slots are all there and the count of used ones
    /// is within them.
    pub open spec fn wf(&self) -> bool {
        &&& self.virtualAddresses@.len() == VIRTUAL_ADDRESS_SLOTS
        &&& self.nextVirtualAddressIndex as int <= VIRTUAL_ADDRESS_SLOTS
    }

    /// A manager that has remembered no virtual address yet.
    pub fn new(physical: PhysicalMemoryManager, bdh: BootstrapDumbHeap) -> (m: Self)
        ensures
            m.wf(),
            m.physical == physical,
            m.bdh == bdh,
            m.remembered() == Seq::<u64>::empty(),
    {
        let mut addresses: Vec<u64> = Vec::new();
        let mut i: usize = 0;
        while i < VIRTUAL_ADDRESS_SLOTS
            invariant
                i <= VIRTUAL_ADDRESS_SLOTS,
                addresses@.len() == i,
            decreases VIRTUAL_ADDRESS_SLOTS - i,
        {
            addresses.push(0);
            i = i + 1;
        }
        VirtualMemoryManager { physical, bdh, virtualAddresses: addresses, nextVirtualAddressIndex: 0 }
    }

    /// Whether bits 48 and up of the address are all clear or all set.
    pub fn is_canonical_address(virtual_address: u64) -> (r: bool)
        ensures
            r == canonical(virtual_address),
    {
        let upper_bits = virtual_address >> 48;
        upper_bits == 0 || upper_bits == 0xFFFF
    }

    /// Copies bit 47 of the address into bits 48 to 63.
    pub fn canonicalize(address: u64) -> (r: u64)
        ensures
            r == canonical_form(address),
    {
        let sign_bit: u64 = 1u64 << 47u64;
        assert(sign_bit == 0x8000_0000_0000u64) by (bit_vector)
            requires
                sign_bit == 1u64 << 47u64,
        ;
        if address & sign_bit != 0 {
            let high: u64 = !0u64 << 48u64;
            assert(high == 0xFFFF_0000_0000_0000u64) by (bit_vector)
                requires
                    high == !0u64 << 48u64,
            ;
            address | high
        } else {
            let top: u64 = 1u64 << 48u64;
            assert(top == 0x1_0000_0000_0000u64) by (bit_vector)
                requires
                    top == 1u64 << 48u64,
            ;
            address & (top - 1)
        }
    }

    /// The paging indices of a virtual address, which must be canonical (a
    /// non-canonical one halts the kernel).
    pub fn getVmi(address: u64) -> (r: VirtualMemoryIndex)
        requires
            canonical(address),
        ensures
            r == vmi_of(address),
    {
        proof {
            lemma_vmi_bits(address);
        }
        VirtualMemoryIndex {
            PML4: (address >> 39) & 0x1FF,
            PDPT: (address >> 30) & 0x1FF,
            PD: (address >> 21) & 0x1FF,
            PT: (address >> 12) & 0x1FF,
        }
    }

    /// Checks one run of pages and cuts it to what the page table that holds
    /// `virtualAddress` has room for.
    fn mapInternal(physicalAddress: u64, virtualAddress: u64, numberOfPages: u64) -> (r: Result<MapChunk, VmError>)
        requires
            numberOfPages <= u64::MAX / SIZE_OF_PAGE,
        ensures
            physicalAddress % SIZE_OF_PAGE != 0 ==> r == Err::<MapChunk, VmError>(VmError::PhysicalMisaligned(physicalAddress)),
            physicalAddress % SIZE_OF_PAGE == 0 && virtualAddress % SIZE_OF_PAGE != 0
                ==> r == Err::<MapChunk, VmError>(VmError::VirtualMisaligned(virtualAddress)),
            physicalAddress % SIZE_OF_PAGE == 0 && virtualAddress % SIZE_OF_PAGE == 0 && !canonical(virtualAddress)
                ==> r == Err::<MapChunk, VmError>(VmError::NotCanonical(virtualAddress)),
            physicalAddress % SIZE_OF_PAGE == 0 && virtualAddress % SIZE_OF_PAGE == 0 && canonical(virtualAddress)
                ==> r == Ok::<MapChunk, VmError>(MapChunk {
                    physicalAddress,
                    virtualAddress,
                    numberOfPages: chunk_pages(virtualAddress, numberOfPages as int) as u64,
                    index: vmi_of(virtualAddress),
                }),
    {
        if physicalAddress % SIZE_OF_PAGE != 0 {
            return Err(VmError::PhysicalMisaligned(physicalAddress));
        }
        if virtualAddress % SIZE_OF_PAGE != 0 {
            return Err(VmError::VirtualMisaligned(virtualAddress));
        }
        if !Self::is_canonical_address(virtualAddress) {
            return Err(VmError::NotCanonical(virtualAddress));
        }
        let vmi = Self::getVmi(virtualAddress);
        proof {
            lemma_vmi_bits(virtualAddress);
        }
        let mut pages = numberOfPages;
        if vmi.PT + pages > PAGES_PER_TABLE {
            pages = PAGES_PER_TABLE - vmi.PT;
        }
        Ok(MapChunk { physicalAddress, virtualAddress, numberOfPages: pages, index: vmi })
    }

    /// Splits mapping `length` bytes (rounded up to whole pages) from
    /// `physicalAddress` to `virtualAddress` into runs that each stay within
    /// one page table, checking each run's addresses the way the page-table
    /// code requires: both page aligned, the virtual one canonical.
    pub fn map(physicalAddress: u64, virtualAddress: u64, length: u64) -> (r: Result<Vec<MapChunk>, VmError>)
        ensures
            match map_outcome(physicalAddress, virtualAddress, length) {
                Ok(chunks) => r matches Ok(v) && v@ == chunks,
                Err(e) => r == Err::<Vec<MapChunk>, VmError>(e),
            },
    {
        let adjusted = match align_up_u64(length, SIZE_OF_PAGE) {
            None => return Err(VmError::TooLong),
            Some(a) => a,
        };
        let mut pages: u64 = adjusted / SIZE_OF_PAGE;
        let mut phys = physicalAddress;
        let mut virt = virtualAddress;
        let mut chunks: Vec<MapChunk> = Vec::new();
        while pages != 0
            invariant
                pages <= u64::MAX / SIZE_OF_PAGE,
                map_outcome(physicalAddress, virtualAddress, length) == prepend(chunks@, map_plan(phys, virt, pages as int)),
            decreases pages,
        {
            let chunk = match Self::mapInternal(phys, virt, pages) {
                Ok(c) => c,
                Err(e) => return Err(e),
            };
            proof {
                lemma_vmi_bits(virt);
            }
            let mapped = chunk.numberOfPages;
            let ghost before = chunks@;
            chunks.push(chunk);
            if mapped == pages {
                proof {
                    lemma_prepend_push(before, chunk, Ok(Seq::empty()));
                    assert(seq![chunk] + Seq::<MapChunk>::empty() =~= seq![chunk]);
                }
                return Ok(chunks);
            }
            if phys > u64::MAX - mapped * SIZE_OF_PAGE || virt > u64::MAX - mapped * SIZE_OF_PAGE {
                return Err(VmError::TooLong);
            }
            pages = pages - mapped;
            phys = phys + mapped * SIZE_OF_PAGE;
            virt = virt + mapped * SIZE_OF_PAGE;
            proof {
                lemma_prepend_push(before, chunk, map_plan(phys, virt, pages as int));
            }
        }
        Ok(chunks)
    }

    /// Maps `length` bytes at `physicalAddress` to the same virtual address,
    /// which must be page aligned.
    pub fn identityMap(physicalAddress: u64, length: u64) -> (r: Result<Vec<MapChunk>, VmError>)
        ensures
            physicalAddress % SIZE_OF_PAGE != 0 ==> r == Err::<Vec<MapChunk>, VmError>(VmError::PhysicalMisaligned(physicalAddress)),
            physicalAddress % SIZE_OF_PAGE == 0 ==> match map_outcome(physicalAddress, physicalAddress, length) {
                Ok(chunks) => r matches Ok(v) && v@ == chunks,
                Err(e) => r == Err::<Vec<MapChunk>, VmError>(e),
            },
    {
        if physicalAddress % SIZE_OF_PAGE != 0 {
            return Err(VmError::PhysicalMisaligned(physicalAddress));
        }
        Self::map(physicalAddress, physicalAddress, length)
    }

    /// The virtual address remembered in slot `index`, which must be in use
    /// (an unused one halts the kernel).
    pub fn getVirtualAddress(&self, index: u8) -> (r: u64)
        requires
            self.wf(),
            index < self.nextVirtualAddressIndex,
        ensures
            r == self.remembered()[index as int],
    {
        self.virtualAddresses[index as usize]
    }

    /// Remembers `address` in the next slot and gives back that slot's index.
    pub fn setXxx(&mut self, address: u64) -> (r: u8)
        requires
            old(self).wf(),
            old(self).nextVirtualAddressIndex < VIRTUAL_ADDRESS_SLOTS,
        ensures
            final(self).wf(),
            r == old(self).nextVirtualAddressIndex,
            final(self).remembered() == old(self).remembered().push(address),
            final(self).physical == old(self).physical,
            final(self).bdh == old(self).bdh,
    {
        let result = self.nextVirtualAddressIndex;
        self.virtualAddresses.set(result as usize, address);
        self.nextVirtualAddressIndex = result + 1;
        proof {
            assert(self.remembered() =~= old(self).remembered().push(address));
        }
        result
    }
}

/// Rounds `value` up to a multiple of `alignment`; `None` when that does not
/// fit in 64 bits.
fn align_up_u64(value: u64, alignment: u64) -> (r: Option<u64>)
    requires
        alignment > 0,
    ensures
        match r {
            Some(v) => v == aligned_up(value as int, alignment as int),
            None => aligned_up(value as int, alignment as int) > u64::MAX,
        },
{
    let rem = value % alignment;
    if rem == 0 {
        Some(value)
    } else {
        let pad = alignment - rem;
        if value <= u64::MAX - pad {
            Some(value + pad)
        } else {
            None
        }
    }
}

/// `prefix` in front of the runs of a successful plan; a refusal unchanged.
pub open spec fn prepend(prefix: Seq<MapChunk>, r: Result<Seq<MapChunk>, VmError>) -> Result<Seq<MapChunk>, VmError> {
    match r {
        Ok(rest) => Ok(prefix + rest),
        Err(e) => Err(e),
    }
}

proof fn lemma_prepend_push(prefix: Seq<MapChunk>, c: MapChunk, r: Result<Seq<MapChunk>, VmError>)
    ensures
        prepend(prefix, prepend(seq![c], r)) == prepend(prefix.push(c), r),
{
    if let Ok(rest) = r {
        assert(prefix + (seq![c] + rest) =~= prefix.push(c) + rest);
    }
}

/// The runs that mapping `length` bytes from `phys` to `virt` takes, or why
/// it is refused.
pub open spec fn map_outcome(phys: u64, virt: u64, length: u64) -> Result<Seq<MapChunk>, VmError> {
    if aligned_up(length as int, SIZE_OF_PAGE as int) > u64::MAX {
        Err(VmError::TooLong)
    } else {
        map_plan(phys, virt, aligned_up(length as int, SIZE_OF_PAGE as int) / SIZE_OF_PAGE as int)
    }
}


/// The pages that the runs cover together.
pub open spec fn total_pages(chunks: Seq<MapChunk>) -> int
    decreases chunks.len(),
{
    if chunks.len() == 0 {
        0
    } else {
        chunks[0].numberOfPages + total_pages(chunks.drop_first())
    }
}

/// A successful plan covers the request exactly: its runs start at the
/// requested addresses, follow one another without gap in both address
/// spaces, keep the same distance between virtual and physical address, each
/// map at least one page inside a single page table, and add up to the
/// requested page count.
pub proof fn lemma_map_plan_covers(phys: u64, virt: u64, pages: int)
    ensures
        map_plan(phys, virt, pages) matches Ok(chunks) ==> {
            &&& pages > 0 ==> chunks.len() > 0 && chunks[0].physicalAddress == phys && chunks[0].virtualAddress == virt
            &&& total_pages(chunks) == if pages > 0 { pages } else { 0 }
            &&& forall|k: int| #![trigger chunks[k]] 0 <= k < chunks.len() ==> {
                &&& chunks[k].numberOfPages >= 1
                &&& chunks[k].index == vmi_of(chunks[k].virtualAddress)
                &&& chunks[k].index.PT + chunks[k].numberOfPages <= PAGES_PER_TABLE
                &&& chunks[k].virtualAddress - chunks[k].physicalAddress == virt - phys
            }
            &&& forall|k: int| #![trigger chunks[k + 1]] 0 <= k < chunks.len() - 1 ==> {
                &&& chunks[k + 1].virtualAddress == chunks[k].virtualAddress + chunks[k].numberOfPages * SIZE_OF_PAGE
                &&& chunks[k + 1].physicalAddress == chunks[k].physicalAddress + chunks[k].numberOfPages * SIZE_OF_PAGE
            }
        },
    decreases pages,
{
    if pages > 0 && phys % SIZE_OF_PAGE == 0 && virt % SIZE_OF_PAGE == 0 && canonical(virt) {
        let n = chunk_pages(virt, pages);
        assert(vmi_of(virt).PT < 512);
        let chunk = MapChunk { physicalAddress: phys, virtualAddress: virt, numberOfPages: n as u64, index: vmi_of(virt) };
        if n == pages {
            assert(total_pages(seq![chunk]) == n) by {
                assert(seq![chunk].drop_first() =~= Seq::<MapChunk>::empty());
                assert(total_pages(Seq::<MapChunk>::empty()) == 0);
            }
        } else if !(phys + n * SIZE_OF_PAGE > u64::MAX || virt + n * SIZE_OF_PAGE > u64::MAX) {
            let np = (phys + n * SIZE_OF_PAGE) as u64;
            let nv = (virt + n * SIZE_OF_PAGE) as u64;
            lemma_map_plan_covers(np, nv, pages - n);
            if let Ok(rest) = map_plan(np, nv, pages - n) {
                let chunks = seq![chunk] + rest;
                assert(chunks.drop_first() =~= rest);
                assert(chunks[0] == chunk);
                assert forall|k: int| #![trigger chunks[k]] 1 <= k < chunks.len() implies chunks[k] == rest[k - 1] by {}
                assert forall|k: int| #![trigger chunks[k + 1]] 0 <= k < chunks.len() - 1 implies {
                    &&& chunks[k + 1].virtualAddress == chunks[k].virtualAddress + chunks[k].numberOfPages * SIZE_OF_PAGE
                    &&& chunks[k + 1].physicalAddress == chunks[k].physicalAddress + chunks[k].numberOfPages * SIZE_OF_PAGE
                } by {
                    if k > 0 {
                        assert(chunks[k] == rest[k - 1]);
                        assert(chunks[k + 1] == rest[k]);
                    }
                }
            }
        }
    }
}


/// Remembering an address and then asking for the slot it got gives that
/// address back, and leaves every earlier slot as it was.
pub proof fn lemma_remember_then_recall(remembered: Seq<u64>, address: u64)
    ensures
        remembered.push(address)[remembered.len() as int] == address,
        forall|i: int| 0 <= i < remembered.len() ==> #[trigger] remembered.push(address)[i] == remembered[i],
{
}

} // verus!
