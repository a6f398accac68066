use vstd::prelude::*;

use crate::memory_helpers::{align_up_checked, aligned_up, lemma_aligned_up};

verus! {

/// Number of allocations a `BootstrapDumbHeap` can record.
pub const BOOTSTRAP_ENTRY_COUNT: usize = 10;

/// One allocation of a `BootstrapDumbHeap`. A length of zero marks an unused slot.
#[derive(Debug, Clone, Copy, PartialEq, Eq, Structural)]
pub struct BootstrapDumbHeapEntry {
    pub Address: usize,
    pub Length: usize,
}

impl Default for BootstrapDumbHeapEntry {
    fn default() -> (e: Self)
        ensures
            e.Address == 0,
            e.Length == 0,
    {
        BootstrapDumbHeapEntry { Address: 0, Length: 0 }
    }
}

/// Why a heap request was refused.
#[derive(Debug, Clone, Copy, PartialEq, Eq, Structural)]
pub enum HeapError {
    /// The request is larger than the whole heap.
    LargerThanHeap,
    /// A request for zero bytes.
    ZeroLength,
    /// Every allocation slot is taken.
    NoFreeEntry,
    /// The aligned request does not fit before the end of the heap.
    HeapFull,
}

/// A bump allocator over a fixed range that records at most ten allocations,
/// and translates between its virtual and physical addresses by a fixed
/// adjustment.
pub struct BootstrapDumbHeap {
    Entries: Vec<BootstrapDumbHeapEntry>,
    StartAddress: usize,
    Length: usize,
    VirtualIsGreaterThanPhysical: bool,
    Adjustment: usize,
}

/// What a `BootstrapDumbHeap` holds, as plain values.
pub struct BootstrapDumbHeapView {
    pub entries: Seq<BootstrapDumbHeapEntry>,
    pub start: usize,
    pub length: usize,
    pub virtual_is_greater: bool,
    pub adjustment: usize,
}

/// Index of the first unused slot from `i` on, if there is one.
pub open spec fn first_unused_from(entries: Seq<BootstrapDumbHeapEntry>, i: int) -> Option<int>
    decreases entries.len() - i,
{
    if i < 0 || i >= entries.len() {
        None
    } else if entries[i].Length == 0 {
        Some(i)
    } else {
        first_unused_from(entries, i + 1)
    }
}

/// The address an allocation in slot `slot` is placed after, before alignment:
/// the heap's start for the first slot, else the end of the previous one.
pub open spec fn bump_base(v: BootstrapDumbHeapView, slot: int) -> int {
    if slot == 0 {
        v.start as int
    } else {
        v.entries[slot - 1].Address + v.entries[slot - 1].Length
    }
}

/// The outcome of asking the heap `v` for `length` bytes aligned to
/// `alignment`: the slot and the address of the allocation, or the refusal.
pub open spec fn allocate_outcome(v: BootstrapDumbHeapView, length: int, alignment: int) -> Result<(int, int), HeapError> {
    if length > v.length {
        Err(HeapError::LargerThanHeap)
    } else if length == 0 {
        Err(HeapError::ZeroLength)
    } else {
        match first_unused_from(v.entries, 0) {
            None => Err(HeapError::NoFreeEntry),
            Some(slot) => {
                let address = aligned_up(bump_base(v, slot), alignment);
                if address + length > v.start + v.length {
                    Err(HeapError::HeapFull)
                } else {
                    Ok((slot, address))
                }
            },
        }
    }
}

/// The physical address that the heap `v` gives for the virtual `address`.
pub open spec fn virtual_to_physical(v: BootstrapDumbHeapView, address: int) -> int {
    if v.virtual_is_greater {
        address - v.adjustment
    } else {
        address + v.adjustment
    }
}

/// The virtual address that the heap `v` gives for the physical `address`.
pub open spec fn physical_to_virtual(v: BootstrapDumbHeapView, address: int) -> int {
    if v.virtual_is_greater {
        address + v.adjustment
    } else {
        address - v.adjustment
    }
}

impl View for BootstrapDumbHeap {
    type V = BootstrapDumbHeapView;

    closed spec fn view(&self) -> BootstrapDumbHeapView {
        BootstrapDumbHeapView {
            entries: self.Entries@,
            start: self.StartAddress,
            length: self.Length,
            virtual_is_greater: self.VirtualIsGreaterThanPhysical,
            adjustment: self.Adjustment,
        }
    }
}

/// The heap's slots are consistent: used slots come first, lie inside the
/// heap, and each starts at or after the end of the one before it.
pub open spec fn heap_consistent(v: BootstrapDumbHeapView) -> bool {
    &&& v.entries.len() == BOOTSTRAP_ENTRY_COUNT
    &&& forall|i: int, j: int| #![trigger v.entries[i], v.entries[j]]
        0 <= i < j < v.entries.len() && v.entries[j].Length != 0 ==> v.entries[i].Length != 0
    &&& forall|i: int| #![trigger v.entries[i]]
        0 <= i < v.entries.len() && v.entries[i].Length != 0 ==> {
            &&& v.start <= v.entries[i].Address
            &&& v.entries[i].Address + v.entries[i].Length <= v.start + v.length
        }
    &&& forall|i: int, j: int| #![trigger v.entries[i], v.entries[j]]
        0 <= i < j < v.entries.len() && v.entries[j].Length != 0
            ==> v.entries[i].Address + v.entries[i].Length <= v.entries[j].Address
}

impl BootstrapDumbHeap {
    /// The heap's slots are consistent (see `heap_consistent`).
    pub open spec fn wf(&self) -> bool {
        heap_consistent(self@)
    }

    /// An empty heap over `address..address + length`.
    pub fn new(address: usize, length: usize, virtualIsGreaterThanPhysical: bool, adjustment: usize) -> (h: BootstrapDumbHeap)
        ensures
            h.wf(),
            h@.entries == Seq::new(BOOTSTRAP_ENTRY_COUNT as nat, |i: int| BootstrapDumbHeapEntry { Address: 0, Length: 0 }),
            h@.start == address,
            h@.length == length,
            h@.virtual_is_greater == virtualIsGreaterThanPhysical,
            h@.adjustment == adjustment,
    {
        let mut entries: Vec<BootstrapDumbHeapEntry> = Vec::new();
        let mut i: usize = 0;
        while i < BOOTSTRAP_ENTRY_COUNT
            invariant
                i <= BOOTSTRAP_ENTRY_COUNT,
                entries@ == Seq::new(i as nat, |k: int| BootstrapDumbHeapEntry { Address: 0, Length: 0 }),
            decreases BOOTSTRAP_ENTRY_COUNT - i,
        {
            entries.push(BootstrapDumbHeapEntry::default());
            i = i + 1;
        }
        BootstrapDumbHeap {
            StartAddress: address,
            Length: length,
            Entries: entries,
            VirtualIsGreaterThanPhysical: virtualIsGreaterThanPhysical,
            Adjustment: adjustment,
        }
    }

    /// The addresses of the allocations, in slot order, up to the first unused slot.
    pub fn debugDump(&self) -> (addresses: Vec<usize>)
        requires
            self.wf(),
        ensures
            addresses@.len() == match first_unused_from(self@.entries, 0) {
                Some(s) => s,
                None => BOOTSTRAP_ENTRY_COUNT as int,
            },
            forall|i: int| 0 <= i < addresses@.len() ==> #[trigger] addresses@[i] == self@.entries[i].Address,
    {
        proof {
            lemma_first_unused(self@.entries, 0);
        }
        let mut addresses: Vec<usize> = Vec::new();
        let mut x: usize = 0;
        while x < BOOTSTRAP_ENTRY_COUNT && self.Entries[x].Length != 0
            invariant
                heap_consistent(self@),
                x <= BOOTSTRAP_ENTRY_COUNT,
                addresses@.len() == x,
                forall|k: int| 0 <= k < x ==> self@.entries[k].Length != 0,
                first_unused_from(self@.entries, 0) == first_unused_from(self@.entries, x as int),
                forall|i: int| 0 <= i < x ==> #[trigger] addresses@[i] == self@.entries[i].Address,
            decreases BOOTSTRAP_ENTRY_COUNT - x,
        {
            addresses.push(self.Entries[x].Address);
            x = x + 1;
        }
        addresses
    }

    fn find_unused(&self) -> (r: Option<usize>)
        requires
            heap_consistent(self@),
        ensures
            match first_unused_from(self@.entries, 0) {
                None => r is None,
                Some(s) => r == Some(s as usize),
            },
    {
        proof {
            lemma_first_unused(self@.entries, 0);
        }
        let mut index: usize = 0;
        while index < BOOTSTRAP_ENTRY_COUNT
            invariant
                heap_consistent(self@),
                index <= BOOTSTRAP_ENTRY_COUNT,
                first_unused_from(self@.entries, 0) == first_unused_from(self@.entries, index as int),
            decreases BOOTSTRAP_ENTRY_COUNT - index,
        {
            if self.Entries[index].Length == 0 {
                return Some(index);
            }
            index = index + 1;
        }
        None
    }

    /// Where a request for `length` bytes aligned to `alignment` would go:
    /// the slot and the address (see `allocate_outcome`), or the refusal.
    fn place(&self, length: usize, alignment: usize) -> (r: Result<(usize, usize), HeapError>)
        requires
            self.wf(),
            alignment > 0,
            self@.start + self@.length <= usize::MAX,
        ensures
            match allocate_outcome(self@, length as int, alignment as int) {
                Ok((slot, address)) => r == Ok::<(usize, usize), HeapError>((slot as usize, address as usize)),
                Err(e) => r == Err::<(usize, usize), HeapError>(e),
            },
            r matches Ok((slot, address)) ==> slot < BOOTSTRAP_ENTRY_COUNT && address + length <= self@.start + self@.length,
    {
        proof {
            lemma_first_unused(self@.entries, 0);
        }
        if length > self.Length {
            return Err(HeapError::LargerThanHeap);
        }
        if length == 0 {
            return Err(HeapError::ZeroLength);
        }
        let first_free = match self.find_unused() {
            None => return Err(HeapError::NoFreeEntry),
            Some(f) => f,
        };
        let start_address = if first_free == 0 {
            self.StartAddress
        } else {
            self.Entries[first_free - 1].Address + self.Entries[first_free - 1].Length
        };
        let heap_limit = self.StartAddress + self.Length;
        let aligned = match align_up_checked(start_address, alignment) {
            None => return Err(HeapError::HeapFull),
            Some(a) => a,
        };
        if aligned > heap_limit || length > heap_limit - aligned {
            return Err(HeapError::HeapFull);
        }
        Ok((first_free, aligned))
    }

    /// Whether `allocate(length, alignment)` would be granted: the address it
    /// would give back, or the refusal (see `allocate_outcome`).
    pub fn checkAllocate(&self, length: usize, alignment: usize) -> (r: Result<usize, HeapError>)
        requires
            self.wf(),
            alignment > 0,
            self@.start + self@.length <= usize::MAX,
        ensures
            match allocate_outcome(self@, length as int, alignment as int) {
                Ok((slot, address)) => r == Ok::<usize, HeapError>(address as usize),
                Err(e) => r == Err::<usize, HeapError>(e),
            },
    {
        match self.place(length, alignment) {
            Ok((_, address)) => Ok(address),
            Err(e) => Err(e),
        }
    }

    /// Allocates `length` bytes aligned to `alignment`, right after the last
    /// allocation (or at the heap's start for the first one), in the first
    /// unused slot, and gives back the allocation's address. The request must
    /// be one that `checkAllocate` grants: one for zero bytes, for more than
    /// the heap, with no slot left, or that does not fit after alignment
    /// halts the kernel.
    pub fn allocate(&mut self, length: usize, alignment: usize) -> (r: usize)
        requires
            old(self).wf(),
            alignment > 0,
            old(self)@.start + old(self)@.length <= usize::MAX,
            allocate_outcome(old(self)@, length as int, alignment as int) is Ok,
        ensures
            final(self).wf(),
            allocate_outcome(old(self)@, length as int, alignment as int) matches Ok((slot, address))
                && r == address
                && final(self)@.entries == old(self)@.entries.update(slot, BootstrapDumbHeapEntry { Address: r, Length: length }),
            (r as int) % (alignment as int) == 0,
            old(self)@.start <= r,
            r + length <= old(self)@.start + old(self)@.length,
            forall|i: int| #![trigger old(self)@.entries[i]] 0 <= i < old(self)@.entries.len() && old(self)@.entries[i].Length != 0
                ==> old(self)@.entries[i].Address + old(self)@.entries[i].Length <= r,
            final(self)@.start == old(self)@.start,
            final(self)@.length == old(self)@.length,
            final(self)@.virtual_is_greater == old(self)@.virtual_is_greater,
            final(self)@.adjustment == old(self)@.adjustment,
    {
        proof {
            lemma_first_unused(self@.entries, 0);
            lemma_allocate_facts(self@, length as int, alignment as int);
        }
        match self.place(length, alignment) {
            Ok((slot, address)) => {
                self.Entries.set(slot, BootstrapDumbHeapEntry { Address: address, Length: length });
                address
            },
            Err(_) => 0,
        }
    }

    /// Whether `vToP(address)` has an answer that fits in a `usize`: that
    /// answer, or `None` where the translation would leave the address space.
    pub fn checkVToP(&self, address: usize) -> (r: Option<usize>)
        ensures
            0 <= virtual_to_physical(self@, address as int) <= usize::MAX
                ==> r == Some(virtual_to_physical(self@, address as int) as usize),
            !(0 <= virtual_to_physical(self@, address as int) <= usize::MAX) ==> r is None,
    {
        if self.VirtualIsGreaterThanPhysical {
            address.checked_sub(self.Adjustment)
        } else {
            address.checked_add(self.Adjustment)
        }
    }

    /// Whether `pToV(address)` has an answer that fits in a `usize`: that
    /// answer, or `None` where the translation would leave the address space.
    pub fn checkPToV(&self, address: usize) -> (r: Option<usize>)
        ensures
            0 <= physical_to_virtual(self@, address as int) <= usize::MAX
                ==> r == Some(physical_to_virtual(self@, address as int) as usize),
            !(0 <= physical_to_virtual(self@, address as int) <= usize::MAX) ==> r is None,
    {
        if self.VirtualIsGreaterThanPhysical {
            address.checked_add(self.Adjustment)
        } else {
            address.checked_sub(self.Adjustment)
        }
    }

    /// The physical address of the heap's virtual `address`.
    pub fn vToP(&self, address: usize) -> (r: usize)
        requires
            0 <= virtual_to_physical(self@, address as int) <= usize::MAX,
        ensures
            r == virtual_to_physical(self@, address as int),
    {
        if self.VirtualIsGreaterThanPhysical {
            address - self.Adjustment
        } else {
            address + self.Adjustment
        }
    }

    /// The virtual address of the heap's physical `address`.
    pub fn pToV(&self, address: usize) -> (r: usize)
        requires
            0 <= physical_to_virtual(self@, address as int) <= usize::MAX,
        ensures
            r == physical_to_virtual(self@, address as int),
    {
        if self.VirtualIsGreaterThanPhysical {
            address + self.Adjustment
        } else {
            address - self.Adjustment
        }
    }
}

proof fn lemma_first_unused(entries: Seq<BootstrapDumbHeapEntry>, i: int)
    requires
        0 <= i,
    ensures
        first_unused_from(entries, i) matches Some(s) ==> {
            &&& i <= s < entries.len()
            &&& entries[s].Length == 0
            &&& forall|k: int| i <= k < s ==> #[trigger] entries[k].Length != 0
        },
        first_unused_from(entries, i) is None ==> forall|k: int| i <= k < entries.len() ==> #[trigger] entries[k].Length != 0,
    decreases entries.len() - i,
{
    if i < entries.len() && entries[i].Length != 0 {
        lemma_first_unused(entries, i + 1);
    }
}

/// What a granted request guarantees: the allocation is aligned, lies in
/// the heap after every earlier allocation, and recording it keeps the heap
/// consistent.
proof fn lemma_allocate_facts(v: BootstrapDumbHeapView, length: int, alignment: int)
    requires
        heap_consistent(v),
        0 <= length,
        alignment > 0,
        v.start + v.length <= usize::MAX,
    ensures
        allocate_outcome(v, length, alignment) matches Ok((slot, address)) ==> {
            &&& 0 <= slot < BOOTSTRAP_ENTRY_COUNT
            &&& v.entries[slot].Length == 0
            &&& address % alignment == 0
            &&& v.start <= address
            &&& 0 < length
            &&& address + length <= v.start + v.length
            &&& forall|i: int| #![trigger v.entries[i]] 0 <= i < v.entries.len() && v.entries[i].Length != 0
                ==> v.entries[i].Address + v.entries[i].Length <= address
            &&& heap_consistent(BootstrapDumbHeapView {
                entries: v.entries.update(slot, BootstrapDumbHeapEntry { Address: address as usize, Length: length as usize }),
                ..v
            })
        },
{
    lemma_first_unused(v.entries, 0);
    if let Ok((slot, address)) = allocate_outcome(v, length, alignment) {
        lemma_aligned_up(bump_base(v, slot), alignment);
        let nv = BootstrapDumbHeapView {
            entries: v.entries.update(slot, BootstrapDumbHeapEntry { Address: address as usize, Length: length as usize }),
            ..v
        };
        assert forall|i: int| #![trigger v.entries[i]] 0 <= i < v.entries.len() && v.entries[i].Length != 0
            implies v.entries[i].Address + v.entries[i].Length <= address by {
            if slot > 0 && i < slot - 1 {
                assert(v.entries[slot - 1].Length != 0);
            }
            if i > slot {
                assert(v.entries[slot].Length != 0);
            }
        }
        assert(nv.entries[slot].Length != 0);
        assert forall|i: int, j: int| #![trigger nv.entries[i], nv.entries[j]]
            0 <= i < j < nv.entries.len() && nv.entries[j].Length != 0 implies nv.entries[i].Length != 0 by {
            if j != slot && i != slot {
                assert(v.entries[j].Length != 0);
            } else if i == slot {
                assert(v.entries[j].Length != 0);
                assert(v.entries[slot].Length != 0);
            }
        }
        assert forall|i: int| #![trigger nv.entries[i]]
            0 <= i < nv.entries.len() && nv.entries[i].Length != 0 implies {
                &&& nv.start <= nv.entries[i].Address
                &&& nv.entries[i].Address + nv.entries[i].Length <= nv.start + nv.length
            } by {
            if i != slot {
                assert(v.entries[i].Length != 0);
            }
        }
        assert forall|i: int, j: int| #![trigger nv.entries[i], nv.entries[j]]
            0 <= i < j < nv.entries.len() && nv.entries[j].Length != 0
                implies nv.entries[i].Address + nv.entries[i].Length <= nv.entries[j].Address by {
            if j == slot {
                assert(v.entries[i].Length != 0);
            } else if i == slot {
                assert(v.entries[j].Length != 0);
                assert(v.entries[slot].Length != 0);
            } else {
                assert(v.entries[j].Length != 0);
            }
        }
        assert(heap_consistent(nv));
    }
}

/// Two requests granted one after the other do not overlap: the second
/// lands in the next slot, at or after the end of the first.
pub proof fn lemma_allocations_follow(
    v: BootstrapDumbHeapView,
    length1: int,
    alignment1: int,
    length2: int,
    alignment2: int,
)
    requires
        heap_consistent(v),
        v.start + v.length <= usize::MAX,
        0 <= length1,
        0 <= length2,
        alignment1 > 0,
        alignment2 > 0,
    ensures
        allocate_outcome(v, length1, alignment1) matches Ok((slot1, address1)) ==> {
            let v2 = BootstrapDumbHeapView {
                entries: v.entries.update(slot1, BootstrapDumbHeapEntry { Address: address1 as usize, Length: length1 as usize }),
                ..v
            };
            allocate_outcome(v2, length2, alignment2) matches Ok((slot2, address2)) ==> {
                &&& slot2 == slot1 + 1
                &&& address1 + length1 <= address2
            }
        },
{
    lemma_allocate_facts(v, length1, alignment1);
    if let Ok((slot1, address1)) = allocate_outcome(v, length1, alignment1) {
        let v2 = BootstrapDumbHeapView {
            entries: v.entries.update(slot1, BootstrapDumbHeapEntry { Address: address1 as usize, Length: length1 as usize }),
            ..v
        };
        lemma_allocate_facts(v2, length2, alignment2);
        lemma_first_unused(v.entries, 0);
        lemma_first_unused(v2.entries, 0);
        if let Ok((slot2, address2)) = allocate_outcome(v2, length2, alignment2) {
            assert(v2.entries[slot1].Length != 0);
            if slot2 < slot1 {
                assert(v2.entries[slot2] == v.entries[slot2]);
            }
            assert(slot2 == slot1 + 1) by {
                if slot2 > slot1 + 1 {
                    assert(v2.entries[slot1 + 1] == v.entries[slot1 + 1]);
                }
            }
        }
    }
}

/// Translating a virtual address to a physical one and back gives the
/// address one started with, and the other way round.
pub proof fn lemma_translation_round_trip(v: BootstrapDumbHeapView, address: int)
    ensures
        physical_to_virtual(v, virtual_to_physical(v, address)) == address,
        virtual_to_physical(v, physical_to_virtual(v, address)) == address,
{
}

} // verus!

verus! {

use crate::memory_map::{entry_type_of, MemoryMap, MemoryMapEntry, MemoryMapEntryType};

/// Size of the header that precedes each block of a `DumbHeap`.
pub const HEAP_ENTRY_SIZE: usize = 32;

/// Smallest usable region that a `DumbHeap` will take over.
pub const MIN_HEAP_REGION: usize = 1024 * 1024;

/// One block of a `DumbHeap`: whether it is free, where its space starts
/// (right after its header) and how many bytes it covers.
#[derive(Debug, Clone, Copy, PartialEq, Eq, Structural)]
pub struct HeapEntry {
    pub Free: bool,
    pub Address: usize,
    pub Size: usize,
}

/// Why a `DumbHeap` request was refused.
#[derive(Debug, Clone, Copy, PartialEq, Eq, Structural)]
pub enum DumbHeapError {
    /// No usable region of the memory map is large enough.
    NoUsableMemory,
    /// The first block is already in use.
    CannotGrow,
    /// The request is larger than the first block.
    TooMuch,
    /// The first block already has a successor.
    NextPopulated,
    /// Splitting would leave no room for the next block's header.
    NoRoomForNext,
}

/// A heap kept as a list of blocks, each behind a header, over the first
/// usable region of at least 1 MiB.
pub struct DumbHeap {
    Entries: Vec<HeapEntry>,
}

/// The first counted entry from `i` on that is usable memory of at least 1 MiB.
pub open spec fn heap_region_from(entries: Seq<MemoryMapEntry>, count: int, i: int) -> Option<int>
    decreases count - i,
{
    if i < 0 || i >= count {
        None
    } else if entry_type_of(entries[i].Type) == MemoryMapEntryType::AddressRangeMemory
        && entries[i].Length as usize >= MIN_HEAP_REGION {
        Some(i)
    } else {
        heap_region_from(entries, count, i + 1)
    }
}

/// The blocks after splitting the first block of `blocks` for `amount`
/// bytes, or why that is refused.
pub open spec fn split_outcome(blocks: Seq<HeapEntry>, amount: int) -> Result<Seq<HeapEntry>, DumbHeapError> {
    let first = blocks[0];
    if !first.Free {
        Err(DumbHeapError::CannotGrow)
    } else if amount > first.Size {
        Err(DumbHeapError::TooMuch)
    } else if blocks.len() > 1 {
        Err(DumbHeapError::NextPopulated)
    } else if amount + HEAP_ENTRY_SIZE > first.Size {
        Err(DumbHeapError::NoRoomForNext)
    } else {
        Ok(seq![
            HeapEntry { Free: false, Address: first.Address, Size: amount as usize },
            HeapEntry {
                Free: true,
                Address: (first.Address + amount + HEAP_ENTRY_SIZE) as usize,
                Size: (first.Size - amount - HEAP_ENTRY_SIZE) as usize,
            },
        ])
    }
}


/// The rows that describe a heap's blocks: header address, whether the block
/// is free, where its space starts, its size, and the next block's header
/// address (zero for the last block).
pub open spec fn heap_rows(blocks: Seq<HeapEntry>) -> Seq<(usize, bool, usize, usize, usize)> {
    Seq::new(blocks.len(), |i: int| (
        (blocks[i].Address - HEAP_ENTRY_SIZE) as usize,
        blocks[i].Free,
        blocks[i].Address,
        blocks[i].Size,
        if i + 1 < blocks.len() { (blocks[i + 1].Address - HEAP_ENTRY_SIZE) as usize } else { 0usize },
    ))
}

impl DumbHeap {
    /// The heap's blocks in list order.
    pub closed spec fn blocks(&self) -> Seq<HeapEntry> {
        self.Entries@
    }

    /// There is a first block, and every block's header and space lie inside
    /// the address space.
    pub open spec fn wf(&self) -> bool {
        &&& self.blocks().len() >= 1
        &&& forall|i: int| 0 <= i < self.blocks().len() ==> {
            &&& HEAP_ENTRY_SIZE <= #[trigger] self.blocks()[i].Address
            &&& self.blocks()[i].Address + self.blocks()[i].Size <= usize::MAX
        }
    }

    /// Takes over the first counted usable region of at least 1 MiB: a single
    /// free block whose header sits at the region's base.
    pub fn new(memoryMap: &MemoryMap) -> (r: Result<DumbHeap, DumbHeapError>)
        requires
            memoryMap.wf(),
            heap_region_from(memoryMap.Entries@, memoryMap.Count as int, 0) matches Some(i)
                ==> memoryMap.Entries@[i].BaseAddr as usize + memoryMap.Entries@[i].Length as usize <= usize::MAX,
        ensures
            match heap_region_from(memoryMap.Entries@, memoryMap.Count as int, 0) {
                None => r == Err::<DumbHeap, DumbHeapError>(DumbHeapError::NoUsableMemory),
                Some(i) => r matches Ok(h) && h.wf() && h.blocks() == seq![HeapEntry {
                    Free: true,
                    Address: (memoryMap.Entries@[i].BaseAddr as usize + HEAP_ENTRY_SIZE) as usize,
                    Size: (memoryMap.Entries@[i].Length as usize - HEAP_ENTRY_SIZE) as usize,
                }],
            },
    {
        proof {
            lemma_heap_region_bounds(memoryMap.Entries@, memoryMap.Count as int, 0);
        }
        let count = memoryMap.Count as usize;
        let mut index: usize = 0;
        while index < count
            invariant
                memoryMap.wf(),
                count == memoryMap.Count,
                index <= count,
                heap_region_from(memoryMap.Entries@, count as int, 0) == heap_region_from(memoryMap.Entries@, count as int, index as int),
                heap_region_from(memoryMap.Entries@, memoryMap.Count as int, 0) matches Some(i)
                    ==> memoryMap.Entries@[i].BaseAddr as usize + memoryMap.Entries@[i].Length as usize <= usize::MAX,
            decreases count - index,
        {
            let e = memoryMap.Entries[index];
            if e.GetType() == MemoryMapEntryType::AddressRangeMemory {
                let address: usize = (#[verifier::truncate] (e.BaseAddr as usize));
                let size: usize = (#[verifier::truncate] (e.Length as usize));
                if size >= MIN_HEAP_REGION {
                    let first = HeapEntry { Free: true, Address: address + HEAP_ENTRY_SIZE, Size: size - HEAP_ENTRY_SIZE };
                    let mut entries: Vec<HeapEntry> = Vec::new();
                    entries.push(first);
                    return Ok(DumbHeap { Entries: entries });
                }
            }
            index = index + 1;
        }
        Err(DumbHeapError::NoUsableMemory)
    }

    /// Splits the first block: its first `ammount` bytes become a used block,
    /// and the rest, after a new header, a free block that follows it. Gives
    /// back where the used block's space starts.
    pub fn DoSomething(&mut self, ammount: usize) -> (r: Result<usize, DumbHeapError>)
        requires
            old(self).wf(),
        ensures
            final(self).wf(),
            match split_outcome(old(self).blocks(), ammount as int) {
                Ok(blocks) => r == Ok::<usize, DumbHeapError>(old(self).blocks()[0].Address) && final(self).blocks() == blocks,
                Err(e) => r == Err::<usize, DumbHeapError>(e) && final(self).blocks() == old(self).blocks(),
            },
    {
        let first = self.Entries[0];
        if !first.Free {
            return Err(DumbHeapError::CannotGrow);
        }
        if ammount > first.Size {
            return Err(DumbHeapError::TooMuch);
        }
        if self.Entries.len() > 1 {
            return Err(DumbHeapError::NextPopulated);
        }
        let total_needed = ammount + HEAP_ENTRY_SIZE;
        if total_needed > first.Size {
            return Err(DumbHeapError::NoRoomForNext);
        }
        let next = HeapEntry {
            Free: true,
            Address: first.Address + ammount + HEAP_ENTRY_SIZE,
            Size: first.Size - total_needed,
        };
        let mut entries: Vec<HeapEntry> = Vec::new();
        entries.push(HeapEntry { Free: false, Address: first.Address, Size: ammount });
        entries.push(next);
        self.Entries = entries;
        proof {
            assert(self.blocks() =~= split_outcome(old(self).blocks(), ammount as int)->Ok_0);
        }
        Ok(first.Address)
    }

    /// One row per block, in list order (see `heap_rows`).
    pub fn DumpHeap(&self) -> (rows: Vec<(usize, bool, usize, usize, usize)>)
        requires
            self.wf(),
        ensures
            rows@ == heap_rows(self.blocks()),
    {
        let n = self.Entries.len();
        let mut rows: Vec<(usize, bool, usize, usize, usize)> = Vec::new();
        let mut i: usize = 0;
        while i < n
            invariant
                self.wf(),
                n == self.blocks().len(),
                i <= n,
                rows@ == heap_rows(self.blocks()).take(i as int),
            decreases n - i,
        {
            let e = self.Entries[i];
            let next = if i + 1 < n { self.Entries[i + 1].Address - HEAP_ENTRY_SIZE } else { 0 };
            rows.push((e.Address - HEAP_ENTRY_SIZE, e.Free, e.Address, e.Size, next));
            proof {
                assert(heap_rows(self.blocks()).take(i as int + 1) =~= heap_rows(self.blocks()).take(i as int).push(heap_rows(self.blocks())[i as int]));
            }
            i = i + 1;
        }
        proof {
            assert(heap_rows(self.blocks()).take(n as int) =~= heap_rows(self.blocks()));
        }
        rows
    }
}

proof fn lemma_heap_region_bounds(entries: Seq<MemoryMapEntry>, count: int, i: int)
    requires
        0 <= i,
    ensures
        heap_region_from(entries, count, i) matches Some(k) ==> i <= k < count,
    decreases count - i,
{
    if i < count {
        lemma_heap_region_bounds(entries, count, i + 1);
    }
}

/// Splitting the first block loses no bytes: the used part, the new
/// header and the free rest together cover the old block exactly, the free
/// rest starting right after the new header.
pub proof fn lemma_split_conserves(blocks: Seq<HeapEntry>, amount: int)
    requires
        blocks.len() >= 1,
        0 <= amount,
        blocks[0].Address + blocks[0].Size <= usize::MAX,
    ensures
        split_outcome(blocks, amount) matches Ok(nb) ==> {
            &&& nb.len() == 2
            &&& nb[0].Address == blocks[0].Address
            &&& nb[0].Size + HEAP_ENTRY_SIZE + nb[1].Size == blocks[0].Size
            &&& nb[1].Address == nb[0].Address + nb[0].Size + HEAP_ENTRY_SIZE
            &&& !nb[0].Free && nb[1].Free
        },
{
}


/// The block heap takes the first counted region that is usable memory
/// (type 1) of at least 1 MiB: the region chosen is such a region and no
/// counted region before it is one; when none is chosen, no counted region
/// is one.
pub proof fn lemma_heap_region_is_first_usable(entries: Seq<MemoryMapEntry>, count: int)
    requires
        count <= entries.len(),
    ensures
        heap_region_from(entries, count, 0) matches Some(i) ==> {
            &&& 0 <= i < count
            &&& entries[i].Type == 1 && entries[i].Length as usize >= 0x10_0000
            &&& forall|j: int| 0 <= j < i ==> !(#[trigger] entries[j].Type == 1 && entries[j].Length as usize >= 0x10_0000)
        },
        heap_region_from(entries, count, 0) is None
            ==> forall|j: int| 0 <= j < count ==> !(#[trigger] entries[j].Type == 1 && entries[j].Length as usize >= 0x10_0000),
{
    lemma_heap_region_first_from(entries, count, 0);
}

proof fn lemma_heap_region_first_from(entries: Seq<MemoryMapEntry>, count: int, i: int)
    requires
        0 <= i,
        count <= entries.len(),
    ensures
        heap_region_from(entries, count, i) matches Some(k) ==> {
            &&& i <= k < count
            &&& entries[k].Type == 1 && entries[k].Length as usize >= 0x10_0000
            &&& forall|j: int| i <= j < k ==> !(#[trigger] entries[j].Type == 1 && entries[j].Length as usize >= 0x10_0000)
        },
        heap_region_from(entries, count, i) is None
            ==> forall|j: int| i <= j < count ==> !(#[trigger] entries[j].Type == 1 && entries[j].Length as usize >= 0x10_0000),
    decreases count - i,
{
    if i < count {
        lemma_heap_region_first_from(entries, count, i + 1);
    }
}

} // verus!
