use vstd::prelude::*;

use crate::memory_map::{entry_type_of, MemoryMap, MemoryMapEntry, MemoryMapEntryType, MEMORY_MAP_CAPACITY};

verus! {

/// Number of reservations the manager can record.
pub const BLOB_COUNT: usize = 0xF;

/// How a reservation request treats the memory map.
#[derive(Debug, Clone, Copy, PartialEq, Eq, Structural)]
pub enum WhatDo {
    /// The range must lie in a usable region of the memory map.
    Normal,
    /// The range is recorded without looking at the memory map.
    YoLo,
    /// The range may also lie in a reserved region of the memory map.
    UseReserved,
}

/// A reserved range of physical memory. A length of zero marks an unused slot.
#[derive(Debug, Clone, Copy, PartialEq, Eq, Structural)]
pub struct MemoryBlob {
    pub Address: usize,
    pub Length: usize,
}

impl Default for MemoryBlob {
    fn default() -> (b: Self)
        ensures
            b.Address == 0,
            b.Length == 0,
    {
        MemoryBlob { Address: 0, Length: 0 }
    }
}

/// Why a reservation was refused.
#[derive(Debug, Clone, Copy, PartialEq, Eq, Structural)]
pub enum ReserveError {
    /// No counted region of the memory map holds the whole range.
    NotInMemoryRange,
    /// The first region that holds the range is of a kind that cannot be used.
    UnusableRegion(MemoryMapEntryType),
    /// The range overlaps the reservation in the given slot.
    Overlap(usize),
    /// Every slot already holds a reservation.
    NoFreeSlot,
}

/// Tracks which ranges of physical memory are taken.
pub struct PhysicalMemoryManager {
    pub MemoryMap: MemoryMap,
    pub Blobs: Vec<MemoryBlob>,
}

/// The range `loc..loc + amt` and the blob `b` share at least one address
/// (with the half-open comparison that the manager uses).
pub open spec fn overlaps(b: MemoryBlob, loc: int, amt: int) -> bool {
    loc < b.Address + b.Length && b.Address < loc + amt
}

/// Walks the slots from `i` the way a reservation does: it stops at the first
/// unused slot (`Ok` of that slot), or at the first used slot that overlaps
/// the request; past the last slot no slot is free.
pub open spec fn scan_from(blobs: Seq<MemoryBlob>, i: int, loc: int, amt: int) -> Result<int, ReserveError>
    decreases blobs.len() - i,
{
    if i < 0 || i >= blobs.len() {
        Err(ReserveError::NoFreeSlot)
    } else if blobs[i].Length == 0 {
        Ok(i)
    } else if overlaps(blobs[i], loc, amt) {
        Err(ReserveError::Overlap(i as usize))
    } else {
        scan_from(blobs, i + 1, loc, amt)
    }
}

/// The slots after recording `loc..loc + amt`, or why it cannot be recorded.
pub open spec fn record_blob(blobs: Seq<MemoryBlob>, loc: int, amt: int) -> Result<Seq<MemoryBlob>, ReserveError> {
    match scan_from(blobs, 0, loc, amt) {
        Ok(slot) => Ok(blobs.update(slot, MemoryBlob { Address: loc as usize, Length: amt as usize })),
        Err(e) => Err(e),
    }
}

/// Every counted, addressable region that starts at or below `limit` ends
/// within the address space (what describing the whole map computes with
/// `limit` the top of the address space).
pub open spec fn region_ends_fit(entries: Seq<MemoryMapEntry>, count: int, limit: int) -> bool {
    forall|i: int| 0 <= i < count && entry_addressable(#[trigger] entries[i]) && entries[i].BaseAddr <= limit
        ==> entries[i].BaseAddr + entries[i].Length <= usize::MAX
}

/// The entry's base and length both fit in a `usize`.
pub open spec fn entry_addressable(e: MemoryMapEntry) -> bool {
    e.BaseAddr <= usize::MAX && e.Length <= usize::MAX
}

/// The entry holds the whole range `loc..loc + amt`.
pub open spec fn entry_holds(e: MemoryMapEntry, loc: int, amt: int) -> bool {
    &&& entry_addressable(e)
    &&& e.BaseAddr <= loc
    &&& loc + amt <= e.BaseAddr + e.Length
}

/// The first counted entry from `i` on that holds the range.
pub open spec fn region_from(entries: Seq<MemoryMapEntry>, count: int, i: int, loc: int, amt: int) -> Option<int>
    decreases count - i,
{
    if i >= count {
        None
    } else if entry_holds(entries[i], loc, amt) {
        Some(i)
    } else {
        region_from(entries, count, i + 1, loc, amt)
    }
}

/// The regions that the lookup for `loc..loc + amt` reads, from `i` on up to
/// and including the first that holds the range, end within the address
/// space where they are addressable and start at or below `loc` (the sums
/// the lookup computes).
pub open spec fn regions_read_fit(entries: Seq<MemoryMapEntry>, count: int, i: int, loc: int, amt: int) -> bool
    decreases count - i,
{
    if i < 0 || i >= count {
        true
    } else {
        let e = entries[i];
        &&& (entry_addressable(e) && e.BaseAddr <= loc ==> e.BaseAddr + e.Length <= usize::MAX)
        &&& (entry_holds(e, loc, amt) || regions_read_fit(entries, count, i + 1, loc, amt))
    }
}

/// Used slots come first, and no two used slots share an address.
pub open spec fn blobs_consistent(blobs: Seq<MemoryBlob>) -> bool {
    &&& forall|i: int, j: int| #![trigger blobs[i], blobs[j]] 0 <= i < j < blobs.len() && blobs[j].Length != 0 ==> blobs[i].Length != 0
    &&& forall|i: int, j: int|
        0 <= i < blobs.len() && 0 <= j < blobs.len() && i != j && blobs[i].Length != 0 && blobs[j].Length != 0
            ==> !overlaps(#[trigger] blobs[i], blobs[j].Address as int, #[trigger] blobs[j].Length as int)
}

/// The address right after the last used slot of the leading run of used
/// slots from `i` on, or `start` if slot `i` is unused.
pub open spec fn next_free_address(blobs: Seq<MemoryBlob>, i: int, start: int) -> int
    decreases blobs.len() - i,
{
    if i >= blobs.len() || i < 0 {
        start
    } else if blobs[i].Length == 0 {
        start
    } else {
        next_free_address(blobs, i + 1, blobs[i].Address + blobs[i].Length)
    }
}

/// The slots after a request for `loc..loc + amt` against a memory map
/// with entries `entries` of which `count` are counted, or why the request
/// is refused.
pub open spec fn reserve_result(
    entries: Seq<MemoryMapEntry>,
    count: int,
    blobs: Seq<MemoryBlob>,
    loc: int,
    amt: int,
    what: WhatDo,
) -> Result<Seq<MemoryBlob>, ReserveError> {
    if what == WhatDo::YoLo {
        record_blob(blobs, loc, amt)
    } else {
        match region_from(entries, count, 0, loc, amt) {
            None => Err(ReserveError::NotInMemoryRange),
            Some(i) => {
                let kind = entry_type_of(entries[i].Type);
                if kind == MemoryMapEntryType::AddressRangeMemory
                    || (kind == MemoryMapEntryType::AddressRangeReserved && what == WhatDo::UseReserved) {
                    record_blob(blobs, loc, amt)
                } else {
                    Err(ReserveError::UnusableRegion(kind))
                }
            },
        }
    }
}

impl PhysicalMemoryManager {
    /// The manager has all its slots, each of which ends within the address
    /// space.
    pub open spec fn wf(&self) -> bool {
        &&& self.MemoryMap.wf()
        &&& self.Blobs@.len() == BLOB_COUNT
        &&& forall|i: int| 0 <= i < BLOB_COUNT ==> #[trigger] self.Blobs@[i].Address + self.Blobs@[i].Length <= usize::MAX
    }

    /// The slots after a request for `loc..loc + amt`, or why it is refused.
    pub open spec fn reserve_outcome(&self, loc: int, amt: int, what: WhatDo) -> Result<Seq<MemoryBlob>, ReserveError> {
        reserve_result(self.MemoryMap.Entries@, self.MemoryMap.Count as int, self.Blobs@, loc, amt, what)
    }

    fn find_slot(&self, loc: usize, amt: usize) -> (r: Result<usize, ReserveError>)
        requires
            self.wf(),
            loc + amt <= usize::MAX,
        ensures
            match scan_from(self.Blobs@, 0, loc as int, amt as int) {
                Ok(s) => r == Ok::<usize, ReserveError>(s as usize),
                Err(e) => r == Err::<usize, ReserveError>(e),
            },
            r matches Ok(s) ==> s < BLOB_COUNT,
    {
        proof {
            lemma_scan_bounds(self.Blobs@, 0, loc as int, amt as int);
        }
        let mut idx: usize = 0;
        while idx < BLOB_COUNT
            invariant
                self.wf(),
                loc + amt <= usize::MAX,
                idx <= BLOB_COUNT,
                scan_from(self.Blobs@, 0, loc as int, amt as int) == scan_from(self.Blobs@, idx as int, loc as int, amt as int),
            decreases BLOB_COUNT - idx,
        {
            let b = self.Blobs[idx];
            if b.Length == 0 {
                return Ok(idx);
            }
            if loc < b.Address + b.Length && b.Address < loc + amt {
                return Err(ReserveError::Overlap(idx));
            }
            idx = idx + 1;
        }
        Err(ReserveError::NoFreeSlot)
    }

    /// Records `loc..loc + amt` in the first unused slot; the caller has
    /// made sure that one comes before any used slot that overlaps the range.
    fn ReserveInternal(&mut self, loc: usize, amt: usize)
        requires
            old(self).wf(),
            loc + amt <= usize::MAX,
            record_blob(old(self).Blobs@, loc as int, amt as int) is Ok,
        ensures
            final(self).wf(),
            final(self).MemoryMap == old(self).MemoryMap,
            record_blob(old(self).Blobs@, loc as int, amt as int)
                == Ok::<Seq<MemoryBlob>, ReserveError>(final(self).Blobs@),
    {
        proof {
            lemma_scan_bounds(self.Blobs@, 0, loc as int, amt as int);
        }
        match self.find_slot(loc, amt) {
            Ok(slot) => {
                self.Blobs.set(slot, MemoryBlob { Address: loc, Length: amt });
            },
            Err(_) => {},
        }
    }

    fn find_region(&self, loc: usize, amt: usize) -> (r: Option<usize>)
        requires
            self.wf(),
        ensures
            match region_from(self.MemoryMap.Entries@, self.MemoryMap.Count as int, 0, loc as int, amt as int) {
                None => r is None,
                Some(i) => r == Some(i as usize),
            },
            r matches Some(i) ==> i < self.MemoryMap.Count,
    {
        proof {
            lemma_region_bounds(self.MemoryMap.Entries@, self.MemoryMap.Count as int, 0, loc as int, amt as int);
        }
        let count = self.MemoryMap.Count as usize;
        let mut index: usize = 0;
        while index < count
            invariant
                self.wf(),
                count == self.MemoryMap.Count,
                index <= count,
                region_from(self.MemoryMap.Entries@, count as int, 0, loc as int, amt as int)
                    == region_from(self.MemoryMap.Entries@, count as int, index as int, loc as int, amt as int),
            decreases count - index,
        {
            let e = self.MemoryMap.Entries[index];
            if e.BaseAddr <= usize::MAX as u64 && e.Length <= usize::MAX as u64 {
                let base = e.BaseAddr as usize;
                let length = e.Length as usize;
                if base <= loc && loc - base <= length && amt <= length - (loc - base) {
                    return Some(index);
                }
            }
            index = index + 1;
        }
        None
    }

    /// Whether a request for `requestLocation..requestLocation + requestAmmount`
    /// would be granted, and if not, why.
    ///
    /// With `WhatDo::YoLo` the memory map is not consulted. Otherwise the first
    /// counted region of the map that holds the whole range decides: a usable
    /// region (or a reserved one, with `WhatDo::UseReserved`) lets the request
    /// through; any other kind refuses it, as does the lack of such a region.
    /// A request that gets through must then find an unused slot before any
    /// used slot that it overlaps.
    pub fn checkReserve(&self, requestLocation: usize, requestAmmount: usize, whatDo: WhatDo) -> (r: Result<(), ReserveError>)
        requires
            self.wf(),
            requestLocation + requestAmmount <= usize::MAX,
        ensures
            r is Ok <==> self.reserve_outcome(requestLocation as int, requestAmmount as int, whatDo) is Ok,
            self.reserve_outcome(requestLocation as int, requestAmmount as int, whatDo) matches Err(e)
                ==> r == Err::<(), ReserveError>(e),
    {
        proof {
            lemma_region_bounds(self.MemoryMap.Entries@, self.MemoryMap.Count as int, 0, requestLocation as int, requestAmmount as int);
            lemma_scan_bounds(self.Blobs@, 0, requestLocation as int, requestAmmount as int);
        }
        if whatDo != WhatDo::YoLo {
            match self.find_region(requestLocation, requestAmmount) {
                None => {
                    return Err(ReserveError::NotInMemoryRange);
                },
                Some(index) => {
                    let kind = self.MemoryMap.Entries[index].GetType();
                    if !(kind == MemoryMapEntryType::AddressRangeMemory
                        || (kind == MemoryMapEntryType::AddressRangeReserved && whatDo == WhatDo::UseReserved)) {
                        return Err(ReserveError::UnusableRegion(kind));
                    }
                },
            }
        }
        match self.find_slot(requestLocation, requestAmmount) {
            Ok(_) => Ok(()),
            Err(e) => Err(e),
        }
    }

    /// Records `requestLocation..requestLocation + requestAmmount` as taken,
    /// in the first unused slot. The request must be one that `checkReserve`
    /// grants (see there for the rules); every other request halts the kernel.
    pub fn Reserve(&mut self, requestLocation: usize, requestAmmount: usize, whatDo: WhatDo)
        requires
            old(self).wf(),
            requestLocation + requestAmmount <= usize::MAX,
            whatDo != WhatDo::YoLo ==> regions_read_fit(
                old(self).MemoryMap.Entries@,
                old(self).MemoryMap.Count as int,
                0,
                requestLocation as int,
                requestAmmount as int,
            ),
            old(self).reserve_outcome(requestLocation as int, requestAmmount as int, whatDo) is Ok,
        ensures
            final(self).wf(),
            final(self).MemoryMap == old(self).MemoryMap,
            old(self).reserve_outcome(requestLocation as int, requestAmmount as int, whatDo)
                == Ok::<Seq<MemoryBlob>, ReserveError>(final(self).Blobs@),
            blobs_consistent(old(self).Blobs@) ==> blobs_consistent(final(self).Blobs@),
            disjoint_below(old(self).Blobs@, first_unused_slot(old(self).Blobs@, 0)) ==> {
                let k = first_unused_slot(old(self).Blobs@, 0);
                &&& final(self).Blobs@[k] == (MemoryBlob { Address: requestLocation, Length: requestAmmount })
                &&& disjoint_below(final(self).Blobs@, k + 1)
            },
    {
        proof {
            if blobs_consistent(old(self).Blobs@) {
                lemma_record_keeps_consistent(old(self).Blobs@, requestLocation as int, requestAmmount as int);
            }
            if disjoint_below(old(self).Blobs@, first_unused_slot(old(self).Blobs@, 0)) {
                lemma_record_keeps_used_disjoint(old(self).Blobs@, requestLocation as int, requestAmmount as int);
            }
        }
        self.ReserveInternal(requestLocation, requestAmmount);
    }
}

proof fn lemma_scan_bounds(blobs: Seq<MemoryBlob>, i: int, loc: int, amt: int)
    requires
        0 <= i,
    ensures
        scan_from(blobs, i, loc, amt) matches Ok(s) ==> i <= s < blobs.len() && blobs[s].Length == 0,
    decreases blobs.len() - i,
{
    if i < blobs.len() && blobs[i].Length != 0 && !overlaps(blobs[i], loc, amt) {
        lemma_scan_bounds(blobs, i + 1, loc, amt);
    }
}

proof fn lemma_region_bounds(entries: Seq<MemoryMapEntry>, count: int, i: int, loc: int, amt: int)
    requires
        0 <= i,
    ensures
        region_from(entries, count, i, loc, amt) matches Some(k) ==> i <= k < count,
    decreases count - i,
{
    if i < count && !entry_holds(entries[i], loc, amt) {
        lemma_region_bounds(entries, count, i + 1, loc, amt);
    }
}

/// The rows that describing the first `n` entries of a map gives: start, end
/// and kind of each entry whose base and length fit in a `usize`.
pub open spec fn dump_rows(entries: Seq<MemoryMapEntry>, n: int) -> Seq<(usize, usize, MemoryMapEntryType)>
    decreases n,
{
    if n <= 0 {
        Seq::empty()
    } else {
        let prev = dump_rows(entries, n - 1);
        let e = entries[n - 1];
        if entry_addressable(e) {
            prev.push((e.BaseAddr as usize, (e.BaseAddr + e.Length) as usize, entry_type_of(e.Type)))
        } else {
            prev
        }
    }
}

impl PhysicalMemoryManager {
    /// Describes each counted region of the memory map: where it starts,
    /// where it ends and of which kind it is. Entries whose base or length
    /// does not fit in a `usize` are left out.
    pub fn Dump(&self) -> (rows: Vec<(usize, usize, MemoryMapEntryType)>)
        requires
            self.wf(),
            region_ends_fit(self.MemoryMap.Entries@, self.MemoryMap.Count as int, usize::MAX as int),
        ensures
            rows@ == dump_rows(self.MemoryMap.Entries@, self.MemoryMap.Count as int),
    {
        let count = self.MemoryMap.Count as usize;
        let mut rows: Vec<(usize, usize, MemoryMapEntryType)> = Vec::new();
        let mut index: usize = 0;
        while index < count
            invariant
                self.wf(),
                region_ends_fit(self.MemoryMap.Entries@, self.MemoryMap.Count as int, usize::MAX as int),
                count == self.MemoryMap.Count,
                index <= count,
                rows@ == dump_rows(self.MemoryMap.Entries@, index as int),
            decreases count - index,
        {
            let e = self.MemoryMap.Entries[index];
            if e.BaseAddr <= usize::MAX as u64 && e.Length <= usize::MAX as u64 {
                let base = e.BaseAddr as usize;
                let length = e.Length as usize;
                rows.push((base, base + length, e.GetType()));
            }
            index = index + 1;
        }
        rows
    }

    /// The address right after the last used slot of the leading run of used
    /// slots (zero when the first slot is unused): where `ReserveWherever`
    /// asks for memory.
    pub fn nextFreeAddress(&self) -> (r: usize)
        requires
            self.wf(),
        ensures
            r == next_free_address(self.Blobs@, 0, 0),
    {
        let mut start: usize = 0;
        let mut index: usize = 0;
        while index < BLOB_COUNT && self.Blobs[index].Length != 0
            invariant
                self.wf(),
                index <= BLOB_COUNT,
                next_free_address(self.Blobs@, 0, 0) == next_free_address(self.Blobs@, index as int, start as int),
            decreases BLOB_COUNT - index,
        {
            let b = self.Blobs[index];
            start = b.Address + b.Length;
            index = index + 1;
        }
        start
    }

    /// Reserves `sizeInBytes` at `nextFreeAddress()`, as a `WhatDo::Normal`
    /// request, and gives back where the range starts. The request must be
    /// one that `checkReserve` grants; every other request halts the kernel.
    pub fn ReserveWherever(&mut self, sizeInBytes: usize) -> (r: usize)
        requires
            old(self).wf(),
            next_free_address(old(self).Blobs@, 0, 0) + sizeInBytes <= usize::MAX,
            regions_read_fit(
                old(self).MemoryMap.Entries@,
                old(self).MemoryMap.Count as int,
                0,
                next_free_address(old(self).Blobs@, 0, 0),
                sizeInBytes as int,
            ),
            old(self).reserve_outcome(next_free_address(old(self).Blobs@, 0, 0), sizeInBytes as int, WhatDo::Normal) is Ok,
        ensures
            final(self).wf(),
            final(self).MemoryMap == old(self).MemoryMap,
            r == next_free_address(old(self).Blobs@, 0, 0),
            old(self).reserve_outcome(r as int, sizeInBytes as int, WhatDo::Normal)
                == Ok::<Seq<MemoryBlob>, ReserveError>(final(self).Blobs@),
            blobs_consistent(old(self).Blobs@) ==> blobs_consistent(final(self).Blobs@),
    {
        let start = self.nextFreeAddress();
        self.Reserve(start, sizeInBytes, WhatDo::Normal);
        start
    }
}

/// Recording a range keeps the slots consistent: used slots stay in front
/// and never overlap one another.
pub proof fn lemma_record_keeps_consistent(blobs: Seq<MemoryBlob>, loc: int, amt: int)
    requires
        blobs.len() == BLOB_COUNT,
        blobs_consistent(blobs),
        0 <= loc,
        0 <= amt,
        loc + amt <= usize::MAX,
    ensures
        record_blob(blobs, loc, amt) matches Ok(nb) ==> blobs_consistent(nb),
{
    lemma_scan_facts(blobs, 0, loc, amt);
    if let Ok(slot) = scan_from(blobs, 0, loc, amt) {
        let nb = blobs.update(slot, MemoryBlob { Address: loc as usize, Length: amt as usize });
        assert forall|i: int, j: int| #![trigger nb[i], nb[j]] 0 <= i < j < nb.len() && nb[j].Length != 0 implies nb[i].Length != 0 by {
            if j == slot {
                assert(blobs[i].Length != 0);
            } else if i == slot {
                assert(blobs[j].Length != 0);
                assert(blobs[i].Length != 0);
            } else {
                assert(blobs[i].Length != 0);
            }
        }
        assert forall|i: int, j: int|
            0 <= i < nb.len() && 0 <= j < nb.len() && i != j && nb[i].Length != 0 && nb[j].Length != 0
                implies !overlaps(#[trigger] nb[i], nb[j].Address as int, #[trigger] nb[j].Length as int) by {
            if i == slot {
                assert(blobs[j].Length != 0);
                assert(!overlaps(blobs[j], loc, amt));
            } else if j == slot {
                assert(blobs[i].Length != 0);
                assert(!overlaps(blobs[i], loc, amt));
            } else {
                assert(!overlaps(blobs[i], blobs[j].Address as int, blobs[j].Length as int));
            }
        }
    }
}

/// What a successful walk from `i` guarantees: the chosen slot is in range,
/// and every used slot other than those after an unused chosen slot was
/// checked against the request.
proof fn lemma_scan_facts(blobs: Seq<MemoryBlob>, i: int, loc: int, amt: int)
    requires
        blobs.len() == BLOB_COUNT,
        blobs_consistent(blobs),
        0 <= i <= blobs.len(),
        forall|k: int| #![trigger blobs[k]] 0 <= k < i ==> blobs[k].Length != 0 && !overlaps(blobs[k], loc, amt),
    ensures
        scan_from(blobs, i, loc, amt) matches Ok(s) ==> {
            &&& 0 <= s < blobs.len()
            &&& blobs[s].Length == 0
            &&& forall|k: int| #![trigger blobs[k]] 0 <= k < s ==> blobs[k].Length != 0
            &&& forall|k: int| 0 <= k < blobs.len() && k != s && blobs[k].Length != 0 ==> !overlaps(#[trigger] blobs[k], loc, amt)
        },
    decreases blobs.len() - i,
{
    if i < blobs.len() && blobs[i].Length != 0 && !overlaps(blobs[i], loc, amt) {
        lemma_scan_facts(blobs, i + 1, loc, amt);
    } else if i < blobs.len() && blobs[i].Length == 0 {
        assert forall|k: int| #![trigger blobs[k]] 0 <= k < i implies blobs[k].Length != 0 by {}
        assert forall|k: int| 0 <= k < blobs.len() && k != i && blobs[k].Length != 0 implies !overlaps(#[trigger] blobs[k], loc, amt) by {
            if k > i {
                assert(blobs[i].Length != 0);
            }
        }
    }
}

/// A reservation that goes through is recorded as asked: some slot then
/// holds exactly the requested address and length, and every other slot is
/// as it was.
pub proof fn lemma_reserved_range_recorded(m: PhysicalMemoryManager, loc: int, amt: int, what: WhatDo)
    requires
        m.wf(),
        0 <= loc,
        0 <= amt,
        loc + amt <= usize::MAX,
    ensures
        m.reserve_outcome(loc, amt, what) matches Ok(nb) ==> exists|slot: int| {
            &&& 0 <= slot < BLOB_COUNT
            &&& nb[slot] == (MemoryBlob { Address: loc as usize, Length: amt as usize })
            &&& forall|k: int| 0 <= k < BLOB_COUNT && k != slot ==> #[trigger] nb[k] == m.Blobs@[k]
        },
{
    lemma_scan_bounds(m.Blobs@, 0, loc, amt);
    if let Ok(nb) = m.reserve_outcome(loc, amt, what) {
        if let Ok(slot) = scan_from(m.Blobs@, 0, loc, amt) {
            assert(nb[slot] == (MemoryBlob { Address: loc as usize, Length: amt as usize }));
        }
    }
}


proof fn lemma_scan_hits(blobs: Seq<MemoryBlob>, i: int, s: int, loc: int, amt: int)
    requires
        0 <= i <= s < blobs.len(),
        forall|k: int| #![trigger blobs[k]] 0 <= k < s ==> blobs[k].Length != 0 && !overlaps(blobs[k], loc, amt),
        blobs[s].Length != 0,
        overlaps(blobs[s], loc, amt),
    ensures
        scan_from(blobs, i, loc, amt) == Err::<int, ReserveError>(ReserveError::Overlap(s as usize)),
    decreases s - i,
{
    if i < s {
        lemma_scan_hits(blobs, i + 1, s, loc, amt);
    }
}

/// Asking twice for the same non-empty range: once the first request went
/// through, the second is refused as overlapping the slot the first filled.
pub proof fn lemma_reserve_twice_refused(
    entries: Seq<MemoryMapEntry>,
    count: int,
    blobs: Seq<MemoryBlob>,
    loc: int,
    amt: int,
    what: WhatDo,
)
    requires
        blobs.len() == BLOB_COUNT,
        blobs_consistent(blobs),
        0 <= loc,
        0 < amt,
        loc + amt <= usize::MAX,
    ensures
        reserve_result(entries, count, blobs, loc, amt, what) matches Ok(nb) ==> exists|slot: int|
            reserve_result(entries, count, nb, loc, amt, what) == Err::<Seq<MemoryBlob>, ReserveError>(
                ReserveError::Overlap(slot as usize),
            ) && nb[slot] == (MemoryBlob { Address: loc as usize, Length: amt as usize }),
{
    lemma_scan_facts(blobs, 0, loc, amt);
    if let Ok(nb) = reserve_result(entries, count, blobs, loc, amt, what) {
        if let Ok(s) = scan_from(blobs, 0, loc, amt) {
            assert(nb == blobs.update(s, MemoryBlob { Address: loc as usize, Length: amt as usize }));
            assert(nb[s] == (MemoryBlob { Address: loc as usize, Length: amt as usize }));
            assert forall|k: int| #![trigger nb[k]] 0 <= k < s implies nb[k].Length != 0 && !overlaps(nb[k], loc, amt) by {
                assert(nb[k] == blobs[k]);
                assert(blobs[k].Length != 0);
            }
            lemma_scan_hits(nb, 0, s, loc, amt);
            assert(reserve_result(entries, count, nb, loc, amt, what) == Err::<Seq<MemoryBlob>, ReserveError>(
                ReserveError::Overlap(s as usize),
            ));
        }
    }
}

/// A table whose every slot already holds a reservation takes no further
/// request: recording any range is refused, so no reservation is lost.
pub proof fn lemma_full_table_refused(blobs: Seq<MemoryBlob>, loc: int, amt: int)
    requires
        forall|k: int| 0 <= k < blobs.len() ==> #[trigger] blobs[k].Length != 0,
    ensures
        record_blob(blobs, loc, amt) is Err,
{
    lemma_scan_bounds(blobs, 0, loc, amt);
}

/// The index of the first unused slot from `i` on, or the number of slots
/// when every one of them is used.
pub open spec fn first_unused_slot(blobs: Seq<MemoryBlob>, i: int) -> int
    decreases blobs.len() - i,
{
    if i < 0 || i >= blobs.len() {
        blobs.len() as int
    } else if blobs[i].Length == 0 {
        i
    } else {
        first_unused_slot(blobs, i + 1)
    }
}

/// The slots `0..n` hold pairwise disjoint ranges.
pub open spec fn disjoint_below(blobs: Seq<MemoryBlob>, n: int) -> bool {
    forall|i: int, j: int|
        0 <= i < n && 0 <= j < n && i != j
            ==> !overlaps(#[trigger] blobs[i], blobs[j].Address as int, #[trigger] blobs[j].Length as int)
}

proof fn lemma_scan_reaches_first_unused(blobs: Seq<MemoryBlob>, i: int, loc: int, amt: int)
    requires
        0 <= i <= blobs.len(),
        forall|m: int| #![trigger blobs[m]] 0 <= m < i ==> blobs[m].Length != 0 && !overlaps(blobs[m], loc, amt),
    ensures
        scan_from(blobs, i, loc, amt) matches Ok(s) ==> {
            &&& s == first_unused_slot(blobs, i)
            &&& forall|m: int| #![trigger blobs[m]] 0 <= m < s ==> blobs[m].Length != 0 && !overlaps(blobs[m], loc, amt)
        },
    decreases blobs.len() - i,
{
    if i < blobs.len() && blobs[i].Length != 0 && !overlaps(blobs[i], loc, amt) {
        lemma_scan_reaches_first_unused(blobs, i + 1, loc, amt);
    }
}

/// Recording a range keeps the reservations in front of the first unused
/// slot pairwise disjoint, whatever the slots after it hold: the range
/// lands in that first unused slot and overlaps none of the slots before
/// it, so a request that overlaps one of them is never recorded.
pub proof fn lemma_record_keeps_used_disjoint(blobs: Seq<MemoryBlob>, loc: int, amt: int)
    requires
        0 <= loc,
        0 <= amt,
        loc + amt <= usize::MAX,
        disjoint_below(blobs, first_unused_slot(blobs, 0)),
    ensures
        record_blob(blobs, loc, amt) matches Ok(nb) ==> {
            let k = first_unused_slot(blobs, 0);
            &&& 0 <= k < blobs.len()
            &&& nb == blobs.update(k, MemoryBlob { Address: loc as usize, Length: amt as usize })
            &&& disjoint_below(nb, k + 1)
        },
{
    lemma_scan_reaches_first_unused(blobs, 0, loc, amt);
    lemma_scan_bounds(blobs, 0, loc, amt);
    if let Ok(nb) = record_blob(blobs, loc, amt) {
        let k = first_unused_slot(blobs, 0);
        let r = MemoryBlob { Address: loc as usize, Length: amt as usize };
        assert forall|i: int, j: int|
            0 <= i < k + 1 && 0 <= j < k + 1 && i != j
                implies !overlaps(#[trigger] nb[i], nb[j].Address as int, #[trigger] nb[j].Length as int) by {
            if i == k {
                assert(nb[j] == blobs[j]);
                assert(!overlaps(blobs[j], loc, amt));
            } else if j == k {
                assert(nb[i] == blobs[i]);
                assert(!overlaps(blobs[i], loc, amt));
            } else {
                assert(nb[i] == blobs[i] && nb[j] == blobs[j]);
            }
        }
    }
}

} // verus!
