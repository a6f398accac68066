use vstd::prelude::*;

use crate::memory_map::{entry_type_of, MemoryMap, MemoryMapEntry, MemoryMapEntryType};

verus! {

/// Why the loader could not place the kernels.
#[derive(Debug, Clone, Copy, PartialEq, Eq, Structural)]
pub enum Stage2Error {
    /// The first large enough region does not start where the 32-bit kernel
    /// must be loaded.
    KernelNotAtJumpAddress,
    /// No usable region is large enough.
    NoSpaceForKernels,
}

/// The region that gets the kernels, looking at slots from `i` on: the first
/// usable one that does not hold the loader's own code at `eip` and is at
/// least `needed` bytes long, which must start at `jump`.
pub open spec fn kernel_space_from(entries: Seq<MemoryMapEntry>, i: int, needed: int, eip: int, jump: int) -> Result<usize, Stage2Error>
    decreases entries.len() - i,
{
    if i < 0 || i >= entries.len() {
        Err(Stage2Error::NoSpaceForKernels)
    } else {
        let e = entries[i];
        if entry_type_of(e.Type) != MemoryMapEntryType::AddressRangeMemory {
            kernel_space_from(entries, i + 1, needed, eip, jump)
        } else if (e.BaseAddr as usize) <= eip && eip < ((e.BaseAddr + e.Length) as u64) as usize {
            kernel_space_from(entries, i + 1, needed, eip, jump)
        } else if e.Length >= needed {
            if e.BaseAddr != jump {
                Err(Stage2Error::KernelNotAtJumpAddress)
            } else {
                Ok(e.BaseAddr as usize)
            }
        } else {
            kernel_space_from(entries, i + 1, needed, eip, jump)
        }
    }
}

/// Finds room for both kernels (`needed_size` bytes) in the memory map,
/// skipping the region the loader runs from (`eip`); the region found must
/// start at `jump_address`, where the 32-bit kernel is entered.
pub fn findSpaceForKernels(mm: &MemoryMap, needed_size: usize, eip: usize, jump_address: usize) -> (r: Result<usize, Stage2Error>)
    requires
        forall|i: int| 0 <= i < mm.Entries@.len() && entry_type_of(#[trigger] mm.Entries@[i].Type) == MemoryMapEntryType::AddressRangeMemory
            && (mm.Entries@[i].BaseAddr as usize) <= eip ==> mm.Entries@[i].BaseAddr + mm.Entries@[i].Length <= u64::MAX,
    ensures
        r == kernel_space_from(mm.Entries@, 0, needed_size as int, eip as int, jump_address as int),
{
    let n = mm.Entries.len();
    let mut i: usize = 0;
    while i < n
        invariant
            n == mm.Entries@.len(),
            i <= n,
            forall|k: int| 0 <= k < mm.Entries@.len() && entry_type_of(#[trigger] mm.Entries@[k].Type) == MemoryMapEntryType::AddressRangeMemory
                && (mm.Entries@[k].BaseAddr as usize) <= eip ==> mm.Entries@[k].BaseAddr + mm.Entries@[k].Length <= u64::MAX,
            kernel_space_from(mm.Entries@, 0, needed_size as int, eip as int, jump_address as int)
                == kernel_space_from(mm.Entries@, i as int, needed_size as int, eip as int, jump_address as int),
        decreases n - i,
    {
        let region = mm.Entries[i];
        if region.GetType() == MemoryMapEntryType::AddressRangeMemory {
            let base: usize = (#[verifier::truncate] (region.BaseAddr as usize));
            let inside = base <= eip && eip < (#[verifier::truncate] ((region.BaseAddr + region.Length) as usize));
            if !inside {
                if region.Length >= needed_size as u64 {
                    if region.BaseAddr != jump_address as u64 {
                        return Err(Stage2Error::KernelNotAtJumpAddress);
                    }
                    return Ok(base);
                }
            }
        }
        i = i + 1;
    }
    Err(Stage2Error::NoSpaceForKernels)
}

} // verus!
