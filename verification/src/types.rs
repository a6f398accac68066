use vstd::prelude::*;

verus! {

/// A virtual address.
#[derive(Debug, Clone, Copy, PartialEq, Eq, Structural)]
pub struct VirtualAddress {
    pub address: usize,
}

/// A physical address.
#[derive(Debug, Clone, Copy, PartialEq, Eq, Structural)]
pub struct PhysicalAddress {
    pub address: usize,
}

impl VirtualAddress {
    /// The virtual address `address`.
    pub fn new(address: usize) -> (v: Self)
        ensures
            v.address == address,
    {
        VirtualAddress { address }
    }
}

impl PhysicalAddress {
    /// The physical address `address`.
    pub fn new(address: usize) -> (p: Self)
        ensures
            p.address == address,
    {
        PhysicalAddress { address }
    }
}

} // verus!
