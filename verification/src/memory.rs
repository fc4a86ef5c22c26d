use vstd::prelude::*;

verus! {

/// A physical address.
#[derive(Clone, Copy, PartialEq, Eq, Structural, PartialOrd, Ord, Debug)]
pub struct PhysAddr(pub(crate) u64);

/// A virtual address.
#[derive(Clone, Copy, PartialEq, Eq, Structural, PartialOrd, Ord, Debug)]
pub struct VirtAddr(pub(crate) usize);

impl View for PhysAddr {
    type V = u64;

    closed spec fn view(&self) -> u64 {
        self.0
    }
}

impl View for VirtAddr {
    type V = usize;

    closed spec fn view(&self) -> usize {
        self.0
    }
}

impl PhysAddr {
    /// The physical address `addr`.
    pub(crate) fn new(addr: u64) -> (r: PhysAddr)
        ensures
            r@ == addr,
    {
        PhysAddr(addr)
    }

    /// The address as a plain number.
    pub fn to_u64(&self) -> (r: u64)
        ensures
            r == self@,
    {
        self.0
    }
}

} // verus!
