//! Memory addresses: host-physical, virtual, device-visible and
//! guest-physical.

use vstd::prelude::*;
use crate::text::{hex_fixed, push_hex_fixed};

verus! {

/// Represents a host-physical memory address.
#[derive(Debug, Copy, Clone, PartialEq, Eq, Structural, PartialOrd, Ord, Hash)]
pub struct PAddr(pub usize);

impl PAddr {
    pub fn new(addr: usize) -> (r: PAddr)
        ensures
            r.0 == addr,
    {
        PAddr(addr)
    }

    pub fn as_usize(self) -> (r: usize)
        ensures
            r == self.0,
    {
        self.0
    }

    /// Adds `offset`; the sum must fit in a `usize`.
    pub fn add(self, offset: usize) -> (r: PAddr)
        requires
            self.0 + offset <= usize::MAX,
        ensures
            r.0 == self.0 + offset,
    {
        PAddr::new(self.0 + offset)
    }

    /// Adds `offset`, or returns `None` where the sum overflows.
    pub fn checked_add(self, offset: usize) -> (r: Option<PAddr>)
        ensures
            self.0 + offset <= usize::MAX ==> r == Some(PAddr(
                (self.0 + offset) as usize,
            )),
            self.0 + offset > usize::MAX ==> r is None,
    {
        match self.0.checked_add(offset) {
            Some(a) => Some(PAddr::new(a)),
            None => None,
        }
    }

    /// The address as 16 lower-case hexadecimal digits.
    pub fn to_hex_string(&self) -> (s: String)
        ensures
            s@ == hex_fixed(self.0 as nat, 16),
    {
        let mut s = String::new();
        push_hex_fixed(&mut s, self.0 as u64, 16);
        s
    }
}

/// Represents a virtual memory address.
#[derive(Debug, Copy, Clone, PartialEq, Eq, Structural, PartialOrd, Ord, Hash)]
pub struct VAddr(pub usize);

impl VAddr {
    pub fn new(addr: usize) -> (r: VAddr)
        ensures
            r.0 == addr,
    {
        VAddr(addr)
    }

    pub fn as_usize(self) -> (r: usize)
        ensures
            r == self.0,
    {
        self.0
    }

    /// Adds `offset`; the sum must fit in a `usize`.
    pub fn add(self, offset: usize) -> (r: VAddr)
        requires
            self.0 + offset <= usize::MAX,
        ensures
            r.0 == self.0 + offset,
    {
        VAddr::new(self.0 + offset)
    }

    /// The address as 16 lower-case hexadecimal digits.
    pub fn to_hex_string(&self) -> (s: String)
        ensures
            s@ == hex_fixed(self.0 as nat, 16),
    {
        let mut s = String::new();
        push_hex_fixed(&mut s, self.0 as u64, 16);
        s
    }
}

/// Represents a device-visible memory address. Typically it is equal to the
/// physical address, but it can differ, e.g. behind an IOMMU.
#[derive(Debug, Copy, Clone, PartialEq, Eq, Structural, PartialOrd, Ord, Hash)]
pub struct DAddr(pub usize);

impl DAddr {
    pub fn new(addr: usize) -> (r: DAddr)
        ensures
            r.0 == addr,
    {
        DAddr(addr)
    }

    pub fn as_usize(self) -> (r: usize)
        ensures
            r == self.0,
    {
        self.0
    }

    /// The address as 16 lower-case hexadecimal digits.
    pub fn to_hex_string(&self) -> (s: String)
        ensures
            s@ == hex_fixed(self.0 as nat, 16),
    {
        let mut s = String::new();
        push_hex_fixed(&mut s, self.0 as u64, 16);
        s
    }
}

/// Represents a guest-physical memory address.
#[derive(Debug, Copy, Clone, PartialEq, Eq, Structural, PartialOrd, Ord, Hash)]
pub struct GPAddr(pub usize);

impl GPAddr {
    pub fn new(addr: usize) -> (r: GPAddr)
        ensures
            r.0 == addr,
    {
        GPAddr(addr)
    }

    pub fn as_usize(self) -> (r: usize)
        ensures
            r == self.0,
    {
        self.0
    }

    /// Adds `offset`, or returns `None` where the sum overflows.
    pub fn checked_add(self, offset: usize) -> (r: Option<GPAddr>)
        ensures
            self.0 + offset <= usize::MAX ==> r == Some(GPAddr(
                (self.0 + offset) as usize,
            )),
            self.0 + offset > usize::MAX ==> r is None,
    {
        match self.0.checked_add(offset) {
            Some(a) => Some(GPAddr::new(a)),
            None => None,
        }
    }

    /// Subtracts `offset`, or returns `None` where it would go below zero.
    pub fn checked_sub(self, offset: usize) -> (r: Option<GPAddr>)
        ensures
            offset <= self.0 ==> r == Some(GPAddr((self.0 - offset) as usize)),
            offset > self.0 ==> r is None,
    {
        match self.0.checked_sub(offset) {
            Some(a) => Some(GPAddr::new(a)),
            None => None,
        }
    }

    /// The address as 16 lower-case hexadecimal digits.
    pub fn to_hex_string(&self) -> (s: String)
        ensures
            s@ == hex_fixed(self.0 as nat, 16),
    {
        let mut s = String::new();
        push_hex_fixed(&mut s, self.0 as u64, 16);
        s
    }
}

/// Adding an offset and subtracting it again gives back the address.
pub proof fn law_gpaddr_add_sub(a: GPAddr, offset: usize)
    requires
        a.0 + offset <= usize::MAX,
    ensures
        ({
            let b = GPAddr((a.0 + offset) as usize);
            offset <= b.0 && GPAddr((b.0 - offset) as usize) == a
        }),
{
}

} // verus!
