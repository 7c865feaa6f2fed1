//! Readiness of a polled handle.

use vstd::prelude::*;

verus! {

pub const READINESS_READABLE: u8 = 1;
pub const READINESS_WRITABLE: u8 = 2;
pub const READINESS_CLOSED: u8 = 4;

/// A set of readiness events, as a bit set.
#[derive(Debug, Clone, Copy, PartialEq, Eq, Structural, Hash)]
pub struct Readiness(pub u8);

impl Readiness {
    pub fn from_raw(raw: u8) -> (r: Readiness)
        ensures
            r.0 == raw,
    {
        Readiness(raw)
    }

    pub fn as_isize(&self) -> (r: isize)
        ensures
            r == self.0,
    {
        self.0 as isize
    }

    /// Whether every event of `other` is in `self`.
    pub fn contains(&self, other: Readiness) -> (r: bool)
        ensures
            r == (self.0 & other.0 == other.0),
    {
        self.0 & other.0 == other.0
    }

    /// The union of two sets of events.
    pub fn union(self, other: Readiness) -> (r: Readiness)
        ensures
            r.0 == self.0 | other.0,
    {
        Readiness(self.0 | other.0)
    }
}

} // verus!
