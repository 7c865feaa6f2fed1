//! Monotonic time.

use vstd::prelude::*;

verus! {

/// A time from a certain point in the past, in nanoseconds.
#[derive(Debug, Clone, Copy, PartialEq, Eq, Structural, PartialOrd, Ord)]
pub struct MonotonicTime(pub u64);

impl MonotonicTime {
    pub fn from_raw(raw: u64) -> (r: MonotonicTime)
        ensures
            r.0 == raw,
    {
        MonotonicTime(raw)
    }

    /// The time `millis` milliseconds after the origin; the number of
    /// nanoseconds must fit in a `u64`.
    pub fn from_millis(millis: u64) -> (r: MonotonicTime)
        requires
            millis * 1_000_000 <= u64::MAX,
        ensures
            r.0 == millis * 1_000_000,
    {
        MonotonicTime(millis * 1_000_000)
    }

    /// Whole milliseconds, rounded down.
    pub fn as_millis(&self) -> (r: u64)
        ensures
            r == self.0 / 1_000_000,
    {
        self.0 / 1_000_000
    }

    pub fn as_nanos(&self) -> (r: u64)
        ensures
            r == self.0,
    {
        self.0
    }

    pub fn from_nanos(nanos: u64) -> (r: MonotonicTime)
        ensures
            r.0 == nanos,
    {
        MonotonicTime(nanos)
    }
}

/// A time made from milliseconds gives the same milliseconds back.
pub proof fn law_millis_round_trip(millis: u64)
    requires
        millis * 1_000_000 <= u64::MAX,
    ensures
        (millis * 1_000_000) as u64 / 1_000_000 == millis,
{
}

} // verus!
