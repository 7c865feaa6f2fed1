//! Interrupt numbers.

use vstd::prelude::*;
use crate::error::ErrorCode;

verus! {

/// An interrupt request number.
#[derive(Debug, Clone, Copy, PartialEq, Eq, Structural, PartialOrd, Ord, Hash)]
pub struct Irq(pub u32);

impl Irq {
    pub fn from_raw(irq: u32) -> (r: Irq)
        ensures
            r.0 == irq,
    {
        Irq(irq)
    }

    /// The IRQ for a system-call argument; `InvalidArg` unless it fits in
    /// a `u32`.
    pub fn from_raw_isize(raw: isize) -> (r: Result<Irq, ErrorCode>)
        ensures
            0 <= raw <= u32::MAX ==> r == Ok::<Irq, ErrorCode>(Irq(raw as u32)),
            !(0 <= raw <= u32::MAX) ==> r == Err::<Irq, ErrorCode>(ErrorCode::InvalidArg),
    {
        if 0 <= raw && raw as i128 <= u32::MAX as i128 {
            Ok(Irq(raw as u32))
        } else {
            Err(ErrorCode::InvalidArg)
        }
    }

    pub fn as_raw(&self) -> (r: u32)
        ensures
            r == self.0,
    {
        self.0
    }
}

/// The largest IRQ number plus one that a matcher can name; the upper bits
/// are reserved.
pub const IRQ_MATCHER_LIMIT: u32 = 4096;

/// Which interrupts a device listens to.
#[derive(Debug, Clone, Copy, PartialEq, Eq, Structural)]
pub enum IrqMatcher {
    Static(Irq),
}

impl IrqMatcher {
    /// The raw number of the matcher; the IRQ must be below 4096.
    pub fn as_raw(&self) -> (r: u32)
        requires
            self->Static_0.0 < IRQ_MATCHER_LIMIT,
        ensures
            r == self->Static_0.0,
    {
        match self {
            IrqMatcher::Static(irq) => irq.as_raw(),
        }
    }

    /// The matcher for a system-call argument; `InvalidArg` unless it is in
    /// `0..4096`.
    pub fn from_raw_isize(raw: isize) -> (r: Result<IrqMatcher, ErrorCode>)
        ensures
            0 <= raw < 4096 ==> r == Ok::<IrqMatcher, ErrorCode>(
                IrqMatcher::Static(Irq(raw as u32)),
            ),
            !(0 <= raw < 4096) ==> r == Err::<IrqMatcher, ErrorCode>(ErrorCode::InvalidArg),
    {
        if 0 <= raw && raw < 4096 {
            Ok(IrqMatcher::Static(Irq::from_raw(raw as u32)))
        } else {
            Err(ErrorCode::InvalidArg)
        }
    }
}

/// A matcher made from a raw number gives that number back.
pub proof fn law_irq_matcher_round_trip(raw: isize)
    requires
        0 <= raw < 4096,
    ensures
        IrqMatcher::Static(Irq(raw as u32))->Static_0.0 == raw,
{
}

} // verus!
