//! Error codes returned by the kernel.

use vstd::prelude::*;

verus! {

/// An error code; as a system-call return value it is the negative number
/// given by `ErrorCode::as_isize`.
#[derive(Debug, Clone, Copy, PartialEq, Eq, Structural, Hash)]
pub enum ErrorCode {
    NotSupported,
    NotAllowed,
    NotFound,
    InvalidMessageKind,
    InvalidSyscall,
    UnexpectedType,
    AlreadyExists,
    TooManyHandles,
    HandleNotMovable,
    NoPeer,
    OutOfMemory,
    Empty,
    Full,
    Closed,
    InvalidMessage,
    TooLongUri,
    InvalidArg,
    InvalidHandle,
    InvalidErrorCode,
    TooLarge,
    NotADevice,
    AlreadyMapped,
    InvalidState,
    InvalidUri,
    AlreadyHeld,
    TooSmall,
    InUse,
}

/// The number of each error code: `-1` for `NotSupported` down to `-27`
/// for `InUse`, in declaration order.
pub open spec fn error_number(e: ErrorCode) -> int {
    match e {
        ErrorCode::NotSupported => -1,
        ErrorCode::NotAllowed => -2,
        ErrorCode::NotFound => -3,
        ErrorCode::InvalidMessageKind => -4,
        ErrorCode::InvalidSyscall => -5,
        ErrorCode::UnexpectedType => -6,
        ErrorCode::AlreadyExists => -7,
        ErrorCode::TooManyHandles => -8,
        ErrorCode::HandleNotMovable => -9,
        ErrorCode::NoPeer => -10,
        ErrorCode::OutOfMemory => -11,
        ErrorCode::Empty => -12,
        ErrorCode::Full => -13,
        ErrorCode::Closed => -14,
        ErrorCode::InvalidMessage => -15,
        ErrorCode::TooLongUri => -16,
        ErrorCode::InvalidArg => -17,
        ErrorCode::InvalidHandle => -18,
        ErrorCode::InvalidErrorCode => -19,
        ErrorCode::TooLarge => -20,
        ErrorCode::NotADevice => -21,
        ErrorCode::AlreadyMapped => -22,
        ErrorCode::InvalidState => -23,
        ErrorCode::InvalidUri => -24,
        ErrorCode::AlreadyHeld => -25,
        ErrorCode::TooSmall => -26,
        ErrorCode::InUse => -27,
    }
}

impl ErrorCode {
    /// The code's number.
    pub fn as_isize(self) -> (r: isize)
        ensures
            r == error_number(self),
    {
        match self {
            ErrorCode::NotSupported => -1,
            ErrorCode::NotAllowed => -2,
            ErrorCode::NotFound => -3,
            ErrorCode::InvalidMessageKind => -4,
            ErrorCode::InvalidSyscall => -5,
            ErrorCode::UnexpectedType => -6,
            ErrorCode::AlreadyExists => -7,
            ErrorCode::TooManyHandles => -8,
            ErrorCode::HandleNotMovable => -9,
            ErrorCode::NoPeer => -10,
            ErrorCode::OutOfMemory => -11,
            ErrorCode::Empty => -12,
            ErrorCode::Full => -13,
            ErrorCode::Closed => -14,
            ErrorCode::InvalidMessage => -15,
            ErrorCode::TooLongUri => -16,
            ErrorCode::InvalidArg => -17,
            ErrorCode::InvalidHandle => -18,
            ErrorCode::InvalidErrorCode => -19,
            ErrorCode::TooLarge => -20,
            ErrorCode::NotADevice => -21,
            ErrorCode::AlreadyMapped => -22,
            ErrorCode::InvalidState => -23,
            ErrorCode::InvalidUri => -24,
            ErrorCode::AlreadyHeld => -25,
            ErrorCode::TooSmall => -26,
            ErrorCode::InUse => -27,
        }
    }

    /// The error code for a raw number; any number outside `-27..=-1`
    /// gives `InvalidErrorCode`.
    pub fn from_isize(value: isize) -> (r: ErrorCode)
        ensures
            -27 <= value <= -1 ==> error_number(r) == value,
            !(-27 <= value <= -1) ==> r == ErrorCode::InvalidErrorCode,
    {
        match value {
            -1 => ErrorCode::NotSupported,
            -2 => ErrorCode::NotAllowed,
            -3 => ErrorCode::NotFound,
            -4 => ErrorCode::InvalidMessageKind,
            -5 => ErrorCode::InvalidSyscall,
            -6 => ErrorCode::UnexpectedType,
            -7 => ErrorCode::AlreadyExists,
            -8 => ErrorCode::TooManyHandles,
            -9 => ErrorCode::HandleNotMovable,
            -10 => ErrorCode::NoPeer,
            -11 => ErrorCode::OutOfMemory,
            -12 => ErrorCode::Empty,
            -13 => ErrorCode::Full,
            -14 => ErrorCode::Closed,
            -15 => ErrorCode::InvalidMessage,
            -16 => ErrorCode::TooLongUri,
            -17 => ErrorCode::InvalidArg,
            -18 => ErrorCode::InvalidHandle,
            -19 => ErrorCode::InvalidErrorCode,
            -20 => ErrorCode::TooLarge,
            -21 => ErrorCode::NotADevice,
            -22 => ErrorCode::AlreadyMapped,
            -23 => ErrorCode::InvalidState,
            -24 => ErrorCode::InvalidUri,
            -25 => ErrorCode::AlreadyHeld,
            -26 => ErrorCode::TooSmall,
            -27 => ErrorCode::InUse,
            _ => ErrorCode::InvalidErrorCode,
        }
    }
}

/// Turning an error code into its number and back gives the same code.
pub proof fn law_error_code_round_trip(e: ErrorCode)
    ensures
        -27 <= error_number(e) <= -1,
        forall|f: ErrorCode| error_number(f) == error_number(e) ==> f == e,
{
}

} // verus!
