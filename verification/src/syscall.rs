//! System call numbers and return values.

use vstd::prelude::*;
use crate::address::{DAddr, PAddr, VAddr};
use crate::error::{error_number, ErrorCode};
use crate::handle::HandleId;
use crate::message::MessageInfo;
use crate::poll::Readiness;
use crate::timer::MonotonicTime;

verus! {

pub const SYS_LOG_WRITE: u8 = 0;
pub const SYS_HANDLE_CLOSE: u8 = 1;
pub const SYS_CHANNEL_CREATE: u8 = 2;
pub const SYS_CHANNEL_SEND: u8 = 3;
pub const SYS_CHANNEL_RECV: u8 = 4;
pub const SYS_POLL_CREATE: u8 = 5;
pub const SYS_POLL_ADD: u8 = 6;
pub const SYS_POLL_UPDATE: u8 = 7;
pub const SYS_POLL_REMOVE: u8 = 8;
pub const SYS_POLL_WAIT: u8 = 9;
pub const SYS_POLL_TRY_WAIT: u8 = 10;
pub const SYS_FOLIO_ALLOC: u8 = 11;
pub const SYS_FOLIO_PIN: u8 = 12;
pub const SYS_FOLIO_PADDR: u8 = 13;
pub const SYS_VMSPACE_MAP: u8 = 14;
pub const SYS_INTERRUPT_CREATE: u8 = 15;
pub const SYS_INTERRUPT_ACK: u8 = 16;
pub const SYS_THREAD_EXIT: u8 = 17;
pub const SYS_HVSPACE_CREATE: u8 = 18;
pub const SYS_HVSPACE_MAP: u8 = 19;
pub const SYS_VCPU_CREATE: u8 = 20;
pub const SYS_VCPU_RUN: u8 = 21;
pub const SYS_THREAD_SPAWN: u8 = 22;
pub const SYS_TIMER_CREATE: u8 = 23;
pub const SYS_TIMER_SET: u8 = 24;
pub const SYS_TIMER_NOW: u8 = 25;
pub const SYS_LOG_READ: u8 = 26;

/// The page the kernel maps into every app: where the app's environment
/// is, as an address and a length.
#[derive(Debug, Copy, Clone, PartialEq, Eq, Structural)]
pub struct VsyscallPage {
    pub environ_ptr: usize,
    pub environ_len: usize,
}

/// The system call numbers of the first kernel interface.
#[derive(Debug, Copy, Clone, PartialEq, Eq, Structural)]
pub enum SyscallNumber {
    ConsoleWrite,
    ChannelSend,
    ChannelRecv,
    HandleClose,
}

impl SyscallNumber {
    /// The number of the call, in declaration order from 0.
    pub fn as_u8(self) -> (r: u8)
        ensures
            r == match self {
                SyscallNumber::ConsoleWrite => 0u8,
                SyscallNumber::ChannelSend => 1u8,
                SyscallNumber::ChannelRecv => 2u8,
                SyscallNumber::HandleClose => 3u8,
            },
    {
        match self {
            SyscallNumber::ConsoleWrite => 0,
            SyscallNumber::ChannelSend => 1,
            SyscallNumber::ChannelRecv => 2,
            SyscallNumber::HandleClose => 3,
        }
    }
}

/// A system call return value: a non-negative result or a negative error
/// code.
#[derive(Debug, Clone, Copy, PartialEq, Eq, Structural)]
pub struct RetVal(pub isize);

/// The value that packs a handle ID (bits 0-23) and a readiness set (bits
/// 24 and up).
pub open spec fn pack_handle_readiness(handle: int, readiness: int) -> int {
    readiness * 0x100_0000 + handle
}

impl RetVal {
    pub fn new(value: isize) -> (r: RetVal)
        ensures
            r.0 == value,
    {
        RetVal(value)
    }

    pub fn as_isize(&self) -> (r: isize)
        ensures
            r == self.0,
    {
        self.0
    }

    /// The return value for an error: its code.
    pub fn from_error(err: ErrorCode) -> (r: RetVal)
        ensures
            r.0 == error_number(err),
    {
        RetVal(err.as_isize())
    }

    /// The return value for a successful call that returns `value`, or for
    /// a failed one.
    pub fn from_result(value: Result<RetVal, ErrorCode>) -> (r: RetVal)
        ensures
            value is Ok ==> r == value->Ok_0,
            value is Err ==> r.0 == error_number(value->Err_0),
    {
        match value {
            Ok(v) => v,
            Err(err) => RetVal::from_error(err),
        }
    }

    /// Packs a handle ID (below `0x10000`) and a readiness set.
    pub fn from_handle_readiness(handle: HandleId, readiness: Readiness) -> (r: RetVal)
        requires
            0 <= handle.0 < 0x10000,
        ensures
            pack_handle_readiness(handle.0 as int, readiness.0 as int) <= isize::MAX ==> r.0
                == pack_handle_readiness(handle.0 as int, readiness.0 as int),
    {
        let h = handle.as_raw() as u64;
        let rd = readiness.0 as u64;
        assert(h < 0x10000 && rd < 0x100 ==> (rd << 24) | h == rd * 0x100_0000 + h) by (bit_vector);
        let v = (rd << 24u64) | h;
        #[verifier::truncate]
        let r = v as isize;
        RetVal(r)
    }

    /// Unpacks a handle ID (bits 0-23) and a readiness set (the byte at
    /// bits 24-31); the value must not be negative.
    pub fn to_handle_readiness(self) -> (r: (HandleId, Readiness))
        requires
            self.0 >= 0,
        ensures
            r.0.0 == self.0 % 0x100_0000,
            r.1.0 == (self.0 / 0x100_0000) % 0x100,
    {
        let v = self.0 as u64;
        assert(v & 0xff_ffff == v % 0x100_0000 && (v >> 24) & 0xff == (v / 0x100_0000) % 0x100) by (bit_vector);
        let handle_raw = (v & 0xff_ffff) as i32;
        let readiness = ((v >> 24u64) & 0xff) as u8;
        (HandleId::from_raw(handle_raw), Readiness::from_raw(readiness))
    }

    /// The handle ID in a return value that fits in an `i32`.
    pub fn to_handle_id(self) -> (r: HandleId)
        requires
            i32::MIN <= self.0 <= i32::MAX,
        ensures
            r.0 == self.0,
    {
        HandleId::from_raw(self.0 as i32)
    }

    pub fn from_vaddr(value: VAddr) -> (r: RetVal)
        requires
            value.0 <= isize::MAX,
        ensures
            r.0 == value.0,
    {
        RetVal(value.as_usize() as isize)
    }

    pub fn from_paddr(value: PAddr) -> (r: RetVal)
        requires
            value.0 <= isize::MAX,
        ensures
            r.0 == value.0,
    {
        RetVal(value.as_usize() as isize)
    }

    pub fn from_daddr(value: DAddr) -> (r: RetVal)
        requires
            value.0 <= isize::MAX,
        ensures
            r.0 == value.0,
    {
        RetVal(value.as_usize() as isize)
    }

    pub fn from_message_info(value: MessageInfo) -> (r: RetVal)
        ensures
            r.0 == value.0,
    {
        RetVal::new(value.0 as isize)
    }

    pub fn from_time(value: MonotonicTime) -> (r: RetVal)
        requires
            value.0 <= isize::MAX,
        ensures
            r.0 == value.0,
    {
        RetVal(value.as_nanos() as isize)
    }

    /// The time in a non-negative return value.
    pub fn to_time(self) -> (r: MonotonicTime)
        requires
            self.0 >= 0,
        ensures
            r.0 == self.0,
    {
        MonotonicTime::from_nanos(self.0 as u64)
    }

    /// A non-negative value is a success; a negative one is the error code
    /// with that number, which must name an error code.
    pub fn to_result(self) -> (r: Result<RetVal, ErrorCode>)
        requires
            self.0 < 0 ==> -27 <= self.0,
        ensures
            self.0 >= 0 ==> r == Ok::<RetVal, ErrorCode>(self),
            self.0 < 0 ==> r is Err && error_number(r->Err_0) == self.0,
    {
        if self.0 >= 0 {
            Ok(self)
        } else {
            Err(ErrorCode::from_isize(self.0))
        }
    }
}

/// Packing a handle ID below `0x10000` with a readiness set and unpacking
/// the result gives both back (where the packed value fits in an `isize`,
/// as it always does on 64-bit machines).
pub proof fn law_handle_readiness_round_trip(handle: HandleId, readiness: Readiness)
    requires
        0 <= handle.0 < 0x10000,
    ensures
        ({
            let v = pack_handle_readiness(handle.0 as int, readiness.0 as int);
            &&& 0 <= v < 0x1_0000_0000
            &&& v % 0x100_0000 == handle.0
            &&& (v / 0x100_0000) % 0x100 == readiness.0
        }),
{
    let h = handle.0 as int;
    let r = readiness.0 as int;
    let v = r * 0x100_0000 + h;
    assert(v % 0x100_0000 == h) by (nonlinear_arith)
        requires
            v == r * 0x100_0000 + h,
            0 <= h < 0x10000,
            0 <= r,
    ;
    assert(v / 0x100_0000 == r) by (nonlinear_arith)
        requires
            v == r * 0x100_0000 + h,
            0 <= h < 0x10000,
            0 <= r,
    ;
}

/// A failed call's return value turns back into the same error.
pub proof fn law_error_return_round_trip(err: ErrorCode)
    ensures
        error_number(err) < 0,
        -27 <= error_number(err),
{
}

} // verus!
