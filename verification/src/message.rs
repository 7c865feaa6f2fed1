//! Message metadata for inter-process communication.

use vstd::prelude::*;
use crate::error::ErrorCode;

verus! {

pub const MESSAGE_NUM_HANDLES_MAX: usize = 3;
pub const MESSAGE_DATA_LEN_MAX: usize = 4096;

/// The message metadata: the kind in bits 18 and up, the number of handles
/// in bits 16-17 and the data length in bits 0-15.
#[derive(Clone, Copy, PartialEq, Eq, Structural, Debug)]
pub struct MessageInfo(pub i32);

/// The packed metadata for a kind, a data length and a handle count.
pub open spec fn message_info_bits(kind: i32, data_len: u16, num_handles: u8) -> i32 {
    (kind << 18) | ((num_handles as i32) << 16) | (data_len as i32)
}

impl MessageInfo {
    /// Packs a kind, a data length and a handle count (at most three).
    pub fn new(kind: i32, data_len: u16, num_handles: u8) -> (r: MessageInfo)
        requires
            num_handles <= MESSAGE_NUM_HANDLES_MAX,
        ensures
            r.0 == message_info_bits(kind, data_len, num_handles),
    {
        MessageInfo((kind << 18i32) | ((num_handles as i32) << 16i32) | (data_len as i32))
    }

    /// The metadata for a system-call argument; `InvalidArg` unless it is a
    /// non-negative `i32`.
    pub fn from_raw_isize(raw: isize) -> (r: Result<MessageInfo, ErrorCode>)
        ensures
            0 <= raw <= i32::MAX ==> r == Ok::<MessageInfo, ErrorCode>(MessageInfo(raw as i32)),
            !(0 <= raw <= i32::MAX) ==> r == Err::<MessageInfo, ErrorCode>(ErrorCode::InvalidArg),
    {
        if 0 <= raw && raw as i128 <= i32::MAX as i128 {
            Ok(MessageInfo(raw as i32))
        } else {
            Err(ErrorCode::InvalidArg)
        }
    }

    pub fn as_raw(&self) -> (r: isize)
        ensures
            r == self.0,
    {
        self.0 as isize
    }

    /// The message kind (bits 18 and up, with the sign), as a `usize`: a
    /// negative kind wraps around to the top of the `usize` range.
    pub fn kind(self) -> (r: usize)
        ensures
            self.0 >= 0 ==> r == self.0 >> 18,
            self.0 < 0 ==> r == (self.0 >> 18) + usize::MAX + 1,
    {
        let v = self.0;
        let k = v >> 18i32;
        assert(v >= 0 ==> k >= 0) by (bit_vector)
            requires
                k == v >> 18,
        ;
        assert(v < 0 ==> -8192 <= k < 0) by (bit_vector)
            requires
                k == v >> 18,
        ;
        if k >= 0 {
            k as usize
        } else {
            usize::MAX - ((-1 - k) as usize)
        }
    }

    /// The data length (bits 0-15).
    pub fn data_len(self) -> (r: usize)
        ensures
            r == self.0 & 0xffff,
    {
        let v = self.0;
        assert(0 <= v & 0xffff <= 0xffff) by (bit_vector);
        (v & 0xffff) as usize
    }

    /// The number of handles (bits 16-17).
    pub fn num_handles(self) -> (r: usize)
        ensures
            r == (self.0 >> 16) & 3,
    {
        let v = self.0;
        assert(0 <= (v >> 16) & 3 <= 3) by (bit_vector);
        ((v >> 16i32) & 3) as usize
    }
}

/// Unpacking packed metadata gives back its kind, data length and handle
/// count, for kinds below 2^13 (those that fit in the kind bits).
pub proof fn law_message_info_round_trip(kind: i32, data_len: u16, num_handles: u8)
    requires
        0 <= kind < 0x2000,
        num_handles <= 3,
    ensures
        message_info_bits(kind, data_len, num_handles) >= 0,
        message_info_bits(kind, data_len, num_handles) >> 18 == kind,
        message_info_bits(kind, data_len, num_handles) & 0xffff == data_len,
        (message_info_bits(kind, data_len, num_handles) >> 16) & 3 == num_handles,
{
    let n = num_handles as i32;
    let d = data_len as i32;
    assert(0 <= kind < 0x2000 && 0 <= n <= 3 && 0 <= d <= 0xffff ==> {
        let v = (kind << 18) | (n << 16) | d;
        &&& v >= 0
        &&& v >> 18 == kind
        &&& v & 0xffff == d
        &&& (v >> 16) & 3 == n
    }) by (bit_vector);
}

} // verus!
