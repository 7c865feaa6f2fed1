//! Messages in the earlier IPC layout: a 32-bit metadata word (message ID,
//! handle count, data length) and a fixed buffer the data travels in.

use vstd::prelude::*;
use crate::error::ErrorCode;

verus! {

/// A message: a string or bytes.
#[derive(Debug, Clone, Copy)]
pub enum Message<'a> {
    /// A message that contains a string.
    String(&'a str),
    /// A message that contains a byte array.
    Bytes(&'a [u8]),
}

/// The metadata of a message: the ID in bits 16-31, the number of handles
/// in bits 14-15 and the data length in bits 0-13.
#[derive(Debug, Clone, Copy, PartialEq, Eq, Structural)]
pub struct MessageInfo(pub u32);

/// The packed metadata.
pub open spec fn info_bits(id: u32, len: u16, num_handles: u8) -> u32 {
    (id << 16u32) | ((num_handles as u32) << 14u32) | (len as u32)
}

impl MessageInfo {
    pub fn from_raw(raw: u32) -> (r: MessageInfo)
        ensures
            r.0 == raw,
    {
        MessageInfo(raw)
    }

    /// Packs an ID (below 2^16), a data length (below 2^14) and a handle
    /// count (below 4).
    pub fn new(id: u32, len: u16, num_handles: u8) -> (r: MessageInfo)
        requires
            id < 0x1_0000,
            len < 0x4000,
            num_handles < 4,
        ensures
            r.0 == info_bits(id, len, num_handles),
    {
        MessageInfo((id << 16u32) | ((num_handles as u32) << 14u32) | (len as u32))
    }

    /// The whole metadata word.
    pub fn all(self) -> (r: u32)
        ensures
            r == self.0,
    {
        self.0
    }

    /// The ID and handle-count bits, in place.
    pub fn id_and_num_handles_bits(self) -> (r: u32)
        ensures
            r == self.0 & 0xffff_c000,
    {
        self.0 & 0xffff_c000
    }

    /// The data length.
    pub fn len(self) -> (r: u16)
        ensures
            r == self.0 & 0x3fff,
    {
        let v = self.0;
        assert(v & 0x3fff <= 0x3fff) by (bit_vector);
        (v & 0x3fff) as u16
    }
}

/// The packed fields come back out: the length, and the ID and handle
/// count in their bits.
pub proof fn law_message_info_fields(id: u32, len: u16, num_handles: u8)
    requires
        id < 0x1_0000,
        len < 0x4000,
        num_handles < 4,
    ensures
        info_bits(id, len, num_handles) & 0x3fff == len,
        info_bits(id, len, num_handles) & 0xffff_c000 == (id << 16u32) | ((num_handles as u32) << 14u32),
{
    let n = num_handles as u32;
    let l = len as u32;
    assert(((id << 16u32) | (n << 14u32) | l) & 0x3fff == l && ((id << 16u32) | (n << 14u32) | l) & 0xffff_c000
        == (id << 16u32) | (n << 14u32)) by (bit_vector)
        requires
            id < 0x1_0000,
            l < 0x4000,
            n < 4,
    ;
}

/// The buffer a message's data travels in.
pub struct MessageBuffer {
    pub data: [u8; 4095],
    pub pad: u8,
}

impl MessageBuffer {
    /// A buffer of zeros.
    pub fn new() -> (r: MessageBuffer)
        ensures
            forall|i: int| 0 <= i < 4095 ==> r.data@[i] == 0,
    {
        MessageBuffer { data: [0u8; 4095], pad: 0 }
    }
}

/// A type that can be read out of a message buffer.
pub trait Deserialize: Sized {
    fn deserialize(msgbuffer: &MessageBuffer) -> Result<Self, ErrorCode>;
}

/// A type that can be written into a message buffer; gives the message's
/// metadata.
pub trait Serialize {
    fn serialize(self, msgbuffer: &mut MessageBuffer) -> Result<MessageInfo, ErrorCode>;
}

} // verus!
