//! Handles: IDs and rights.

use vstd::prelude::*;

verus! {

/// The width of a handle ID in bits. IDs are 20 bits wide so that the
/// remaining bits can carry other data, e.g. in system call return values.
pub const HANDLE_ID_BITS: usize = 20;

/// The mask that keeps the ID bits of a raw value.
pub const HANDLE_ID_MASK: i32 = 0xf_ffff;

/// A handle ID.
#[derive(Debug, Clone, Copy, PartialEq, Eq, Structural, PartialOrd, Ord, Hash)]
pub struct HandleId(pub i32);

impl HandleId {
    /// Creates a handle ID from a raw integer.
    pub fn from_raw(raw: i32) -> (r: HandleId)
        ensures
            r.0 == raw,
    {
        HandleId(raw)
    }

    pub fn as_raw(&self) -> (r: i32)
        ensures
            r == self.0,
    {
        self.0
    }

    pub fn as_i32(self) -> (r: i32)
        ensures
            r == self.0,
    {
        self.0
    }
}

/// Allowed operations on a handle, as a bit set.
#[derive(Debug, Clone, Copy, PartialEq, Eq, Structural, Hash)]
pub struct HandleRights(pub u8);

pub const HANDLE_RIGHT_READ: u8 = 1;
pub const HANDLE_RIGHT_WRITE: u8 = 2;
pub const HANDLE_RIGHT_POLL: u8 = 4;

impl HandleRights {
    pub fn read() -> (r: HandleRights)
        ensures
            r.0 == HANDLE_RIGHT_READ,
    {
        HandleRights(HANDLE_RIGHT_READ)
    }

    pub fn write() -> (r: HandleRights)
        ensures
            r.0 == HANDLE_RIGHT_WRITE,
    {
        HandleRights(HANDLE_RIGHT_WRITE)
    }

    pub fn poll() -> (r: HandleRights)
        ensures
            r.0 == HANDLE_RIGHT_POLL,
    {
        HandleRights(HANDLE_RIGHT_POLL)
    }

    /// Whether every right in `required` is in `self`.
    pub fn is_capable(&self, required: HandleRights) -> (r: bool)
        ensures
            r == (self.0 & required.0 == required.0),
    {
        self.0 & required.0 == required.0
    }

    /// The union of two sets of rights.
    pub fn bitor(self, rhs: HandleRights) -> (r: HandleRights)
        ensures
            r.0 == self.0 | rhs.0,
    {
        HandleRights(self.0 | rhs.0)
    }
}

/// A set of rights is capable of each of its parts.
pub proof fn law_rights_union_capable(a: HandleRights, b: HandleRights)
    ensures
        (a.0 | b.0) & a.0 == a.0,
        (a.0 | b.0) & b.0 == b.0,
{
    let x = a.0;
    let y = b.0;
    assert((x | y) & x == x && (x | y) & y == y) by (bit_vector);
}

/// A handle ID with extra bits above the ID bits.
#[derive(Debug, Clone, Copy, PartialEq, Eq, Structural, Hash)]
pub struct HandleIdWithBits(pub i32);

impl HandleIdWithBits {
    pub fn from_raw(id: i32) -> (r: HandleIdWithBits)
        ensures
            r.0 == id,
    {
        HandleIdWithBits(id)
    }

    /// The ID bits.
    pub fn id(self) -> (r: HandleId)
        ensures
            r.0 == self.0 & HANDLE_ID_MASK,
            0 <= r.0 < 0x10_0000,
    {
        let v = self.0;
        assert(0 <= v & 0xf_ffff < 0x10_0000) by (bit_vector);
        HandleId::from_raw(v & HANDLE_ID_MASK)
    }

    /// The bits above the ID, truncated to a byte.
    pub fn bits(self) -> (r: u8)
        ensures
            r == ((self.0 >> 20) & 0xff),
    {
        let v = self.0;
        let b = v >> 20i32;
        #[verifier::truncate]
        let r = b as u8;
        assert(r == (v >> 20) & 0xff) by (bit_vector)
            requires
                b == v >> 20,
                r == b as u8,
        ;
        r
    }
}

} // verus!
