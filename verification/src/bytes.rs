//! Little- and big-endian encodings of integers as byte sequences.

use vstd::prelude::*;

verus! {

pub open spec fn le16(s: Seq<u8>) -> int {
    s[0] + s[1] * 0x100
}

pub open spec fn le32(s: Seq<u8>) -> int {
    s[0] + s[1] * 0x100 + s[2] * 0x1_0000 + s[3] * 0x100_0000
}

pub open spec fn le64(s: Seq<u8>) -> int {
    le32(s) + le32(s.subrange(4, 8)) * 0x1_0000_0000
}

pub open spec fn be16(s: Seq<u8>) -> int {
    s[0] * 0x100 + s[1]
}

pub open spec fn be32(s: Seq<u8>) -> int {
    s[0] * 0x100_0000 + s[1] * 0x1_0000 + s[2] * 0x100 + s[3]
}

pub open spec fn le16_bytes(v: int) -> Seq<u8> {
    seq![(v % 0x100) as u8, ((v / 0x100) % 0x100) as u8]
}

pub open spec fn le32_bytes(v: int) -> Seq<u8> {
    seq![
        (v % 0x100) as u8,
        ((v / 0x100) % 0x100) as u8,
        ((v / 0x1_0000) % 0x100) as u8,
        ((v / 0x100_0000) % 0x100) as u8,
    ]
}

pub open spec fn le64_bytes(v: int) -> Seq<u8> {
    le32_bytes(v % 0x1_0000_0000) + le32_bytes(v / 0x1_0000_0000)
}

pub open spec fn be16_bytes(v: int) -> Seq<u8> {
    seq![((v / 0x100) % 0x100) as u8, (v % 0x100) as u8]
}

pub open spec fn be32_bytes(v: int) -> Seq<u8> {
    seq![
        ((v / 0x100_0000) % 0x100) as u8,
        ((v / 0x1_0000) % 0x100) as u8,
        ((v / 0x100) % 0x100) as u8,
        (v % 0x100) as u8,
    ]
}

pub fn u16_from_le(b0: u8, b1: u8) -> (r: u16)
    ensures
        r == le16(seq![b0, b1]),
{
    (b0 as u16) + (b1 as u16) * 0x100
}

pub fn u32_from_le(b0: u8, b1: u8, b2: u8, b3: u8) -> (r: u32)
    ensures
        r == le32(seq![b0, b1, b2, b3]),
{
    (b0 as u32) + (b1 as u32) * 0x100 + (b2 as u32) * 0x1_0000 + (b3 as u32) * 0x100_0000
}

pub fn u16_from_be(b0: u8, b1: u8) -> (r: u16)
    ensures
        r == be16(seq![b0, b1]),
{
    (b0 as u16) * 0x100 + (b1 as u16)
}

pub fn u32_from_be(b0: u8, b1: u8, b2: u8, b3: u8) -> (r: u32)
    ensures
        r == be32(seq![b0, b1, b2, b3]),
{
    (b0 as u32) * 0x100_0000 + (b1 as u32) * 0x1_0000 + (b2 as u32) * 0x100 + (b3 as u32)
}

/// Appends the little-endian bytes of `v`.
pub fn push_le16(out: &mut Vec<u8>, v: u16)
    ensures
        final(out)@ == old(out)@ + le16_bytes(v as int),
{
    out.push((v % 0x100) as u8);
    out.push(((v / 0x100) % 0x100) as u8);
    assert(final(out)@ =~= old(out)@ + le16_bytes(v as int));
}

/// Appends the little-endian bytes of `v`.
pub fn push_le32(out: &mut Vec<u8>, v: u32)
    ensures
        final(out)@ == old(out)@ + le32_bytes(v as int),
{
    out.push((v % 0x100) as u8);
    out.push(((v / 0x100) % 0x100) as u8);
    out.push(((v / 0x1_0000) % 0x100) as u8);
    out.push(((v / 0x100_0000) % 0x100) as u8);
    assert(final(out)@ =~= old(out)@ + le32_bytes(v as int));
}

/// Appends the little-endian bytes of `v`.
pub fn push_le64(out: &mut Vec<u8>, v: u64)
    ensures
        final(out)@ == old(out)@ + le64_bytes(v as int),
{
    let ghost start = out@;
    push_le32(out, (v % 0x1_0000_0000) as u32);
    push_le32(out, (v / 0x1_0000_0000) as u32);
    assert(out@ =~= start + le64_bytes(v as int));
}

/// Appends the big-endian bytes of `v`.
pub fn push_be16(out: &mut Vec<u8>, v: u16)
    ensures
        final(out)@ == old(out)@ + be16_bytes(v as int),
{
    out.push(((v / 0x100) % 0x100) as u8);
    out.push((v % 0x100) as u8);
    assert(final(out)@ =~= old(out)@ + be16_bytes(v as int));
}

/// Appends the big-endian bytes of `v`.
pub fn push_be32(out: &mut Vec<u8>, v: u32)
    ensures
        final(out)@ == old(out)@ + be32_bytes(v as int),
{
    out.push(((v / 0x100_0000) % 0x100) as u8);
    out.push(((v / 0x1_0000) % 0x100) as u8);
    out.push(((v / 0x100) % 0x100) as u8);
    out.push((v % 0x100) as u8);
    assert(final(out)@ =~= old(out)@ + be32_bytes(v as int));
}

/// Appends all of `data`.
pub fn push_all(out: &mut Vec<u8>, data: &[u8])
    ensures
        final(out)@ == old(out)@ + data@,
{
    let ghost start = out@;
    let mut i: usize = 0;
    while i < data.len()
        invariant
            0 <= i <= data@.len(),
            out@ == start + data@.take(i as int),
        decreases data@.len() - i,
    {
        out.push(data[i]);
        i += 1;
        assert(out@ =~= start + data@.take(i as int));
    }
    assert(data@.take(data@.len() as int) =~= data@);
}

/// Decoding the encoding of a value gives the value back.
pub proof fn law_encodings_round_trip(a: u16, b: u32)
    ensures
        le16(le16_bytes(a as int)) == a,
        be16(be16_bytes(a as int)) == a,
        le32(le32_bytes(b as int)) == b,
        be32(be32_bytes(b as int)) == b,
{
    assert((a % 256) + ((a / 256) % 256) * 256 == a) by (bit_vector);
    assert(((a / 256) % 256) * 256 + (a % 256) == a) by (bit_vector);
    assert((b % 256) + ((b / 256) % 256) * 256 + ((b / 65536) % 256) * 65536 + ((b / 16777216) % 256)
        * 16777216 == b) by (bit_vector);
    assert(((b / 16777216) % 256) * 16777216 + ((b / 65536) % 256) * 65536 + ((b / 256) % 256) * 256 + (b
        % 256) == b) by (bit_vector);
}

/// The little-endian `u16` at `off` in `b`.
pub fn read_le16(b: &[u8], off: usize) -> (r: u16)
    requires
        off + 2 <= b@.len(),
    ensures
        r == le16(b@.subrange(off as int, off + 2)),
{
    u16_from_le(b[off], b[off + 1])
}

/// The little-endian `u32` at `off` in `b`.
pub fn read_le32(b: &[u8], off: usize) -> (r: u32)
    requires
        off + 4 <= b@.len(),
    ensures
        r == le32(b@.subrange(off as int, off + 4)),
{
    u32_from_le(b[off], b[off + 1], b[off + 2], b[off + 3])
}

/// The little-endian `u64` at `off` in `b`.
pub fn read_le64(b: &[u8], off: usize) -> (r: u64)
    requires
        off + 8 <= b@.len(),
    ensures
        r == le64(b@.subrange(off as int, off + 8)),
{
    let lo = u32_from_le(b[off], b[off + 1], b[off + 2], b[off + 3]) as u64;
    let hi = u32_from_le(b[off + 4], b[off + 5], b[off + 6], b[off + 7]) as u64;
    proof {
        assert(b@.subrange(off as int, off + 8).subrange(4, 8) =~= b@.subrange(off + 4, off + 8));
    }
    lo + hi * 0x1_0000_0000
}

} // verus!
