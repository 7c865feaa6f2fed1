//! The guest's physical memory: a contiguous RAM region starting at a base
//! guest-physical address.

use vstd::prelude::*;
use crate::address::GPAddr;
use crate::bytes::{le16, le32, le64, le16_bytes, le32_bytes, le64_bytes, u16_from_le, u32_from_le, push_le16, push_le32, push_le64};

verus! {

/// Errors from guest memory accesses.
#[derive(Debug, Clone, Copy, PartialEq, Eq, Structural)]
pub enum GuestMemoryError {
    /// The accessed range is not within the guest's RAM.
    OutOfRange,
}

/// The guest's RAM: `ram[i]` is the byte at guest-physical `base + i`.
pub struct GuestMemory {
    pub base: usize,
    pub ram: Vec<u8>,
}

/// `ram` with `data` written from offset `off`.
pub open spec fn overwrite(ram: Seq<u8>, off: int, data: Seq<u8>) -> Seq<u8> {
    Seq::new(ram.len(), |i: int| if off <= i < off + data.len() { data[i - off] } else { ram[i] })
}

impl GuestMemory {
    /// The whole RAM lies below the top of the address space.
    pub open spec fn wf(&self) -> bool {
        self.base + self.ram@.len() <= usize::MAX
    }

    /// Whether `[addr, addr + len)` lies within the RAM.
    pub open spec fn in_range(&self, addr: int, len: int) -> bool {
        self.base <= addr && 0 <= len && addr + len <= self.base + self.ram@.len()
    }

    /// The `len` bytes at `addr`.
    pub open spec fn bytes(&self, addr: int, len: int) -> Seq<u8> {
        self.ram@.subrange(addr - self.base, addr - self.base + len)
    }

    /// The byte at `addr`, where it is within the RAM.
    pub open spec fn byte_at(&self, addr: int) -> Option<u8> {
        if self.in_range(addr, 1) {
            Some(self.ram@[addr - self.base])
        } else {
            None
        }
    }

    /// The RAM after writing `data` at `addr`.
    pub open spec fn written(&self, addr: int, data: Seq<u8>) -> Seq<u8> {
        overwrite(self.ram@, addr - self.base, data)
    }

    /// A zeroed RAM of `size` bytes at `base`; it must lie below the top of
    /// the address space.
    pub fn new(base: GPAddr, size: usize) -> (r: Result<GuestMemory, GuestMemoryError>)
        ensures
            base.0 + size <= usize::MAX ==> r is Ok && r->Ok_0.wf() && r->Ok_0.base == base.0
                && r->Ok_0.ram@ == Seq::new(size as nat, |i: int| 0u8),
            base.0 + size > usize::MAX ==> r == Err::<GuestMemory, GuestMemoryError>(
                GuestMemoryError::OutOfRange,
            ),
    {
        if base.0 > usize::MAX - size {
            return Err(GuestMemoryError::OutOfRange);
        }
        let mut ram: Vec<u8> = Vec::with_capacity(size);
        let mut i: usize = 0;
        while i < size
            invariant
                0 <= i <= size,
                ram@ == Seq::new(i as nat, |j: int| 0u8),
            decreases size - i,
        {
            ram.push(0);
            i += 1;
            assert(ram@ =~= Seq::new(i as nat, |j: int| 0u8));
        }
        Ok(GuestMemory { base: base.0, ram })
    }

    pub fn base_gpaddr(&self) -> (r: GPAddr)
        ensures
            r.0 == self.base,
    {
        GPAddr::new(self.base)
    }

    pub fn size(&self) -> (r: usize)
        ensures
            r == self.ram@.len(),
    {
        self.ram.len()
    }

    /// The offset of `[addr, addr + len)` in the RAM, where it lies within.
    fn offset_of(&self, addr: usize, len: usize) -> (r: Option<usize>)
        requires
            self.wf(),
        ensures
            self.in_range(addr as int, len as int) ==> r == Some((addr - self.base) as usize),
            !self.in_range(addr as int, len as int) ==> r is None,
    {
        if addr < self.base {
            return None;
        }
        let off = addr - self.base;
        if off > self.ram.len() || len > self.ram.len() - off {
            return None;
        }
        Some(off)
    }

    /// Copies out the `len` bytes at `addr`.
    pub fn read_bytes(&self, addr: GPAddr, len: usize) -> (r: Result<Vec<u8>, GuestMemoryError>)
        requires
            self.wf(),
        ensures
            r is Ok <==> self.in_range(addr.0 as int, len as int),
            r is Ok ==> r->Ok_0@ == self.bytes(addr.0 as int, len as int),
            r is Err ==> r->Err_0 == GuestMemoryError::OutOfRange,
    {
        let off = match self.offset_of(addr.0, len) {
            Some(off) => off,
            None => return Err(GuestMemoryError::OutOfRange),
        };
        let slice = vstd::slice::slice_subrange(self.ram.as_slice(), off, off + len);
        Ok(vstd::slice::slice_to_vec(slice))
    }

    /// Writes `data` at `addr`; nothing is written where the range is not
    /// within the RAM.
    pub fn write_bytes(&mut self, addr: GPAddr, data: &[u8]) -> (r: Result<(), GuestMemoryError>)
        requires
            old(self).wf(),
        ensures
            final(self).base == old(self).base,
            final(self).wf(),
            r is Ok <==> old(self).in_range(addr.0 as int, data@.len() as int),
            r is Ok ==> final(self).ram@ == old(self).written(addr.0 as int, data@),
            r is Err ==> final(self).ram@ == old(self).ram@ && r->Err_0
                == GuestMemoryError::OutOfRange,
    {
        let off = match self.offset_of(addr.0, data.len()) {
            Some(off) => off,
            None => return Err(GuestMemoryError::OutOfRange),
        };
        let ghost old_ram = self.ram@;
        let mut i: usize = 0;
        while i < data.len()
            invariant
                0 <= i <= data@.len(),
                off + data@.len() <= self.ram@.len(),
                self.base + self.ram@.len() <= usize::MAX,
                self.base == old(self).base,
                self.ram@.len() == old_ram.len(),
                forall|j: int|
                    0 <= j < self.ram@.len() ==> #[trigger] self.ram@[j] == (if off <= j < off + i {
                        data@[j - off]
                    } else {
                        old_ram[j]
                    }),
            decreases data@.len() - i,
        {
            self.ram.set(off + i, data[i]);
            i += 1;
        }
        assert(self.ram@ =~= overwrite(old_ram, off as int, data@));
        Ok(())
    }

    /// Reads a little-endian `u16`.
    pub fn read_u16(&self, addr: GPAddr) -> (r: Result<u16, GuestMemoryError>)
        requires
            self.wf(),
        ensures
            r is Ok <==> self.in_range(addr.0 as int, 2),
            r is Ok ==> r->Ok_0 == le16(self.bytes(addr.0 as int, 2)),
    {
        let b = self.read_bytes(addr, 2)?;
        Ok(u16_from_le(b[0], b[1]))
    }

    /// Reads a little-endian `u32`.
    pub fn read_u32(&self, addr: GPAddr) -> (r: Result<u32, GuestMemoryError>)
        requires
            self.wf(),
        ensures
            r is Ok <==> self.in_range(addr.0 as int, 4),
            r is Ok ==> r->Ok_0 == le32(self.bytes(addr.0 as int, 4)),
    {
        let b = self.read_bytes(addr, 4)?;
        Ok(u32_from_le(b[0], b[1], b[2], b[3]))
    }

    /// Reads a little-endian `u64`.
    pub fn read_u64(&self, addr: GPAddr) -> (r: Result<u64, GuestMemoryError>)
        requires
            self.wf(),
        ensures
            r is Ok <==> self.in_range(addr.0 as int, 8),
            r is Ok ==> r->Ok_0 == le64(self.bytes(addr.0 as int, 8)),
    {
        let b = self.read_bytes(addr, 8)?;
        let lo = u32_from_le(b[0], b[1], b[2], b[3]);
        let hi = u32_from_le(b[4], b[5], b[6], b[7]);
        proof {
            let s = self.bytes(addr.0 as int, 8);
            assert(s.subrange(4, 8) =~= seq![b[4], b[5], b[6], b[7]]);
        }
        Ok((lo as u64) + (hi as u64) * 0x1_0000_0000)
    }

    /// Writes a little-endian `u16`.
    pub fn write_u16(&mut self, addr: GPAddr, v: u16) -> (r: Result<(), GuestMemoryError>)
        requires
            old(self).wf(),
        ensures
            final(self).base == old(self).base,
            final(self).wf(),
            r is Ok <==> old(self).in_range(addr.0 as int, 2),
            r is Ok ==> final(self).ram@ == old(self).written(addr.0 as int, le16_bytes(v as int)),
            r is Err ==> final(self).ram@ == old(self).ram@,
    {
        let mut b: Vec<u8> = Vec::new();
        push_le16(&mut b, v);
        self.write_bytes(addr, b.as_slice())
    }

    /// Writes a little-endian `u32`.
    pub fn write_u32(&mut self, addr: GPAddr, v: u32) -> (r: Result<(), GuestMemoryError>)
        requires
            old(self).wf(),
        ensures
            final(self).base == old(self).base,
            final(self).wf(),
            r is Ok <==> old(self).in_range(addr.0 as int, 4),
            r is Ok ==> final(self).ram@ == old(self).written(addr.0 as int, le32_bytes(v as int)),
            r is Err ==> final(self).ram@ == old(self).ram@,
    {
        let mut b: Vec<u8> = Vec::new();
        push_le32(&mut b, v);
        self.write_bytes(addr, b.as_slice())
    }

    /// Writes a little-endian `u64`.
    pub fn write_u64(&mut self, addr: GPAddr, v: u64) -> (r: Result<(), GuestMemoryError>)
        requires
            old(self).wf(),
        ensures
            final(self).base == old(self).base,
            final(self).wf(),
            r is Ok <==> old(self).in_range(addr.0 as int, 8),
            r is Ok ==> final(self).ram@ == old(self).written(addr.0 as int, le64_bytes(v as int)),
            r is Err ==> final(self).ram@ == old(self).ram@,
    {
        let mut b: Vec<u8> = Vec::new();
        push_le64(&mut b, v);
        self.write_bytes(addr, b.as_slice())
    }
}

/// Reading back what was just written gives the written bytes.
pub proof fn law_write_then_read(m: GuestMemory, addr: int, data: Seq<u8>)
    requires
        m.wf(),
        m.in_range(addr, data.len() as int),
    ensures
        overwrite(m.ram@, addr - m.base, data).subrange(addr - m.base, addr - m.base + data.len())
            == data,
{
    assert(overwrite(m.ram@, addr - m.base, data).subrange(
        addr - m.base,
        addr - m.base + data.len(),
    ) =~= data);
}

/// Writing at one range leaves the bytes outside it unchanged.
pub proof fn law_write_keeps_other_bytes(m: GuestMemory, addr: int, data: Seq<u8>, other: int)
    requires
        m.wf(),
        m.in_range(addr, data.len() as int),
        m.in_range(other, 1),
        !(addr <= other < addr + data.len()),
    ensures
        overwrite(m.ram@, addr - m.base, data)[other - m.base] == m.ram@[other - m.base],
{
}

} // verus!
