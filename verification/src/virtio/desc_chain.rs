//! Descriptor chains of a virtqueue, as seen by the device: reading what the
//! driver offered and writing the device's answer into guest memory.

use vstd::prelude::*;
use crate::address::GPAddr;
use crate::bytes::{le16, le32, le64, u16_from_le, u32_from_le};
use crate::guest_memory::{overwrite, GuestMemory, GuestMemoryError};

verus! {

pub const VIRTQ_DESC_F_NEXT: u16 = 1;
pub const VIRTQ_DESC_F_WRITE: u16 = 2;

/// The size of a descriptor in the descriptor table.
pub const VIRTQ_DESC_SIZE: usize = 16;

/// The longest chain the device follows: descriptor indices are 16 bits
/// wide, so a longer chain visits some descriptor twice and never ends.
pub const DESC_CHAIN_LEN_MAX: usize = 65536;

/// A descriptor (`struct virtq_desc`), decoded from its little-endian
/// layout.
#[derive(Debug, Copy, Clone, PartialEq, Eq, Structural)]
pub struct VirtqDesc {
    pub addr: u64,
    pub len: u32,
    pub flags: u16,
    pub next: u16,
}

pub open spec fn desc_write_only(d: VirtqDesc) -> bool {
    d.flags & VIRTQ_DESC_F_WRITE != 0
}

pub open spec fn desc_has_next(d: VirtqDesc) -> bool {
    d.flags & VIRTQ_DESC_F_NEXT != 0
}

impl VirtqDesc {
    /// The buffer's guest-physical address (truncated to a `usize`).
    pub fn gpaddr(&self) -> (r: GPAddr)
        ensures
            self.addr <= usize::MAX ==> r.0 == self.addr,
    {
        #[verifier::truncate]
        let a = self.addr as usize;
        GPAddr::new(a)
    }

    /// Whether the device may only write the buffer.
    pub fn is_write_only(&self) -> (r: bool)
        ensures
            r == desc_write_only(*self),
    {
        self.flags & VIRTQ_DESC_F_WRITE != 0
    }

    /// Whether the device may only read the buffer.
    pub fn is_read_only(&self) -> (r: bool)
        ensures
            r == !desc_write_only(*self),
    {
        !self.is_write_only()
    }

    /// Whether the chain continues at `next`.
    pub fn has_next(&self) -> (r: bool)
        ensures
            r == desc_has_next(*self),
    {
        self.flags & VIRTQ_DESC_F_NEXT != 0
    }
}

/// The descriptor encoded by 16 little-endian bytes.
pub open spec fn desc_from_bytes(b: Seq<u8>) -> VirtqDesc {
    VirtqDesc {
        addr: le64(b.subrange(0, 8)) as u64,
        len: le32(b.subrange(8, 12)) as u32,
        flags: le16(b.subrange(12, 14)) as u16,
        next: le16(b.subrange(14, 16)) as u16,
    }
}

/// The descriptor at `addr`, where it lies within the RAM.
pub open spec fn desc_at(mem: &GuestMemory, addr: int) -> Option<VirtqDesc> {
    if mem.in_range(addr, 16) {
        Some(desc_from_bytes(mem.bytes(addr, 16)))
    } else {
        None
    }
}

/// Reads the descriptor at `addr`.
pub fn read_desc(mem: &GuestMemory, addr: GPAddr) -> (r: Result<VirtqDesc, GuestMemoryError>)
    requires
        mem.wf(),
    ensures
        r is Ok <==> desc_at(mem, addr.0 as int) is Some,
        r is Ok ==> r->Ok_0 == desc_at(mem, addr.0 as int)->Some_0,
{
    let b = mem.read_bytes(addr, 16)?;
    let lo = u32_from_le(b[0], b[1], b[2], b[3]);
    let hi = u32_from_le(b[4], b[5], b[6], b[7]);
    let len = u32_from_le(b[8], b[9], b[10], b[11]);
    let flags = u16_from_le(b[12], b[13]);
    let next = u16_from_le(b[14], b[15]);
    proof {
        let s = b@;
        assert(s.subrange(0, 8).subrange(4, 8) =~= seq![b[4], b[5], b[6], b[7]]);
        assert(s.subrange(0, 8) =~= seq![b[0], b[1], b[2], b[3], b[4], b[5], b[6], b[7]]);
        assert(s.subrange(8, 12) =~= seq![b[8], b[9], b[10], b[11]]);
        assert(s.subrange(12, 14) =~= seq![b[12], b[13]]);
        assert(s.subrange(14, 16) =~= seq![b[14], b[15]]);
    }
    Ok(VirtqDesc { addr: (lo as u64) + (hi as u64) * 0x1_0000_0000, len, flags, next })
}

/// The descriptors of the chain that starts at index `idx` of the table
/// at `table`, following at most `fuel` links; `None` where a descriptor
/// lies outside the RAM or the chain is longer than `fuel`.
pub open spec fn chain_from(mem: &GuestMemory, table: int, idx: int, fuel: nat) -> Option<
    Seq<VirtqDesc>,
>
    decreases fuel,
{
    if fuel == 0 {
        None
    } else {
        match desc_at(mem, table + idx * 16) {
            None => None,
            Some(d) => if !desc_has_next(d) {
                Some(seq![d])
            } else {
                match chain_from(mem, table, d.next as int, (fuel - 1) as nat) {
                    Some(rest) => Some(seq![d] + rest),
                    None => None,
                }
            },
        }
    }
}

/// The device-readable descriptors of `s`, in order.
pub open spec fn readable_of(s: Seq<VirtqDesc>) -> Seq<VirtqDesc>
    decreases s.len(),
{
    if s.len() == 0 {
        Seq::empty()
    } else if !desc_write_only(s.last()) {
        readable_of(s.drop_last()).push(s.last())
    } else {
        readable_of(s.drop_last())
    }
}

/// The device-writable descriptors of `s`, in order.
pub open spec fn writable_of(s: Seq<VirtqDesc>) -> Seq<VirtqDesc>
    decreases s.len(),
{
    if s.len() == 0 {
        Seq::empty()
    } else if desc_write_only(s.last()) {
        writable_of(s.drop_last()).push(s.last())
    } else {
        writable_of(s.drop_last())
    }
}

/// The bytes of `[addr, addr + len)`, each `None` where it is outside the
/// RAM.
pub open spec fn seg(mem: &GuestMemory, addr: int, len: int) -> Seq<Option<u8>> {
    Seq::new(if len > 0 { len as nat } else { 0 }, |i: int| mem.byte_at(addr + i))
}

pub open spec fn all_some(s: Seq<Option<u8>>) -> bool {
    forall|i: int| 0 <= i < s.len() ==> (#[trigger] s[i]) is Some
}

/// Whether every segment is empty.
pub open spec fn all_empty(segs: Seq<Seq<Option<u8>>>) -> bool {
    forall|i: int| 0 <= i < segs.len() ==> (#[trigger] segs[i]).len() == 0
}

pub open spec fn unwrap_all(s: Seq<Option<u8>>) -> Seq<u8> {
    Seq::new(s.len(), |i: int| s[i]->Some_0)
}

/// Reading up to `len` bytes from the readable segments: empty segments
/// are skipped, the read stops at the end of the first non-empty one, and
/// it fails where no segment is left or a byte is outside the RAM.
pub open spec fn seg_read(segs: Seq<Seq<Option<u8>>>, len: nat) -> Option<
    (Seq<u8>, Seq<Seq<Option<u8>>>),
>
    decreases segs.len(),
{
    if len == 0 {
        Some((Seq::empty(), segs))
    } else if segs.len() == 0 {
        None
    } else if segs[0].len() == 0 {
        seg_read(segs.drop_first(), len)
    } else {
        let k: nat = if len < segs[0].len() { len } else { segs[0].len() };
        let part = segs[0].take(k as int);
        if all_some(part) {
            Some(
                (
                    unwrap_all(part),
                    if k == segs[0].len() {
                        segs.drop_first()
                    } else {
                        segs.update(0, segs[0].skip(k as int))
                    },
                ),
            )
        } else {
            None
        }
    }
}

/// Reading exactly `n` bytes of an object from the next segment; it fails
/// where the object does not fit in that segment.
pub open spec fn seg_read_obj(segs: Seq<Seq<Option<u8>>>, n: nat) -> Option<
    (Seq<u8>, Seq<Seq<Option<u8>>>),
> {
    if segs.len() == 0 || segs[0].len() < n {
        None
    } else {
        let part = segs[0].take(n as int);
        if all_some(part) {
            Some(
                (
                    unwrap_all(part),
                    if n == segs[0].len() {
                        segs.drop_first()
                    } else {
                        segs.update(0, segs[0].skip(n as int))
                    },
                ),
            )
        } else {
            None
        }
    }
}

/// Whether `[a, a + k)` lies within a RAM of `ram.len()` bytes at `base`.
pub open spec fn ram_range(base: int, ram: Seq<u8>, a: int, k: int) -> bool {
    base <= a && 0 <= k && a + k <= base + ram.len()
}

/// Writing `data` across the writable regions `(address, length)`: empty
/// regions are skipped, each region takes as much as fits, and it fails
/// where no region is left or a byte would land outside the RAM.
pub open spec fn wr_bytes(base: int, ram: Seq<u8>, regs: Seq<(int, int)>, data: Seq<u8>) -> Option<
    (Seq<u8>, Seq<(int, int)>),
>
    decreases data.len(), regs.len(),
{
    if data.len() == 0 {
        Some((ram, regs))
    } else if regs.len() == 0 {
        None
    } else if regs[0].1 <= 0 {
        wr_bytes(base, ram, regs.drop_first(), data)
    } else {
        let a = regs[0].0;
        let l = regs[0].1;
        let k = if data.len() < l { data.len() as int } else { l };
        if ram_range(base, ram, a, k) {
            wr_bytes(
                base,
                overwrite(ram, a - base, data.take(k)),
                if k == l { regs.drop_first() } else { regs.update(0, (a + k, l - k)) },
                data.skip(k),
            )
        } else {
            None
        }
    }
}

/// Where writing `data` across `regs` fails (see `wr_bytes`): the RAM and
/// the number of bytes stored before it stopped, the chunks that fit going
/// in region by region.
pub open spec fn wr_stop(base: int, ram: Seq<u8>, regs: Seq<(int, int)>, data: Seq<u8>) -> (Seq<u8>, int)
    decreases data.len(), regs.len(),
{
    if data.len() == 0 || regs.len() == 0 {
        (ram, 0)
    } else if regs[0].1 <= 0 {
        wr_stop(base, ram, regs.drop_first(), data)
    } else {
        let a = regs[0].0;
        let l = regs[0].1;
        let k = if data.len() < l { data.len() as int } else { l };
        if ram_range(base, ram, a, k) {
            let (ram2, n) = wr_stop(
                base,
                overwrite(ram, a - base, data.take(k)),
                if k == l { regs.drop_first() } else { regs.update(0, (a + k, l - k)) },
                data.skip(k),
            );
            (ram2, n + k)
        } else {
            (ram, 0)
        }
    }
}

/// The regions `(address, length)` of the buffers `descs`, in order.
pub open spec fn chain_regions(descs: Seq<VirtqDesc>) -> Seq<(int, int)> {
    Seq::new(descs.len(), |i: int| (descs[i].addr as int, descs[i].len as int))
}

/// Writing an object of `data.len()` bytes into the next region; it fails
/// where the object does not fit in that region.
pub open spec fn wr_obj(base: int, ram: Seq<u8>, regs: Seq<(int, int)>, data: Seq<u8>) -> Option<
    (Seq<u8>, Seq<(int, int)>),
> {
    if regs.len() == 0 || data.len() > regs[0].1 || !ram_range(
        base,
        ram,
        regs[0].0,
        data.len() as int,
    ) {
        None
    } else {
        let a = regs[0].0;
        let l = regs[0].1;
        let n = data.len() as int;
        Some(
            (
                overwrite(ram, a - base, data),
                if n == l { regs.drop_first() } else { regs.update(0, (a + n, l - n)) },
            ),
        )
    }
}

/// A descriptor chain, identified by the index of its head descriptor.
#[derive(Debug, Copy, Clone, PartialEq, Eq, Structural)]
pub struct DescChain {
    pub head: u16,
}

/// The reader over the device-readable buffers of a chain.
pub struct DescChainReader {
    pub descs: Vec<VirtqDesc>,
    pub next: usize,
    pub current: Option<(VirtqDesc, usize)>,
}

/// The writer over the device-writable buffers of a chain.
pub struct DescChainWriter {
    pub descs: Vec<VirtqDesc>,
    pub next: usize,
    pub current: Option<(VirtqDesc, usize)>,
    pub written_len: usize,
}

impl DescChainReader {
    pub open spec fn wf(&self) -> bool {
        &&& self.next <= self.descs@.len()
        &&& (self.current matches Some((d, o)) ==> o < d.len)
    }

    /// The bytes of the buffers not yet started.
    pub open spec fn rest_segments(&self, mem: &GuestMemory) -> Seq<Seq<Option<u8>>> {
        Seq::new(
            (self.descs@.len() - self.next) as nat,
            |i: int|
                seg(
                    mem,
                    self.descs@[self.next + i].addr as int,
                    self.descs@[self.next + i].len as int,
                ),
        )
    }

    /// The bytes still to be read, buffer by buffer.
    pub open spec fn segments(&self, mem: &GuestMemory) -> Seq<Seq<Option<u8>>> {
        let rest = self.rest_segments(mem);
        match self.current {
            Some((d, o)) => seq![seg(mem, d.addr + o, d.len - o)] + rest,
            None => rest,
        }
    }

    /// A reader over `descs`, from the start of the first one.
    pub fn new(descs: Vec<VirtqDesc>) -> (r: DescChainReader)
        ensures
            r.wf(),
            r.descs@ == descs@,
            r.next == 0,
            r.current is None,
    {
        DescChainReader { descs, next: 0, current: None }
    }

    /// Reads up to `len` bytes: the rest of the current buffer, or less.
    /// `Ok(None)` where no buffer is left.
    pub fn read_bytes(&mut self, mem: &GuestMemory, len: usize) -> (r: Result<
        Option<Vec<u8>>,
        GuestMemoryError,
    >)
        requires
            old(self).wf(),
            mem.wf(),
            len > 0,
        ensures
            final(self).wf(),
            final(self).descs@ == old(self).descs@,
            match seg_read(old(self).segments(mem), len as nat) {
                Some((data, segs)) => r == Ok::<Option<Vec<u8>>, GuestMemoryError>(Some(r->Ok_0->Some_0))
                    && r->Ok_0->Some_0@ == data && final(self).segments(mem) == segs,
                None => r is Err || r == Ok::<Option<Vec<u8>>, GuestMemoryError>(None),
            },
            r == Ok::<Option<Vec<u8>>, GuestMemoryError>(None) <==> all_empty(
                old(self).segments(mem),
            ),
    {
        loop
            invariant
                self.wf(),
                mem.wf(),
                len > 0,
                self.descs@ == old(self).descs@,
                seg_read(self.segments(mem), len as nat) == seg_read(
                    old(self).segments(mem),
                    len as nat,
                ),
                all_empty(self.segments(mem)) == all_empty(old(self).segments(mem)),
            decreases self.descs@.len() - self.next + (if self.current is Some {
                1int
            } else {
                0
            }),
        {
            let ghost segs = self.segments(mem);
            let ghost old_rest = self.rest_segments(mem);
            let (desc, offset) = match self.current {
                Some((desc, offset)) => (desc, offset),
                None => {
                    if self.next >= self.descs.len() {
                        proof {
                            assert(segs =~= Seq::<Seq<Option<u8>>>::empty());
                        }
                        return Ok(None);
                    }
                    let d = self.descs[self.next];
                    self.next += 1;
                    proof {
                        assert(old_rest =~= seq![seg(mem, d.addr as int, d.len as int)]
                            + self.rest_segments(mem));
                    }
                    (d, 0)
                },
            };
            let ghost rest = self.rest_segments(mem);
            proof {
                assert(segs =~= seq![seg(mem, desc.addr + offset, desc.len - offset)] + rest);
            }
            let desc_len = desc.len as usize;
            if offset >= desc_len {
                self.current = None;
                proof {
                    assert(self.segments(mem) =~= rest);
                    assert(segs.drop_first() =~= rest);
                    assert(segs[0].len() == 0);
                    assert(all_empty(segs) == all_empty(rest)) by {
                        if all_empty(rest) {
                            assert forall|i: int| 0 <= i < segs.len() implies #[trigger] segs[i].len() == 0 by {
                                if i > 0 {
                                    assert(segs[i] == rest[i - 1]);
                                }
                            }
                        }
                        if all_empty(segs) {
                            assert forall|i: int| 0 <= i < rest.len() implies #[trigger] rest[i].len() == 0 by {
                                assert(segs[i + 1] == rest[i]);
                            }
                        }
                    }
                }
                continue;
            }
            proof {
                assert(!all_empty(segs)) by {
                    assert(segs[0].len() > 0);
                }
            }
            let available_len = desc_len - offset;
            let read_len = if len < available_len { len } else { available_len };
            if desc.addr > usize::MAX as u64 || desc.addr as usize > usize::MAX - offset {
                proof {
                    assert(!mem.in_range(desc.addr + offset, 1));
                    assert(segs[0].take(read_len as int)[0] is None);
                }
                return Err(GuestMemoryError::OutOfRange);
            }
            let gpaddr = GPAddr::new(desc.addr as usize + offset);
            let res = mem.read_bytes(gpaddr, read_len);
            proof {
                let part = segs[0].take(read_len as int);
                lemma_seg_all_some(mem, gpaddr.0 as int, read_len as int);
                assert(part =~= seg(mem, gpaddr.0 as int, read_len as int));
            }
            let slice = match res {
                Ok(s) => s,
                Err(e) => return Err(e),
            };
            proof {
                assert(slice@ =~= unwrap_all(segs[0].take(read_len as int)));
            }
            if offset + read_len == desc_len {
                self.current = None;
                proof {
                    assert(self.segments(mem) =~= segs.drop_first());
                }
            } else {
                self.current = Some((desc, offset + read_len));
                proof {
                    assert(segs[0].skip(read_len as int) =~= seg(
                        mem,
                        desc.addr + offset + read_len,
                        desc.len - offset - read_len,
                    ));
                    assert(self.segments(mem) =~= segs.update(0, segs[0].skip(read_len as int)));
                }
            }
            return Ok(Some(slice));
        }
    }

    /// Reads exactly `len` bytes from the current buffer, or fewer where it
    /// ends first; fails where no buffer is left.
    pub fn read_zerocopy(&mut self, mem: &GuestMemory, len: usize) -> (r: Result<
        Vec<u8>,
        GuestMemoryError,
    >)
        requires
            old(self).wf(),
            mem.wf(),
        ensures
            final(self).wf(),
            final(self).descs@ == old(self).descs@,
            match seg_read(old(self).segments(mem), len as nat) {
                Some((data, segs)) => r is Ok && r->Ok_0@ == data && final(self).segments(mem)
                    == segs,
                None => r is Err,
            },
    {
        if len == 0 {
            return Ok(Vec::new());
        }
        match self.read_bytes(mem, len) {
            Ok(Some(slice)) => Ok(slice),
            Ok(None) => {
                proof {
                    lemma_seg_read_needs_nonempty(old(self).segments(mem), len as nat);
                }
                Err(GuestMemoryError::OutOfRange)
            },
            Err(e) => Err(e),
        }
    }

    /// Reads an object of `n` bytes, which must lie within one buffer.
    pub fn read_obj(&mut self, mem: &GuestMemory, n: usize) -> (r: Result<Vec<u8>, GuestMemoryError>)
        requires
            old(self).wf(),
            mem.wf(),
        ensures
            final(self).wf(),
            final(self).descs@ == old(self).descs@,
            match seg_read_obj(old(self).segments(mem), n as nat) {
                Some((data, segs)) => r is Ok && r->Ok_0@ == data && final(self).segments(mem)
                    == segs,
                None => r is Err,
            },
    {
        let ghost segs = self.segments(mem);
        let ghost old_rest = self.rest_segments(mem);
        let (desc, offset) = match self.current {
            Some((desc, offset)) => (desc, offset),
            None => {
                if self.next >= self.descs.len() {
                    proof {
                        assert(segs =~= Seq::<Seq<Option<u8>>>::empty());
                    }
                    return Err(GuestMemoryError::OutOfRange);
                }
                let d = self.descs[self.next];
                self.next += 1;
                proof {
                    assert(old_rest =~= seq![seg(mem, d.addr as int, d.len as int)]
                        + self.rest_segments(mem));
                }
                (d, 0)
            },
        };
        let ghost rest = self.rest_segments(mem);
        proof {
            assert(segs =~= seq![seg(mem, desc.addr + offset, desc.len - offset)] + rest);
        }
        let desc_len = desc.len as usize;
        if offset > desc_len || n > desc_len - offset {
            return Err(GuestMemoryError::OutOfRange);
        }
        if n == 0 {
            proof {
                assert(segs[0].take(0) =~= Seq::<Option<u8>>::empty());
                assert(unwrap_all(segs[0].take(0)) =~= Seq::<u8>::empty());
            }
            if offset == desc_len {
                self.current = None;
                proof {
                    assert(self.segments(mem) =~= segs.drop_first());
                }
            } else {
                self.current = Some((desc, offset));
                proof {
                    assert(segs[0].skip(0) =~= segs[0]);
                    assert(self.segments(mem) =~= segs.update(0, segs[0].skip(0)));
                }
            }
            return Ok(Vec::new());
        }
        proof {
            assert(segs[0][0] == mem.byte_at(desc.addr + offset));
        }
        if desc.addr > usize::MAX as u64 || desc.addr as usize > usize::MAX - offset {
            proof {
                assert(!mem.in_range(desc.addr + offset, 1));
                assert(segs[0].take(n as int)[0] is None);
            }
            return Err(GuestMemoryError::OutOfRange);
        }
        let gpaddr = GPAddr::new(desc.addr as usize + offset);
        let res = mem.read_bytes(gpaddr, n);
        proof {
            lemma_seg_all_some(mem, gpaddr.0 as int, n as int);
            assert(segs[0].take(n as int) =~= seg(mem, gpaddr.0 as int, n as int));
        }
        let value = match res {
            Ok(v) => v,
            Err(e) => return Err(e),
        };
        proof {
            assert(value@ =~= unwrap_all(segs[0].take(n as int)));
        }
        if offset + n == desc_len {
            self.current = None;
            proof {
                assert(self.segments(mem) =~= segs.drop_first());
            }
        } else {
            self.current = Some((desc, offset + n));
            proof {
                assert(segs[0].skip(n as int) =~= seg(
                    mem,
                    desc.addr + offset + n,
                    desc.len - offset - n,
                ));
                assert(self.segments(mem) =~= segs.update(0, segs[0].skip(n as int)));
            }
        }
        Ok(value)
    }
}


impl DescChainWriter {
    pub open spec fn wf(&self) -> bool {
        &&& self.next <= self.descs@.len()
        &&& (self.current matches Some((d, o)) ==> o < d.len)
    }

    /// The buffers not yet started, as `(address, length)`.
    pub open spec fn rest_regions(&self) -> Seq<(int, int)> {
        Seq::new(
            (self.descs@.len() - self.next) as nat,
            |i: int| (self.descs@[self.next + i].addr as int, self.descs@[self.next + i].len as int),
        )
    }

    /// The space still to be written, buffer by buffer, as `(address,
    /// length)`.
    pub open spec fn regions(&self) -> Seq<(int, int)> {
        match self.current {
            Some((d, o)) => seq![(d.addr + o, d.len - o)] + self.rest_regions(),
            None => self.rest_regions(),
        }
    }

    /// A writer over `descs`, from the start of the first one.
    pub fn new(descs: Vec<VirtqDesc>) -> (r: DescChainWriter)
        ensures
            r.wf(),
            r.descs@ == descs@,
            r.next == 0,
            r.current is None,
            r.written_len == 0,
    {
        DescChainWriter { descs, next: 0, current: None, written_len: 0 }
    }

    /// The number of bytes written so far.
    pub fn written_len(&self) -> (r: usize)
        ensures
            r == self.written_len,
    {
        self.written_len
    }

    /// Writes `bytes` across the writable buffers, continuing where the
    /// last write stopped.
    pub fn write_bytes(&mut self, mem: &mut GuestMemory, bytes: &[u8]) -> (r: Result<
        (),
        GuestMemoryError,
    >)
        requires
            old(self).wf(),
            old(mem).wf(),
            old(self).written_len + bytes@.len() <= usize::MAX,
        ensures
            final(self).wf(),
            final(self).descs@ == old(self).descs@,
            final(mem).base == old(mem).base,
            final(mem).wf(),
            match wr_bytes(old(mem).base as int, old(mem).ram@, old(self).regions(), bytes@) {
                Some((ram, regs)) => r is Ok && final(mem).ram@ == ram && final(self).regions()
                    == regs && final(self).written_len == old(self).written_len + bytes@.len(),
                None => r == Err::<(), GuestMemoryError>(GuestMemoryError::OutOfRange) && final(mem).ram@
                    == wr_stop(old(mem).base as int, old(mem).ram@, old(self).regions(), bytes@).0
                    && final(self).written_len == old(self).written_len + wr_stop(
                    old(mem).base as int,
                    old(mem).ram@,
                    old(self).regions(),
                    bytes@,
                ).1,
            },
    {
        let ghost goal = wr_bytes(old(mem).base as int, old(mem).ram@, old(self).regions(), bytes@);
        let ghost stop = wr_stop(old(mem).base as int, old(mem).ram@, old(self).regions(), bytes@);
        let mut pos: usize = 0;
        proof {
            assert(bytes@.skip(0) =~= bytes@);
        }
        while pos < bytes.len()
            invariant
                self.wf(),
                mem.wf(),
                mem.base == old(mem).base,
                self.descs@ == old(self).descs@,
                0 <= pos <= bytes@.len(),
                self.written_len == old(self).written_len + pos,
                old(self).written_len + bytes@.len() <= usize::MAX,
                goal == wr_bytes(old(mem).base as int, old(mem).ram@, old(self).regions(), bytes@),
                wr_bytes(mem.base as int, mem.ram@, self.regions(), bytes@.skip(pos as int))
                    == goal,
                stop == wr_stop(old(mem).base as int, old(mem).ram@, old(self).regions(), bytes@),
                wr_stop(mem.base as int, mem.ram@, self.regions(), bytes@.skip(pos as int)).0 == stop.0,
                wr_stop(mem.base as int, mem.ram@, self.regions(), bytes@.skip(pos as int)).1 + pos == stop.1,
            decreases bytes@.len() - pos, self.descs@.len() - self.next + (if self.current is Some {
                1int
            } else {
                0
            }),
        {
            let ghost regs = self.regions();
            let ghost old_rest = self.rest_regions();
            let ghost data = bytes@.skip(pos as int);
            let (desc, offset) = match self.current {
                Some((desc, offset)) => (desc, offset),
                None => {
                    if self.next >= self.descs.len() {
                        proof {
                            assert(regs =~= Seq::<(int, int)>::empty());
                        }
                        return Err(GuestMemoryError::OutOfRange);
                    }
                    let d = self.descs[self.next];
                    self.next += 1;
                    proof {
                        assert(old_rest =~= seq![(d.addr as int, d.len as int)]
                            + self.rest_regions());
                    }
                    (d, 0)
                },
            };
            let ghost rest = self.rest_regions();
            proof {
                assert(regs =~= seq![(desc.addr + offset, desc.len - offset)] + rest);
            }
            let desc_len = desc.len as usize;
            if offset >= desc_len {
                self.current = None;
                proof {
                    assert(self.regions() =~= regs.drop_first());
                }
                continue;
            }
            let available_len = desc_len - offset;
            let remaining = bytes.len() - pos;
            let write_len = if remaining < available_len { remaining } else { available_len };
            if desc.addr > usize::MAX as u64 || desc.addr as usize > usize::MAX - offset {
                return Err(GuestMemoryError::OutOfRange);
            }
            let gpaddr = GPAddr::new(desc.addr as usize + offset);
            let chunk = vstd::slice::slice_subrange(bytes, pos, pos + write_len);
            proof {
                assert(chunk@ =~= data.take(write_len as int));
            }
            match mem.write_bytes(gpaddr, chunk) {
                Ok(()) => {},
                Err(e) => return Err(e),
            }
            self.written_len = self.written_len + write_len;
            if offset + write_len == desc_len {
                self.current = None;
                proof {
                    assert(self.regions() =~= regs.drop_first());
                }
            } else {
                self.current = Some((desc, offset + write_len));
                proof {
                    assert(self.regions() =~= regs.update(
                        0,
                        (desc.addr + offset + write_len, desc.len - offset - write_len),
                    ));
                }
            }
            proof {
                assert(data.skip(write_len as int) =~= bytes@.skip(pos + write_len));
            }
            pos = pos + write_len;
        }
        proof {
            assert(bytes@.skip(pos as int) =~= Seq::<u8>::empty());
        }
        Ok(())
    }

    /// Writes an object, which must fit in the rest of one buffer.
    pub fn write_obj(&mut self, mem: &mut GuestMemory, data: &[u8]) -> (r: Result<
        (),
        GuestMemoryError,
    >)
        requires
            old(self).wf(),
            old(mem).wf(),
            old(self).written_len + data@.len() <= usize::MAX,
        ensures
            final(self).wf(),
            final(self).descs@ == old(self).descs@,
            final(mem).base == old(mem).base,
            final(mem).wf(),
            match wr_obj(old(mem).base as int, old(mem).ram@, old(self).regions(), data@) {
                Some((ram, regs)) => r is Ok && final(mem).ram@ == ram && final(self).regions()
                    == regs && final(self).written_len == old(self).written_len + data@.len(),
                None => r == Err::<(), GuestMemoryError>(GuestMemoryError::OutOfRange) && final(mem).ram@
                    == old(mem).ram@,
            },
    {
        let ghost regs = self.regions();
        let ghost old_rest = self.rest_regions();
        let (desc, offset) = match self.current {
            Some((desc, offset)) => (desc, offset),
            None => {
                if self.next >= self.descs.len() {
                    proof {
                        assert(regs =~= Seq::<(int, int)>::empty());
                    }
                    return Err(GuestMemoryError::OutOfRange);
                }
                let d = self.descs[self.next];
                self.next += 1;
                proof {
                    assert(old_rest =~= seq![(d.addr as int, d.len as int)] + self.rest_regions());
                }
                (d, 0)
            },
        };
        let ghost rest = self.rest_regions();
        proof {
            assert(regs =~= seq![(desc.addr + offset, desc.len - offset)] + rest);
        }
        let desc_len = desc.len as usize;
        let n = data.len();
        if offset > desc_len || n > desc_len - offset {
            return Err(GuestMemoryError::OutOfRange);
        }
        if desc.addr > usize::MAX as u64 || desc.addr as usize > usize::MAX - offset {
            proof {
                assert(!ram_range(old(mem).base as int, old(mem).ram@, desc.addr + offset, n as int)
                    || n == 0);
            }
            if n == 0 {
                proof {
                    assert(!ram_range(old(mem).base as int, old(mem).ram@, desc.addr + offset, 0));
                }
            }
            return Err(GuestMemoryError::OutOfRange);
        }
        let gpaddr = GPAddr::new(desc.addr as usize + offset);
        match mem.write_bytes(gpaddr, data) {
            Ok(()) => {},
            Err(e) => return Err(e),
        }
        self.written_len = self.written_len + n;
        if offset + n == desc_len {
            self.current = None;
            proof {
                assert(self.regions() =~= regs.drop_first());
            }
        } else {
            self.current = Some((desc, offset + n));
            proof {
                assert(self.regions() =~= regs.update(
                    0,
                    (desc.addr + offset + n, desc.len - offset - n),
                ));
            }
        }
        Ok(())
    }
}

/// A range is within the RAM exactly when each of its bytes is.
pub proof fn lemma_seg_all_some(mem: &GuestMemory, addr: int, len: int)
    requires
        len > 0,
    ensures
        all_some(seg(mem, addr, len)) <==> mem.in_range(addr, len),
        mem.in_range(addr, len) ==> unwrap_all(seg(mem, addr, len)) == mem.bytes(addr, len),
{
    let s = seg(mem, addr, len);
    if all_some(s) {
        assert(s[0] is Some);
        assert(s[len - 1] is Some);
    }
    if mem.in_range(addr, len) {
        assert(unwrap_all(s) =~= mem.bytes(addr, len));
    }
}

proof fn lemma_seg_read_needs_nonempty(segs: Seq<Seq<Option<u8>>>, len: nat)
    requires
        len > 0,
        all_empty(segs),
    ensures
        seg_read(segs, len) is None,
    decreases segs.len(),
{
    if segs.len() > 0 {
        assert(segs[0].len() == 0);
        assert(all_empty(segs.drop_first())) by {
            assert forall|i: int| 0 <= i < segs.drop_first().len() implies #[trigger] segs.drop_first()[i].len() == 0 by {
                assert(segs[i + 1] == segs.drop_first()[i]);
            }
        }
        lemma_seg_read_needs_nonempty(segs.drop_first(), len);
    }
}

} // verus!
