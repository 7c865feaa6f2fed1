//! The driver side of a split virtqueue: the descriptor table with a free
//! list threaded through the `next` fields, the available ring the driver
//! fills, and the used ring the device fills.

use vstd::prelude::*;
use crate::address::PAddr;
use crate::virtio::desc_chain::{desc_has_next, desc_write_only, VirtqDesc, VIRTQ_DESC_F_NEXT, VIRTQ_DESC_F_WRITE};

verus! {

impl VirtqDesc {
    /// Whether the device may write the buffer.
    pub fn is_writable(&self) -> (r: bool)
        ensures
            r == desc_write_only(*self),
    {
        self.flags & VIRTQ_DESC_F_WRITE != 0
    }
}

/// An entry of the used ring: the head of a chain and the number of bytes
/// the device wrote into it.
#[derive(Debug, Clone, Copy, PartialEq, Eq, Structural)]
pub struct VirtqUsedElem {
    pub id: u32,
    pub len: u32,
}

/// A buffer of a request: the device reads it, or writes it.
#[derive(Debug, Clone, Copy, PartialEq, Eq, Structural)]
pub enum VirtqDescBuffer {
    ReadOnlyFromDevice { paddr: PAddr, len: usize },
    WritableFromDevice { paddr: PAddr, len: usize },
}

/// A chain the device has used: its buffers, and the number of bytes the
/// device wrote.
pub struct VirtqUsedChain {
    pub descs: Vec<VirtqDescBuffer>,
    pub total_len: usize,
}

/// Why a request could not be queued or a used chain taken.
#[derive(Debug, Clone, Copy, PartialEq, Eq)]
pub enum QueueError {
    /// Fewer descriptors are free than the request has buffers.
    NotEnoughDescs,
    /// A chain in the descriptor table never ends.
    EndlessChain,
}

/// Where the rings lie in the queue's memory, and its size.
#[derive(Debug, Clone, Copy, PartialEq, Eq)]
pub struct QueueLayout {
    pub avail_ring_off: usize,
    pub used_ring_off: usize,
    pub size: usize,
}

/// `x` rounded up to a multiple of `align`.
pub open spec fn align_up_spec(x: int, align: int) -> int {
    ((x + align - 1) / align) * align
}

/// Rounds `x` up to a multiple of `align`.
pub fn align_up(x: usize, align: usize) -> (r: usize)
    requires
        align > 0,
        x + align - 1 <= usize::MAX,
    ensures
        r == align_up_spec(x as int, align as int),
{
    let t = x + (align - 1);
    let q = t / align;
    assert(q * align <= t) by (nonlinear_arith)
        requires
            q == t / align,
            align > 0,
    ;
    q * align
}

/// The layout of a queue of `n` descriptors: the descriptor table, then
/// the available ring (flags, index, `n` entries, event), then on the next
/// page the used ring (flags, index, `n` entries, event), whose size is
/// also rounded up to a page.
pub open spec fn layout_of(n: int, page_size: int) -> QueueLayout {
    let avail_ring_off = 16 * n;
    let avail_ring_size = 2 * (3 + n);
    let used_ring_off = align_up_spec(avail_ring_off + avail_ring_size, page_size);
    let used_ring_size = 2 * 3 + 8 * n;
    QueueLayout {
        avail_ring_off: avail_ring_off as usize,
        used_ring_off: used_ring_off as usize,
        size: (used_ring_off + align_up_spec(used_ring_size, page_size)) as usize,
    }
}

/// Computes the layout of a queue of `n` descriptors.
pub fn queue_layout(n: u16, page_size: usize) -> (r: QueueLayout)
    requires
        0 < page_size <= 0x1000_0000,
    ensures
        r == layout_of(n as int, page_size as int),
{
    let avail_ring_off = 16 * (n as usize);
    let avail_ring_size = 2 * (3 + n as usize);
    let used_ring_off = align_up(avail_ring_off + avail_ring_size, page_size);
    assert(used_ring_off <= avail_ring_off + avail_ring_size + page_size) by (nonlinear_arith)
        requires
            used_ring_off == align_up_spec((avail_ring_off + avail_ring_size) as int, page_size as int),
            page_size > 0,
    ;
    let used_ring_size = 2 * 3 + 8 * (n as usize);
    let used_size = align_up(used_ring_size, page_size);
    assert(used_size <= used_ring_size + page_size) by (nonlinear_arith)
        requires
            used_size == align_up_spec(used_ring_size as int, page_size as int),
            page_size > 0,
    ;
    QueueLayout { avail_ring_off, used_ring_off, size: used_ring_off + used_size }
}

/// A buffer as its address, length and whether the device writes it.
pub open spec fn buf_addr(b: VirtqDescBuffer) -> u64 {
    match b {
        VirtqDescBuffer::ReadOnlyFromDevice { paddr, .. } => paddr.0 as u64,
        VirtqDescBuffer::WritableFromDevice { paddr, .. } => paddr.0 as u64,
    }
}

pub open spec fn buf_len(b: VirtqDescBuffer) -> usize {
    match b {
        VirtqDescBuffer::ReadOnlyFromDevice { len, .. } => len,
        VirtqDescBuffer::WritableFromDevice { len, .. } => len,
    }
}

pub open spec fn buf_flag(b: VirtqDescBuffer) -> u16 {
    match b {
        VirtqDescBuffer::ReadOnlyFromDevice { .. } => 0,
        VirtqDescBuffer::WritableFromDevice { .. } => VIRTQ_DESC_F_WRITE,
    }
}

/// The descriptor table after the buffers `bufs` are written into the
/// descriptors reached from `idx` along the free list: each descriptor
/// takes a buffer and keeps its `next`, the last one ends the chain. Also
/// the descriptor the free list continues at.
pub open spec fn fill(descs: Seq<VirtqDesc>, n: int, idx: u16, bufs: Seq<VirtqDescBuffer>) -> (Seq<VirtqDesc>, u16)
    decreases bufs.len(),
{
    let s = idx as int % n;
    let d = descs[s];
    if bufs.len() <= 1 {
        (
            descs.update(
                s,
                VirtqDesc { addr: buf_addr(bufs[0]), len: buf_len(bufs[0]) as u32, flags: buf_flag(bufs[0]), next: 0 },
            ),
            d.next,
        )
    } else {
        fill(
            descs.update(
                s,
                VirtqDesc {
                    addr: buf_addr(bufs[0]),
                    len: buf_len(bufs[0]) as u32,
                    flags: buf_flag(bufs[0]) | VIRTQ_DESC_F_NEXT,
                    next: d.next,
                },
            ),
            n,
            d.next,
            bufs.drop_first(),
        )
    }
}

/// The end of the chain from `idx` and the number of its descriptors,
/// following at most `fuel` links; `None` where it goes on longer.
pub open spec fn chain_end(descs: Seq<VirtqDesc>, n: int, idx: u16, fuel: nat) -> Option<(u16, nat)>
    decreases fuel,
{
    let d = descs[idx as int % n];
    if !desc_has_next(d) {
        Some((idx, 1))
    } else if fuel == 0 {
        None
    } else {
        match chain_end(descs, n, d.next, (fuel - 1) as nat) {
            Some((end, count)) => Some((end, count + 1)),
            None => None,
        }
    }
}

/// The buffers of the chain from `idx`, following at most `fuel` links.
pub open spec fn chain_bufs(descs: Seq<VirtqDesc>, n: int, idx: u16, fuel: nat) -> Seq<VirtqDescBuffer>
    decreases fuel,
{
    let d = descs[idx as int % n];
    let b = if desc_write_only(d) {
        VirtqDescBuffer::WritableFromDevice { paddr: PAddr(d.addr as usize), len: d.len as usize }
    } else {
        VirtqDescBuffer::ReadOnlyFromDevice { paddr: PAddr(d.addr as usize), len: d.len as usize }
    };
    if !desc_has_next(d) || fuel == 0 {
        seq![b]
    } else {
        seq![b] + chain_bufs(descs, n, d.next, (fuel - 1) as nat)
    }
}

/// The longest chain followed.
pub const CHAIN_FUEL: u32 = 0x1_0000;

/// A virtqueue as the driver keeps it.
pub struct VirtQueue {
    pub index: u16,
    pub num_descs: u16,
    pub last_used_index: u16,
    pub free_head: u16,
    pub num_free_descs: u16,
    pub avail_ring_off: usize,
    pub used_ring_off: usize,
    /// The descriptor table.
    pub descs: Vec<VirtqDesc>,
    /// The available ring's index and entries.
    pub avail_index: u16,
    pub avail_ring: Vec<u16>,
    /// The used ring's index and entries, which the device writes.
    pub used_index: u16,
    pub used_ring: Vec<VirtqUsedElem>,
}

impl VirtQueue {
    /// The table and the rings have one entry per descriptor.
    pub open spec fn wf(&self) -> bool {
        &&& self.num_descs > 0
        &&& self.descs@.len() == self.num_descs
        &&& self.avail_ring@.len() == self.num_descs
        &&& self.used_ring@.len() == self.num_descs
    }

    /// A queue of `num_descs` descriptors, all on the free list in order,
    /// laid out for pages of `page_size` bytes.
    pub fn new(index: u16, num_descs: u16, page_size: usize) -> (r: VirtQueue)
        requires
            num_descs > 0,
            0 < page_size <= 0x1000_0000,
        ensures
            r.wf(),
            r.index == index,
            r.num_descs == num_descs,
            r.free_head == 0,
            r.num_free_descs == num_descs,
            r.last_used_index == 0,
            r.avail_index == 0,
            r.used_index == 0,
            fresh_queue(r.state()),
            r.avail_ring_off == layout_of(num_descs as int, page_size as int).avail_ring_off,
            r.used_ring_off == layout_of(num_descs as int, page_size as int).used_ring_off,
            forall|i: int|
                0 <= i < num_descs ==> (#[trigger] r.descs@[i]).next == (if i == num_descs - 1 {
                    0
                } else {
                    i + 1
                }) && r.descs@[i].flags == 0,
    {
        let layout = queue_layout(num_descs, page_size);
        let mut descs: Vec<VirtqDesc> = Vec::new();
        let mut avail_ring: Vec<u16> = Vec::new();
        let mut used_ring: Vec<VirtqUsedElem> = Vec::new();
        let mut i: u16 = 0;
        while i < num_descs
            invariant
                i <= num_descs,
                descs@.len() == i,
                avail_ring@.len() == i,
                used_ring@.len() == i,
                forall|j: int|
                    0 <= j < i ==> (#[trigger] descs@[j]).next == (if j == num_descs - 1 {
                        0
                    } else {
                        j + 1
                    }) && descs@[j].flags == 0,
            decreases num_descs - i,
        {
            let next = if i == num_descs - 1 {
                0
            } else {
                i + 1
            };
            descs.push(VirtqDesc { addr: 0, len: 0, flags: 0, next });
            avail_ring.push(0);
            used_ring.push(VirtqUsedElem { id: 0, len: 0 });
            i += 1;
        }
        VirtQueue {
            index,
            num_descs,
            last_used_index: 0,
            free_head: 0,
            num_free_descs: num_descs,
            avail_ring_off: layout.avail_ring_off,
            used_ring_off: layout.used_ring_off,
            descs,
            avail_index: 0,
            avail_ring,
            used_index: 0,
            used_ring,
        }
    }

    /// The number of descriptors.
    pub fn num_descs(&self) -> (r: u16)
        ensures
            r == self.num_descs,
    {
        self.num_descs
    }
}

/// A queue's memory and bookkeeping as values.
pub struct QueueState {
    pub n: u16,
    pub descs: Seq<VirtqDesc>,
    pub free_head: u16,
    pub num_free: u16,
    pub last_used: u16,
    pub used_index: u16,
    pub used_ring: Seq<VirtqUsedElem>,
    pub avail_index: u16,
    pub avail_ring: Seq<u16>,
}

/// Taking the next used chain: its head goes to the front of the free
/// list, its last descriptor links to the old front, and its descriptors
/// count as free again (modulo 2^16). Also the chain's buffers and written
/// length; an endless chain fails.
pub open spec fn pop_step(q: QueueState) -> Result<(QueueState, Seq<VirtqDescBuffer>, u32), QueueError> {
    let n = q.n as int;
    let elem = q.used_ring[q.last_used as int % n];
    let id = #[verifier::truncate] (elem.id as u16);
    match chain_end(q.descs, n, id, CHAIN_FUEL as nat) {
        None => Err(QueueError::EndlessChain),
        Some((end, count)) => {
            let e = end as int % n;
            Ok(
                (
                    QueueState {
                        descs: q.descs.update(e, VirtqDesc { next: q.free_head, ..q.descs[e] }),
                        free_head: id,
                        num_free: ((q.num_free + count) % 0x1_0000) as u16,
                        last_used: (if q.last_used == u16::MAX { 0 } else { (q.last_used + 1) as u16 }),
                        ..q
                    },
                    chain_bufs(q.descs, n, id, CHAIN_FUEL as nat),
                    elem.len,
                ),
            )
        },
    }
}

/// Taking used chains until the driver has caught up with the device, at
/// most `fuel` of them: the state reached, and the error that stopped it.
pub open spec fn reclaim(q: QueueState, fuel: nat) -> (QueueState, Option<QueueError>)
    decreases fuel,
{
    if fuel == 0 || q.last_used == q.used_index {
        (q, None)
    } else {
        match pop_step(q) {
            Err(e) => (q, Some(e)),
            Ok((q2, _, _)) => reclaim(q2, (fuel - 1) as nat),
        }
    }
}

/// Queueing `bufs` as one chain on the free list: the descriptors are
/// filled, the free list continues after them, and the chain's head goes
/// into the available ring at the available index (masked to the ring),
/// which then advances.
pub open spec fn queued(q: QueueState, bufs: Seq<VirtqDescBuffer>) -> QueueState {
    let n = q.n as int;
    let (descs, rest) = fill(q.descs, n, q.free_head, bufs);
    let slot = ((q.avail_index & ((q.n - 1) as u16)) as int) % n;
    QueueState {
        descs,
        free_head: rest,
        num_free: (q.num_free - bufs.len()) as u16,
        avail_ring: q.avail_ring.update(slot, q.free_head),
        avail_index: (if q.avail_index == u16::MAX { 0 } else { (q.avail_index + 1) as u16 }),
        ..q
    }
}

/// What queueing `bufs` does: used chains are taken back first where too
/// few descriptors are free, then the chain is queued if enough are. The
/// state reached and the outcome.
pub open spec fn enqueue_spec(q: QueueState, bufs: Seq<VirtqDescBuffer>) -> (QueueState, Result<(), QueueError>) {
    let (q1, err) = if q.num_free < bufs.len() {
        reclaim(q, CHAIN_FUEL as nat)
    } else {
        (q, None)
    };
    match err {
        Some(e) => (q1, Err(e)),
        None => if q1.num_free < bufs.len() {
            (q1, Err(QueueError::NotEnoughDescs))
        } else {
            (queued(q1, bufs), Ok(()))
        },
    }
}

impl VirtQueue {
    pub open spec fn state(&self) -> QueueState {
        QueueState {
            n: self.num_descs,
            descs: self.descs@,
            free_head: self.free_head,
            num_free: self.num_free_descs,
            last_used: self.last_used_index,
            used_index: self.used_index,
            used_ring: self.used_ring@,
            avail_index: self.avail_index,
            avail_ring: self.avail_ring@,
        }
    }

    /// Replaces descriptor `i`.
    fn set_desc(&mut self, i: usize, d: VirtqDesc)
        requires
            i < old(self).descs@.len(),
        ensures
            final(self).descs@ == old(self).descs@.update(i as int, d),
            final(self).index == old(self).index,
            final(self).num_descs == old(self).num_descs,
            final(self).last_used_index == old(self).last_used_index,
            final(self).free_head == old(self).free_head,
            final(self).num_free_descs == old(self).num_free_descs,
            final(self).avail_ring_off == old(self).avail_ring_off,
            final(self).used_ring_off == old(self).used_ring_off,
            final(self).avail_index == old(self).avail_index,
            final(self).avail_ring@ == old(self).avail_ring@,
            final(self).used_index == old(self).used_index,
            final(self).used_ring@ == old(self).used_ring@,
    {
        self.descs.set(i, d);
    }

    /// Takes the next used chain back onto the free list, as `pop_step`
    /// says.
    fn take_used(&mut self) -> (r: Result<(Vec<VirtqDescBuffer>, u32), QueueError>)
        requires
            old(self).wf(),
        ensures
            final(self).wf(),
            final(self).index == old(self).index,
            final(self).avail_ring_off == old(self).avail_ring_off,
            final(self).used_ring_off == old(self).used_ring_off,
            match pop_step(old(self).state()) {
                Err(e) => r == Err::<(Vec<VirtqDescBuffer>, u32), QueueError>(e) && final(self).state()
                    == old(self).state(),
                Ok((q2, bufs, len)) => r is Ok && r->Ok_0.0@ == bufs && r->Ok_0.1 == len && final(self).state()
                    == q2,
            },
    {
        let n = self.num_descs;
        let elem = self.used_ring[(self.last_used_index % n) as usize];
        let id = #[verifier::truncate] (elem.id as u16);
        let ghost descs0 = self.descs@;
        let mut idx = id;
        let mut count: u32 = 1;
        let mut steps: u32 = 0;
        let mut bufs: Vec<VirtqDescBuffer> = Vec::new();
        loop
            invariant
                n == self.num_descs,
                self.wf(),
                self.descs@ == descs0,
                *self == *old(self),
                descs0 == old(self).descs@,
                elem == old(self).used_ring@[old(self).last_used_index as int % n as int],
                id == elem.id as u16,
                steps <= CHAIN_FUEL,
                count == steps + 1,
                chain_end(descs0, n as int, id, CHAIN_FUEL as nat) == match chain_end(
                    descs0,
                    n as int,
                    idx,
                    (CHAIN_FUEL - steps) as nat,
                ) {
                    Some((end, c)) => Some((end, (c + steps) as nat)),
                    None => None,
                },
                chain_bufs(descs0, n as int, id, CHAIN_FUEL as nat) == bufs@ + chain_bufs(
                    descs0,
                    n as int,
                    idx,
                    (CHAIN_FUEL - steps) as nat,
                ),
            decreases CHAIN_FUEL - steps,
        {
            let d = self.descs[(idx % n) as usize];
            let b = if d.is_writable() {
                VirtqDescBuffer::WritableFromDevice { paddr: PAddr::new(d.addr as usize), len: d.len as usize }
            } else {
                VirtqDescBuffer::ReadOnlyFromDevice { paddr: PAddr::new(d.addr as usize), len: d.len as usize }
            };
            let ghost before = bufs@;
            bufs.push(b);
            if !d.has_next() {
                proof {
                    assert(chain_bufs(descs0, n as int, idx, (CHAIN_FUEL - steps) as nat) == seq![b]);
                    assert(before + seq![b] =~= bufs@);
                }
                let free_head = self.free_head;
                self.set_desc((idx % n) as usize, VirtqDesc { next: free_head, ..d });
                self.free_head = id;
                let c16 = (count % 0x1_0000) as u16;
                self.num_free_descs = ((self.num_free_descs as u32 + c16 as u32) % 0x1_0000) as u16;
                self.last_used_index = if self.last_used_index == u16::MAX {
                    0
                } else {
                    self.last_used_index + 1
                };
                proof {
                    assert(self.descs@ =~= descs0.update((idx % n) as int, VirtqDesc { next: free_head, ..descs0[(idx % n) as int] }));
                }
                return Ok((bufs, elem.len));
            }
            if steps >= CHAIN_FUEL {
                return Err(QueueError::EndlessChain);
            }
            proof {
                assert(chain_bufs(descs0, n as int, idx, (CHAIN_FUEL - steps) as nat) == seq![b] + chain_bufs(
                    descs0,
                    n as int,
                    d.next,
                    (CHAIN_FUEL - steps - 1) as nat,
                ));
                assert(before + (seq![b] + chain_bufs(descs0, n as int, d.next, (CHAIN_FUEL - steps - 1) as nat))
                    =~= bufs@ + chain_bufs(descs0, n as int, d.next, (CHAIN_FUEL - steps - 1) as nat));
            }
            idx = d.next;
            steps += 1;
            count += 1;
        }
    }
}


impl VirtQueue {
    /// Takes the next chain the device has used, if any: `None` where the
    /// driver has caught up with the device; else the chain's buffers and
    /// the length the device wrote, and the chain goes back onto the free
    /// list as `pop_step` says.
    pub fn pop_used(&mut self) -> (r: Result<Option<VirtqUsedChain>, QueueError>)
        requires
            old(self).wf(),
        ensures
            final(self).wf(),
            final(self).index == old(self).index,
            old(self).last_used_index == old(self).used_index ==> (r matches Ok(None) && final(self).state()
                == old(self).state()),
            old(self).last_used_index != old(self).used_index ==> match pop_step(old(self).state()) {
                Err(e) => r == Err::<Option<VirtqUsedChain>, QueueError>(e) && final(self).state() == old(
                    self,
                ).state(),
                Ok((q2, bufs, len)) => (r matches Ok(Some(c)) && c.descs@ == bufs && c.total_len == len
                    && final(self).state() == q2),
            },
    {
        if self.last_used_index == self.used_index {
            return Ok(None);
        }
        match self.take_used() {
            Err(e) => Err(e),
            Ok((descs, len)) => Ok(Some(VirtqUsedChain { descs, total_len: len as usize })),
        }
    }

    /// Writes the buffers of `chain` into the descriptors along the free
    /// list, as `fill` says.
    fn fill_chain(&mut self, chain: &[VirtqDescBuffer])
        requires
            old(self).wf(),
            chain@.len() > 0,
            forall|i: int| 0 <= i < chain@.len() ==> buf_len(#[trigger] chain@[i]) <= u32::MAX,
        ensures
            final(self).wf(),
            final(self).index == old(self).index,
            (final(self).descs@, final(self).free_head) == fill(
                old(self).descs@,
                old(self).num_descs as int,
                old(self).free_head,
                chain@,
            ),
            final(self).num_descs == old(self).num_descs,
            final(self).last_used_index == old(self).last_used_index,
            final(self).num_free_descs == old(self).num_free_descs,
            final(self).avail_index == old(self).avail_index,
            final(self).avail_ring@ == old(self).avail_ring@,
            final(self).used_index == old(self).used_index,
            final(self).used_ring@ == old(self).used_ring@,
    {
        let n = self.num_descs;
        let ghost target = fill(old(self).descs@, n as int, old(self).free_head, chain@);
        let mut desc_index = self.free_head;
        let mut i: usize = 0;
        let len = chain.len();
        proof {
            assert(chain@.subrange(0, len as int) =~= chain@);
        }
        loop
            invariant
                n == self.num_descs,
                self.wf(),
                len == chain@.len(),
                i < len,
                forall|j: int| 0 <= j < chain@.len() ==> buf_len(#[trigger] chain@[j]) <= u32::MAX,
                target == fill(self.descs@, n as int, desc_index, chain@.subrange(i as int, len as int)),
                target == fill(old(self).descs@, old(self).num_descs as int, old(self).free_head, chain@),
                n == old(self).num_descs,
                self.index == old(self).index,
                self.last_used_index == old(self).last_used_index,
                self.num_free_descs == old(self).num_free_descs,
                self.avail_index == old(self).avail_index,
                self.avail_ring@ == old(self).avail_ring@,
                self.used_index == old(self).used_index,
                self.used_ring@ == old(self).used_ring@,
            decreases len - i,
        {
            let s = (desc_index % n) as usize;
            let d = self.descs[s];
            let b = chain[i];
            let (addr, blen, flag) = match b {
                VirtqDescBuffer::ReadOnlyFromDevice { paddr, len } => (paddr.0 as u64, len, 0u16),
                VirtqDescBuffer::WritableFromDevice { paddr, len } => (paddr.0 as u64, len, VIRTQ_DESC_F_WRITE),
            };
            let ghost rest = chain@.subrange(i as int, len as int);
            assert(rest[0] == b);
            if i == len - 1 {
                self.set_desc(s, VirtqDesc { addr, len: blen as u32, flags: flag, next: 0 });
                self.free_head = d.next;
                return;
            }
            self.set_desc(s, VirtqDesc { addr, len: blen as u32, flags: flag | VIRTQ_DESC_F_NEXT, next: d.next });
            proof {
                assert(rest.drop_first() =~= chain@.subrange(i + 1, len as int));
            }
            desc_index = d.next;
            i += 1;
        }
    }
}

impl VirtQueue {
    /// Queues a request, a chain of buffers, for the device, as
    /// `enqueue_spec` says: where too few descriptors are free, the chains
    /// the device has used are taken back first; with still too few, it
    /// fails with `NotEnoughDescs`. The device learns of it once notified.
    pub fn enqueue(&mut self, chain: &[VirtqDescBuffer]) -> (r: Result<(), QueueError>)
        requires
            old(self).wf(),
            chain@.len() > 0,
            forall|i: int| 0 <= i < chain@.len() ==> buf_len(#[trigger] chain@[i]) <= u32::MAX,
        ensures
            final(self).wf(),
            final(self).index == old(self).index,
            (final(self).state(), r) == enqueue_spec(old(self).state(), chain@),
    {
        if (self.num_free_descs as usize) < chain.len() {
            let mut k: u32 = 0;
            while k < CHAIN_FUEL && self.last_used_index != self.used_index
                invariant
                    self.wf(),
                    self.index == old(self).index,
                    k <= CHAIN_FUEL,
                    old(self).num_free_descs < chain@.len(),
                    reclaim(old(self).state(), CHAIN_FUEL as nat) == reclaim(self.state(), (CHAIN_FUEL - k) as nat),
                decreases CHAIN_FUEL - k,
            {
                match self.take_used() {
                    Err(e) => {
                        assert(reclaim(self.state(), (CHAIN_FUEL - k) as nat) == (self.state(), Some(e)));
                        return Err(e);
                    },
                    Ok(_) => {},
                }
                k += 1;
            }
        }
        if (self.num_free_descs as usize) < chain.len() {
            return Err(QueueError::NotEnoughDescs);
        }
        let head = self.free_head;
        self.fill_chain(chain);
        self.num_free_descs = self.num_free_descs - chain.len() as u16;
        let slot = ((self.avail_index & (self.num_descs - 1)) % self.num_descs) as usize;
        self.avail_ring.set(slot, head);
        self.avail_index = if self.avail_index == u16::MAX {
            0
        } else {
            self.avail_index + 1
        };
        Ok(())
    }
}

proof fn lemma_flag_bits()
    by (bit_vector)
    ensures
        0u16 & 1u16 == 0,
        2u16 & 1u16 == 0,
        (0u16 | 1u16) & 1u16 != 0,
        (2u16 | 1u16) & 1u16 != 0,
        0u16 & 2u16 == 0,
        2u16 & 2u16 != 0,
        (0u16 | 1u16) & 2u16 == 0,
        (2u16 | 1u16) & 2u16 != 0,
{
}

/// Filling descriptors `m`, `m + 1`, ... linked in order, and reading the
/// chain from `m` back, gives the buffers that were written; the fill
/// touches those descriptors only.
proof fn lemma_fill_read_back(descs: Seq<VirtqDesc>, n: int, m: int, bufs: Seq<VirtqDescBuffer>, fuel: nat)
    requires
        0 <= m,
        m + bufs.len() <= n,
        n <= 0x1_0000,
        descs.len() == n,
        bufs.len() > 0,
        forall|j: int| m <= j < m + bufs.len() - 1 ==> (#[trigger] descs[j]).next == j + 1,
        forall|j: int| 0 <= j < bufs.len() ==> buf_len(#[trigger] bufs[j]) <= u32::MAX,
        fuel + 1 >= bufs.len(),
    ensures
        fill(descs, n, m as u16, bufs).0.len() == n,
        forall|j: int|
            0 <= j < n && !(m <= j < m + bufs.len()) ==> #[trigger] fill(descs, n, m as u16, bufs).0[j]
                == descs[j],
        chain_bufs(fill(descs, n, m as u16, bufs).0, n, m as u16, fuel) == bufs,
        chain_end(fill(descs, n, m as u16, bufs).0, n, m as u16, fuel) == Some(
            ((m + bufs.len() - 1) as u16, bufs.len()),
        ),
    decreases bufs.len(),
{
    lemma_flag_bits();
    let b = bufs[0];
    assert(buf_len(b) <= u32::MAX);
    let d = descs[m];
    assert((m as u16) as int == m);
    vstd::arithmetic::div_mod::lemma_small_mod(m as nat, n as nat);
    if bufs.len() == 1 {
        let f = fill(descs, n, m as u16, bufs).0;
        assert(f[m] == VirtqDesc { addr: buf_addr(b), len: buf_len(b) as u32, flags: buf_flag(b), next: 0 });
        assert(chain_bufs(f, n, m as u16, fuel) =~= bufs);
    } else {
        let d1 = VirtqDesc {
            addr: buf_addr(b),
            len: buf_len(b) as u32,
            flags: buf_flag(b) | VIRTQ_DESC_F_NEXT,
            next: d.next,
        };
        let descs1 = descs.update(m, d1);
        assert(d.next == m + 1);
        let rest = bufs.drop_first();
        assert forall|j: int| m + 1 <= j < m + 1 + rest.len() - 1 implies (#[trigger] descs1[j]).next == j + 1 by {
            assert(descs1[j] == descs[j]);
        }
        assert forall|j: int| 0 <= j < rest.len() implies buf_len(#[trigger] rest[j]) <= u32::MAX by {
            assert(rest[j] == bufs[j + 1]);
        }
        lemma_fill_read_back(descs1, n, m + 1, rest, (fuel - 1) as nat);
        let f = fill(descs, n, m as u16, bufs).0;
        assert(f == fill(descs1, n, (m + 1) as u16, rest).0);
        assert(f[m] == d1);
        assert(chain_bufs(f, n, m as u16, fuel) == seq![b] + chain_bufs(f, n, (m + 1) as u16, (fuel - 1) as nat));
        assert(seq![b] + rest =~= bufs);
    }
}


/// A queue as it is made: every descriptor free, linked in order from 0,
/// and nothing used yet.
pub open spec fn fresh_queue(q: QueueState) -> bool {
    &&& q.n > 0
    &&& q.descs.len() == q.n
    &&& q.used_ring.len() == q.n
    &&& q.avail_ring.len() == q.n
    &&& q.free_head == 0
    &&& q.num_free == q.n
    &&& q.last_used == q.used_index
    &&& forall|i: int| 0 <= i < q.n - 1 ==> (#[trigger] q.descs[i]).next == i + 1
}

/// The device hands a chain back: it writes the chain's head and the
/// length it wrote into the used ring's next entry, and advances the used
/// index (modulo 2^16).
pub open spec fn device_used(q: QueueState, id: u32, len: u32) -> QueueState {
    QueueState {
        used_ring: q.used_ring.update(q.used_index as int % q.n as int, VirtqUsedElem { id, len }),
        used_index: (if q.used_index == u16::MAX { 0 } else { (q.used_index + 1) as u16 }),
        ..q
    }
}

/// A request queued on a fresh queue succeeds, and once the device hands
/// its head back, the driver takes back exactly the buffers it queued,
/// with the length the device reported; the driver has then caught up
/// with the device, so nothing more is taken.
pub proof fn law_used_chain_is_queued_request(q: QueueState, bufs: Seq<VirtqDescBuffer>, len: u32)
    requires
        fresh_queue(q),
        0 < bufs.len() <= q.n,
        forall|i: int| 0 <= i < bufs.len() ==> buf_len(#[trigger] bufs[i]) <= u32::MAX,
    ensures
        enqueue_spec(q, bufs).1 == Ok::<(), QueueError>(()),
        pop_step(device_used(enqueue_spec(q, bufs).0, q.free_head as u32, len)) matches Ok((q3, got, l))
            && got == bufs && l == len && q3.last_used == q3.used_index,
{
    let n = q.n as int;
    lemma_fill_read_back(q.descs, n, 0, bufs, CHAIN_FUEL as nat);
    let q1 = enqueue_spec(q, bufs).0;
    assert(q1 == queued(q, bufs));
    let q2 = device_used(q1, 0u32, len);
    vstd::arithmetic::div_mod::lemma_mod_bound(q.used_index as int, n);
    assert(q2.used_ring[q.last_used as int % n] == VirtqUsedElem { id: 0u32, len });
    assert(q2.descs == fill(q.descs, n, 0u16, bufs).0);
}


/// How many used chains the device has handed back that the driver has
/// not taken yet, counting modulo 2^16 as both indices do.
pub open spec fn used_pending(q: QueueState) -> nat {
    if q.used_index >= q.last_used {
        (q.used_index - q.last_used) as nat
    } else {
        (q.used_index + 0x1_0000 - q.last_used) as nat
    }
}

/// The driver has caught up with the device exactly where no used chain
/// is pending, and each chain it takes leaves one fewer pending: after the
/// device hands `k` chains back, `k` calls of `pop_used` take them and the
/// next finds none.
pub proof fn law_used_chains_taken_one_by_one(q: QueueState)
    ensures
        (q.last_used == q.used_index) <==> used_pending(q) == 0,
        used_pending(q) > 0 ==> (pop_step(q) matches Ok((q2, _, _)) ==> q2.used_index == q.used_index
            && used_pending(q2) == used_pending(q) - 1),
{
}

} // verus!
