//! The device side of a split virtqueue: taking chains from the available
//! ring and returning them through the used ring.

use vstd::prelude::*;
use crate::address::GPAddr;
use crate::bytes::{le16, le16_bytes, le32_bytes};
use crate::guest_memory::{overwrite, GuestMemory, GuestMemoryError};
use crate::virtio::desc_chain::{chain_from, desc_has_next, read_desc, readable_of, writable_of, DescChain, DescChainReader, DescChainWriter, VirtqDesc, DESC_CHAIN_LEN_MAX};

verus! {

/// The largest queue size the device offers.
pub const VIRTQUEUE_NUM_DESCS_MAX: u32 = 32;

/// The interrupt status bit for a used buffer notification.
pub const VIRQ_IRQSTATUS_QUEUE: u32 = 1;

/// Room above each table's address that the device may index: a
/// descriptor table of 65536 entries, and available/used rings of up to
/// `VIRTQUEUE_NUM_DESCS_MAX` entries after their 4-byte headers.
pub open spec fn tables_fit(desc: int, avail: int, used: int) -> bool {
    &&& desc + 16 * 65536 <= usize::MAX
    &&& avail + 4 + 2 * VIRTQUEUE_NUM_DESCS_MAX <= usize::MAX
    &&& used + 4 + 8 * VIRTQUEUE_NUM_DESCS_MAX <= usize::MAX
}

/// The ring index after `i`, wrapping around at `u16::MAX`.
pub open spec fn next_ring_index(i: u16) -> u16 {
    if i == u16::MAX {
        0
    } else {
        (i + 1) as u16
    }
}

/// A virtqueue as the device keeps it.
pub struct Virtqueue {
    /// The queue index.
    pub index: u32,
    /// The descriptor table.
    pub desc_gpaddr: GPAddr,
    /// The available ring (written by the driver).
    pub avail_gpaddr: GPAddr,
    /// The used ring (written by the device).
    pub used_gpaddr: GPAddr,
    /// The next available-ring entry to take.
    pub avail_index: u16,
    /// The next used-ring entry to fill.
    pub used_index: u16,
    pub num_descs: u32,
    /// Pending interrupt status bits.
    pub irq_status: u32,
}

/// `addr` with its low or high 32 bits replaced by `value`.
pub open spec fn with_half(addr: u64, value: u32, is_high: bool) -> u64 {
    if is_high {
        (addr & 0xffff_ffff) | ((value as u64) << 32)
    } else {
        (addr & 0xffff_ffff_0000_0000) | (value as u64)
    }
}

/// Replaces the low or high 32 bits of an address.
pub fn set_addr(gpaddr: &mut GPAddr, value: u32, is_high: bool)
    ensures
        final(gpaddr).0 == (with_half(old(gpaddr).0 as u64, value, is_high) as usize),
{
    let addr = gpaddr.as_usize() as u64;
    let v = value as u64;
    let new_addr = if is_high {
        (addr & 0xffff_ffff) | (v << 32u64)
    } else {
        (addr & 0xffff_ffff_0000_0000) | v
    };
    #[verifier::truncate]
    let a = new_addr as usize;
    *gpaddr = GPAddr::new(a);
}

/// Setting the low half and then the high half gives the 64-bit address
/// made of both halves.
pub proof fn law_set_addr_halves(addr: u64, low: u32, high: u32)
    ensures
        with_half(with_half(addr, low, false), high, true) == (high as u64) * 0x1_0000_0000 + (
        low as u64),
{
    let l = low as u64;
    let h = high as u64;
    assert((((addr & 0xffff_ffff_0000_0000) | l) & 0xffff_ffff) | (h << 32) == h * 0x1_0000_0000
        + l) by (bit_vector)
        requires
            l < 0x1_0000_0000,
            h < 0x1_0000_0000,
    ;
}

impl Virtqueue {
    pub open spec fn wf(&self) -> bool {
        0 < self.num_descs <= VIRTQUEUE_NUM_DESCS_MAX
    }

    /// The queue's tables leave room for every index the device uses.
    pub open spec fn fits(&self) -> bool {
        tables_fit(self.desc_gpaddr.0 as int, self.avail_gpaddr.0 as int, self.used_gpaddr.0 as int)
    }

    /// A queue of the largest size with all tables at address 0.
    pub fn new(index: u32) -> (r: Virtqueue)
        ensures
            r.wf(),
            r.fits(),
            r.index == index,
            r.desc_gpaddr.0 == 0 && r.avail_gpaddr.0 == 0 && r.used_gpaddr.0 == 0,
            r.avail_index == 0 && r.used_index == 0 && r.irq_status == 0,
            r.num_descs == VIRTQUEUE_NUM_DESCS_MAX,
    {
        Virtqueue {
            index,
            desc_gpaddr: GPAddr::new(0),
            avail_gpaddr: GPAddr::new(0),
            used_gpaddr: GPAddr::new(0),
            avail_index: 0,
            used_index: 0,
            num_descs: VIRTQUEUE_NUM_DESCS_MAX,
            irq_status: 0,
        }
    }

    pub fn index(&self) -> (r: u32)
        ensures
            r == self.index,
    {
        self.index
    }

    /// Whether the queue's tables leave room for every index the device
    /// uses.
    pub fn check_fits(&self) -> (r: bool)
        ensures
            r == self.fits(),
    {
        self.desc_gpaddr.0 <= usize::MAX - 16 * 65536 && self.avail_gpaddr.0 <= usize::MAX - (4 + 2
            * VIRTQUEUE_NUM_DESCS_MAX as usize) && self.used_gpaddr.0 <= usize::MAX - (4 + 8
            * VIRTQUEUE_NUM_DESCS_MAX as usize)
    }

    /// Sets the queue size the driver chose, at most the maximum; a queue
    /// of size 0 offers no chain.
    pub fn set_queue_size(&mut self, value: u32)
        requires
            value <= VIRTQUEUE_NUM_DESCS_MAX,
        ensures
            *final(self) == (Virtqueue { num_descs: value, ..*old(self) }),
    {
        self.num_descs = value;
    }

    pub fn set_desc_addr(&mut self, value: u32, is_high: bool)
        ensures
            *final(self) == (Virtqueue {
                desc_gpaddr: GPAddr(
                    with_half(old(self).desc_gpaddr.0 as u64, value, is_high) as usize,
                ),
                ..*old(self)
            }),
    {
        set_addr(&mut self.desc_gpaddr, value, is_high);
    }

    /// Sets half of the used ring's address.
    pub fn set_device_addr(&mut self, value: u32, is_high: bool)
        ensures
            *final(self) == (Virtqueue {
                used_gpaddr: GPAddr(
                    with_half(old(self).used_gpaddr.0 as u64, value, is_high) as usize,
                ),
                ..*old(self)
            }),
    {
        set_addr(&mut self.used_gpaddr, value, is_high);
    }

    /// Sets half of the available ring's address.
    pub fn set_driver_addr(&mut self, value: u32, is_high: bool)
        ensures
            *final(self) == (Virtqueue {
                avail_gpaddr: GPAddr(
                    with_half(old(self).avail_gpaddr.0 as u64, value, is_high) as usize,
                ),
                ..*old(self)
            }),
    {
        set_addr(&mut self.avail_gpaddr, value, is_high);
    }

    pub fn irq_status(&self) -> (r: u32)
        ensures
            r == self.irq_status,
    {
        self.irq_status
    }

    /// Whether an interrupt is pending.
    pub fn should_interrupt(&self) -> (r: bool)
        ensures
            r == (self.irq_status != 0),
    {
        self.irq_status != 0
    }

    /// Clears the acknowledged status bits.
    pub fn acknowledge_irq(&mut self, value: u32)
        ensures
            *final(self) == (Virtqueue { irq_status: old(self).irq_status & !value, ..*old(self) }),
    {
        self.irq_status = self.irq_status & !value;
    }

    /// The head of the next chain in the available ring, where the driver
    /// has made one available and it names a descriptor of the queue.
    pub open spec fn next_avail(&self, mem: &GuestMemory) -> Option<u16> {
        let avail = self.avail_gpaddr.0 as int;
        if !mem.in_range(avail, 4) {
            None
        } else if le16(mem.bytes(avail + 2, 2)) == self.avail_index {
            None
        } else {
            let slot = avail + 4 + ((self.avail_index as int) % (self.num_descs as int)) * 2;
            if !mem.in_range(slot, 2) {
                None
            } else if le16(mem.bytes(slot, 2)) >= self.num_descs {
                None
            } else {
                Some(le16(mem.bytes(slot, 2)) as u16)
            }
        }
    }

    /// Takes the next available chain, where there is one.
    pub fn pop_avail(&mut self, mem: &GuestMemory) -> (r: Option<DescChain>)
        requires
            old(self).num_descs <= VIRTQUEUE_NUM_DESCS_MAX,
            old(self).fits(),
            mem.wf(),
        ensures
            r is Some ==> final(self).wf(),
            old(self).next_avail(mem) is None ==> r is None && *final(self) == *old(self),
            old(self).next_avail(mem) matches Some(head) ==> r == Some(DescChain { head })
                && *final(self) == (Virtqueue {
                avail_index: next_ring_index(old(self).avail_index),
                ..*old(self)
            }),
    {
        if self.num_descs == 0 {
            return None;
        }
        let avail = match mem.read_bytes(self.avail_gpaddr, 4) {
            Ok(a) => a,
            Err(_) => return None,
        };
        let avail_index_host = crate::bytes::u16_from_le(avail[2], avail[3]);
        proof {
            assert(mem.bytes(self.avail_gpaddr.0 as int + 2, 2) =~= seq![avail[2], avail[3]]);
        }
        if avail_index_host == self.avail_index {
            return None;
        }
        let index = (self.avail_index as u32 % self.num_descs) as usize;
        let index_gpaddr = GPAddr::new(self.avail_gpaddr.0 + 4 + index * 2);
        let desc_index = match mem.read_u16(index_gpaddr) {
            Ok(d) => d,
            Err(_) => return None,
        };
        if desc_index as u32 >= self.num_descs {
            return None;
        }
        self.avail_index = self.avail_index.wrapping_add(1);
        Some(DescChain { head: desc_index })
    }

    /// The RAM after a used-ring entry for `head` with `written_len` is
    /// stored and the used index advanced, where both writes succeed.
    pub open spec fn used_entry_addr(&self) -> int {
        self.used_gpaddr.0 + 4 + ((self.used_index as int) % (self.num_descs as int)) * 8
    }

    /// Returns a chain to the driver through the used ring and raises the
    /// used-buffer interrupt status; a chain whose head is not a descriptor
    /// of the queue is ignored.
    pub fn push_used(&mut self, mem: &mut GuestMemory, chain: DescChain, written_len: u32)
        requires
            old(self).wf(),
            old(self).fits(),
            old(mem).wf(),
        ensures
            final(mem).base == old(mem).base,
            final(mem).wf(),
            used_pushed(*old(self), *old(mem), chain.head, written_len, *final(self), *final(mem)),
    {
        if chain.head as u32 >= self.num_descs {
            return;
        }
        let used_index_gpaddr = GPAddr::new(self.used_gpaddr.0 + 2);
        let index = (self.used_index as u32 % self.num_descs) as usize;
        let used_elem_gpaddr = GPAddr::new(self.used_gpaddr.0 + 4 + index * 8);
        let mut elem: Vec<u8> = Vec::new();
        crate::bytes::push_le32(&mut elem, chain.head as u32);
        crate::bytes::push_le32(&mut elem, written_len);
        if mem.write_bytes(used_elem_gpaddr, elem.as_slice()).is_err() {
            return;
        }
        self.used_index = self.used_index.wrapping_add(1);
        if mem.write_u16(used_index_gpaddr, self.used_index).is_err() {
            return;
        }
        self.irq_status = self.irq_status | VIRQ_IRQSTATUS_QUEUE;
    }
}



/// What returning the chain with head `head` and `written_len` bytes
/// written does to the queue and the RAM: a head that is not a descriptor
/// of the queue is ignored; otherwise the used-ring entry is stored, the
/// used index advanced and stored, and the used-buffer status raised, each
/// step only where its write lies in the RAM.
pub open spec fn used_pushed(
    q: Virtqueue,
    mem: GuestMemory,
    head: u16,
    written_len: u32,
    q2: Virtqueue,
    mem2: GuestMemory,
) -> bool {
    if head >= q.num_descs {
        q2 == q && mem2.ram@ == mem.ram@
    } else {
        let elem = le32_bytes(head as int) + le32_bytes(written_len as int);
        let idx_addr = q.used_gpaddr.0 + 2;
        let new_index = next_ring_index(q.used_index);
        let ram1 = mem.written(q.used_entry_addr(), elem);
        if !mem.in_range(q.used_entry_addr(), 8) {
            q2 == q && mem2.ram@ == mem.ram@
        } else if !mem.in_range(idx_addr, 2) {
            q2 == (Virtqueue { used_index: new_index, ..q }) && mem2.ram@ == ram1
        } else {
            q2 == (Virtqueue {
                used_index: new_index,
                irq_status: q.irq_status | VIRQ_IRQSTATUS_QUEUE,
                ..q
            }) && mem2.ram@ == overwrite(ram1, idx_addr - mem.base, le16_bytes(new_index as int))
        }
    }
}

impl DescChain {
    /// Walks the chain in the queue's descriptor table and splits its
    /// buffers into those the device reads and those it writes. A chain
    /// longer than 65536 descriptors revisits one and never ends; it is
    /// refused as out of range.
    pub fn split(&self, vq: &Virtqueue, mem: &GuestMemory) -> (r: Result<
        (DescChainReader, DescChainWriter),
        GuestMemoryError,
    >)
        requires
            vq.fits(),
            mem.wf(),
        ensures
            match chain_from(mem, vq.desc_gpaddr.0 as int, self.head as int, DESC_CHAIN_LEN_MAX as nat) {
                Some(descs) => r is Ok && r->Ok_0.0.wf() && r->Ok_0.0.descs@ == readable_of(descs)
                    && r->Ok_0.0.next == 0 && r->Ok_0.0.current is None && r->Ok_0.1.wf()
                    && r->Ok_0.1.descs@ == writable_of(descs) && r->Ok_0.1.next == 0
                    && r->Ok_0.1.current is None && r->Ok_0.1.written_len == 0,
                None => r == Err::<(DescChainReader, DescChainWriter), GuestMemoryError>(GuestMemoryError::OutOfRange),
            },
    {
        let ghost table = vq.desc_gpaddr.0 as int;
        let ghost goal = chain_from(mem, table, self.head as int, DESC_CHAIN_LEN_MAX as nat);
        let mut readable: Vec<VirtqDesc> = Vec::new();
        let mut writable: Vec<VirtqDesc> = Vec::new();
        let mut desc_index: u16 = self.head;
        let mut steps: usize = 0;
        let ghost mut visited: Seq<VirtqDesc> = Seq::empty();
        loop
            invariant_except_break
                0 <= steps <= DESC_CHAIN_LEN_MAX,
                vq.fits(),
                mem.wf(),
                table == vq.desc_gpaddr.0,
                goal == chain_from(mem, table, self.head as int, DESC_CHAIN_LEN_MAX as nat),
                goal == match chain_from(
                    mem,
                    table,
                    desc_index as int,
                    (DESC_CHAIN_LEN_MAX - steps) as nat,
                ) {
                    Some(rest) => Some(visited + rest),
                    None => None::<Seq<VirtqDesc>>,
                },
                readable@ == readable_of(visited),
                writable@ == writable_of(visited),
            ensures
                goal == Some(visited),
                readable@ == readable_of(visited),
                writable@ == writable_of(visited),
            decreases DESC_CHAIN_LEN_MAX - steps,
        {
            if steps >= DESC_CHAIN_LEN_MAX {
                return Err(GuestMemoryError::OutOfRange);
            }
            let desc_gpaddr = GPAddr::new(vq.desc_gpaddr.0 + desc_index as usize * 16);
            let desc = match read_desc(mem, desc_gpaddr) {
                Ok(d) => d,
                Err(e) => return Err(e),
            };
            proof {
                let fuel = (DESC_CHAIN_LEN_MAX - steps) as nat;
                assert(chain_from(mem, table, desc_index as int, fuel) == if !desc_has_next(desc) {
                    Some(seq![desc])
                } else {
                    match chain_from(mem, table, desc.next as int, (fuel - 1) as nat) {
                        Some(rest) => Some(seq![desc] + rest),
                        None => None,
                    }
                });
            }
            if desc.is_read_only() {
                readable.push(desc);
            } else {
                writable.push(desc);
            }
            proof {
                let v2 = visited.push(desc);
                assert(v2.drop_last() =~= visited);
                match chain_from(
                    mem,
                    table,
                    desc.next as int,
                    (DESC_CHAIN_LEN_MAX - steps - 1) as nat,
                ) {
                    Some(rest) => {
                        assert(visited + (seq![desc] + rest) =~= v2 + rest);
                    },
                    None => {},
                }
                if !desc_has_next(desc) {
                    assert(visited + seq![desc] =~= v2);
                }
                visited = v2;
            }
            steps += 1;
            if !desc.has_next() {
                break;
            }
            desc_index = desc.next;
        }
        Ok((DescChainReader::new(readable), DescChainWriter::new(writable)))
    }
}

} // verus!
