//! The virtio-net device.

use vstd::prelude::*;
use crate::guest_memory::{GuestMemory, GuestMemoryError};
use crate::net::packet::MacAddr;
use crate::net::parser::spec_parse;
use crate::net::tcp::{find, plan_data, sent_as_planned, TCP_PAYLOAD_MAX};
use crate::net::{addrs_of, pending_sent, recv_step, tcp_result, ConnKey, GuestNet, KeyView, NetView, SendError};
use crate::virtio::desc_chain::{
    chain_from, chain_regions, readable_of, seg, writable_of, seg_read_obj, wr_bytes, wr_obj, DescChain, DescChainReader, DescChainWriter,
    VirtqDesc, DESC_CHAIN_LEN_MAX,
};
use crate::virtio::device::{lemma_notified_unchanged, DeviceError, DeviceEvent, VirtioDevice, VirtioMmio};
use crate::virtio::virtqueue::{used_pushed, Virtqueue};

verus! {

/// The `struct virtio_net_hdr` the device puts before each received frame:
/// no offloads and one buffer.
pub open spec fn virtio_net_hdr_bytes() -> Seq<u8> {
    seq![0u8, 0, 0, 0, 0, 0, 0, 0, 0, 0, 1, 0]
}

/// The size of `struct virtio_net_hdr`.
pub const VIRTIO_NET_HDR_SIZE: usize = 12;

/// Writes frames to the guest: the virtio-net header, then the frame.
pub struct VirtioPacketWriter {
    pub inner: DescChainWriter,
}

impl VirtioPacketWriter {
    /// Writes the virtio-net header into the first writable buffer.
    pub fn new(mut writer: DescChainWriter, mem: &mut GuestMemory) -> (r: Result<
        VirtioPacketWriter,
        GuestMemoryError,
    >)
        requires
            writer.wf(),
            writer.written_len == 0,
            old(mem).wf(),
        ensures
            final(mem).base == old(mem).base,
            final(mem).wf(),
            match wr_obj(old(mem).base as int, old(mem).ram@, writer.regions(), virtio_net_hdr_bytes()) {
                Some((ram, regs)) => r is Ok && r->Ok_0.inner.wf() && final(mem).ram@ == ram
                    && r->Ok_0.inner.regions() == regs && r->Ok_0.inner.written_len
                    == VIRTIO_NET_HDR_SIZE,
                None => r matches Err(e) && e == GuestMemoryError::OutOfRange && final(mem).ram@ == old(mem).ram@,
            },
    {
        let hdr: [u8; 12] = [0, 0, 0, 0, 0, 0, 0, 0, 0, 0, 1, 0];
        assert(hdr@ =~= virtio_net_hdr_bytes());
        match writer.write_obj(mem, &hdr) {
            Ok(()) => Ok(VirtioPacketWriter { inner: writer }),
            Err(e) => Err(e),
        }
    }

    pub fn write_bytes(&mut self, mem: &mut GuestMemory, data: &[u8]) -> (r: Result<
        (),
        GuestMemoryError,
    >)
        requires
            old(self).inner.wf(),
            old(mem).wf(),
            old(self).inner.written_len + data@.len() <= usize::MAX,
        ensures
            final(self).inner.wf(),
            final(mem).base == old(mem).base,
            final(mem).wf(),
            match wr_bytes(old(mem).base as int, old(mem).ram@, old(self).inner.regions(), data@) {
                Some((ram, regs)) => r is Ok && final(mem).ram@ == ram && final(self).inner.regions()
                    == regs && final(self).inner.written_len == old(self).inner.written_len
                    + data@.len(),
                None => r is Err,
            },
    {
        self.inner.write_bytes(mem, data)
    }

    pub fn written_len(&self) -> (r: usize)
        ensures
            r == self.inner.written_len,
    {
        self.inner.written_len()
    }
}

/// The device offers its MAC address in the configuration space.
pub const VIRTIO_NET_F_MAC: u64 = 32;

/// The device ID of a network card.
pub const VIRTIO_NET_DEVICE_ID: u32 = 1;

/// The bytes of the device's buffers, buffer by buffer.
pub open spec fn chain_segments(mem: &GuestMemory, descs: Seq<VirtqDesc>) -> Seq<Seq<Option<u8>>> {
    Seq::new(descs.len(), |i: int| seg(mem, descs[i].addr as int, descs[i].len as int))
}

/// Events as values.
pub open spec fn events_view(events: Seq<DeviceEvent>) -> Seq<(KeyView, Seq<u8>)> {
    events.map_values(|e: DeviceEvent| match e {
        DeviceEvent::Forward(k, d) => (k@, d@),
    })
}

/// What the guest's transmission in the readable buffers `segs` gives: the
/// network after it and the data to forward, or why it failed. A chain
/// without a whole header is dropped.
pub open spec fn tx_outcome(v: NetView, segs: Seq<Seq<Option<u8>>>) -> Result<
    (NetView, Seq<(KeyView, Seq<u8>)>),
    DeviceError,
> {
    match seg_read_obj(segs, VIRTIO_NET_HDR_SIZE as nat) {
        None => Ok((v, Seq::empty())),
        Some((hdr, rest)) => if hdr[0] != 0 {
            Err(DeviceError::UnsupportedNetHeaderFlags(hdr[0]))
        } else {
            match recv_step(v, spec_parse(rest)) {
                (_, Err(e)) => Err(DeviceError::Recv(e)),
                (w, Ok(None)) => Ok((w, Seq::empty())),
                (w, Ok(Some(f))) => Ok((w, seq![f])),
            }
        },
    }
}

/// The virtio-net device, with the network behind it.
pub struct VirtioNet {
    pub guest_mac: MacAddr,
    pub guest_net: GuestNet,
}

impl VirtioNet {
    pub fn new(guest_mac: MacAddr, guest_net: GuestNet) -> (r: VirtioNet)
        ensures
            r.guest_mac == guest_mac,
            r.guest_net == guest_net,
    {
        VirtioNet { guest_mac, guest_net }
    }

    /// Receives what the guest transmits: the virtio-net header, then one
    /// frame for the network.
    fn process_tx(&mut self, mem: &GuestMemory, reader: &mut DescChainReader) -> (r: Result<
        Vec<DeviceEvent>,
        DeviceError,
    >)
        requires
            old(self).guest_net.wf(),
            old(reader).wf(),
            mem.wf(),
        ensures
            final(self).guest_net.wf(),
            final(self).guest_mac == old(self).guest_mac,
            match tx_outcome(old(self).guest_net@, old(reader).segments(mem)) {
                Ok((w, f)) => r is Ok && events_view(r->Ok_0@) == f && final(self).guest_net@ == w,
                Err(e) => r == Err::<Vec<DeviceEvent>, DeviceError>(e),
            },
    {
        let header = match reader.read_obj(mem, VIRTIO_NET_HDR_SIZE) {
            Ok(h) => h,
            Err(_) => {
                proof {
                    assert(Seq::<DeviceEvent>::empty().map_values(|e: DeviceEvent| match e {
                        DeviceEvent::Forward(k, d) => (k@, d@),
                    }) =~= Seq::<(KeyView, Seq<u8>)>::empty());
                }
                return Ok(Vec::new());
            },
        };
        if header[0] != 0 {
            return Err(DeviceError::UnsupportedNetHeaderFlags(header[0]));
        }
        let mut events: Vec<DeviceEvent> = Vec::new();
        match self.guest_net.recv_from_guest(reader, mem) {
            Ok(Some((key, data))) => {
                events.push(DeviceEvent::Forward(key, data));
            },
            Ok(None) => {},
            Err(e) => {
                return Err(DeviceError::Recv(e));
            },
        }
        proof {
            assert(events_view(events@) =~= match tx_outcome(old(self).guest_net@, old(reader).segments(mem)) {
                Ok((_, f)) => f,
                Err(_) => Seq::empty(),
            });
        }
        Ok(events)
    }

    /// The network's part of `VirtioDevice::process`: queue 0 (receive)
    /// needs nothing; a chain on queue 1 (transmit) is received and
    /// returned to the guest with nothing written.
    pub fn process_chain(&mut self, mem: &mut GuestMemory, vq: &mut Virtqueue, chain: DescChain) -> (r: Result<
        Vec<DeviceEvent>,
        DeviceError,
    >)
        requires
            old(self).guest_net.wf(),
            old(mem).wf(),
            old(vq).wf(),
            old(vq).fits(),
        ensures
            final(self).guest_net.wf(),
            final(self).guest_mac == old(self).guest_mac,
            final(mem).wf(),
            final(mem).base == old(mem).base,
            final(vq).wf(),
            final(vq).index == old(vq).index,
            final(vq).num_descs == old(vq).num_descs,
            final(vq).desc_gpaddr == old(vq).desc_gpaddr,
            final(vq).avail_gpaddr == old(vq).avail_gpaddr,
            final(vq).used_gpaddr == old(vq).used_gpaddr,
            old(vq).index == 0 ==> r is Ok && r->Ok_0@.len() == 0 && *final(vq) == *old(vq)
                && final(mem).ram@ == old(mem).ram@ && final(self).guest_net@ == old(self).guest_net@,
            old(vq).index > 1 ==> r == Err::<Vec<DeviceEvent>, DeviceError>(
                DeviceError::UnexpectedQueueIndex(old(vq).index),
            ) && *final(vq) == *old(vq) && final(mem).ram@ == old(mem).ram@,
            old(vq).index == 1 ==> match chain_from(
                &*old(mem),
                old(vq).desc_gpaddr.0 as int,
                chain.head as int,
                DESC_CHAIN_LEN_MAX as nat,
            ) {
                None => r == Err::<Vec<DeviceEvent>, DeviceError>(
                    DeviceError::DescChain(GuestMemoryError::OutOfRange),
                ) && *final(vq) == *old(vq) && final(mem).ram@ == old(mem).ram@,
                Some(descs) => match tx_outcome(
                    old(self).guest_net@,
                    chain_segments(&*old(mem), readable_of(descs)),
                ) {
                    Ok((w, f)) => r is Ok && events_view(r->Ok_0@) == f && final(self).guest_net@ == w
                        && used_pushed(*old(vq), *old(mem), chain.head, 0, *final(vq), *final(mem)),
                    Err(e) => r == Err::<Vec<DeviceEvent>, DeviceError>(e),
                },
            },
    {
        let index = vq.index();
        if index == 0 {
            return Ok(Vec::new());
        }
        if index != 1 {
            return Err(DeviceError::UnexpectedQueueIndex(index));
        }
        let (mut reader, _writer) = match chain.split(vq, mem) {
            Ok(rw) => rw,
            Err(e) => return Err(DeviceError::DescChain(e)),
        };
        proof {
            assert(reader.segments(mem) =~= chain_segments(mem, reader.descs@));
        }
        let events = self.process_tx(mem, &mut reader)?;
        vq.push_used(mem, chain, 0);
        Ok(events)
    }

    /// Reads the configuration space: the MAC address at offsets 0 to 5.
    pub fn read_config(&self, offset: u64, dst: &mut Vec<u8>) -> (r: Result<(), DeviceError>)
        ensures
            match net_config(self.guest_mac.0@, offset, old(dst)@) {
                Some(b) => r is Ok && final(dst)@ == b,
                None => r == Err::<(), DeviceError>(DeviceError::UnknownConfigOffset(offset))
                    && final(dst)@ == old(dst)@,
            },
    {
        if offset > 5 {
            return Err(DeviceError::UnknownConfigOffset(offset));
        }
        let start = offset as usize;
        let end = if dst.len() < 6 - start {
            start + dst.len()
        } else {
            6
        };
        let copy_len = end - start;
        let ghost d0 = dst@;
        let mut i: usize = 0;
        while i < copy_len
            invariant
                i <= copy_len,
                copy_len <= d0.len(),
                start + copy_len <= 6,
                dst@.len() == d0.len(),
                forall|j: int| 0 <= j < i ==> dst@[j] == self.guest_mac.0@[start + j],
                forall|j: int| i <= j < d0.len() ==> dst@[j] == d0[j],
            decreases copy_len - i,
        {
            dst.set(i, self.guest_mac.0[start + i]);
            i += 1;
        }
        proof {
            assert(dst@ =~= net_config(self.guest_mac.0@, offset, d0)->Some_0);
        }
        Ok(())
    }
}

/// The configuration space read into `dst` at `offset`: the bytes of the
/// MAC address from `offset` on, as many as fit, at the start of `dst`.
pub open spec fn net_config(mac: Seq<u8>, offset: u64, dst: Seq<u8>) -> Option<Seq<u8>> {
    if offset > 5 {
        None
    } else {
        let n = if dst.len() < 6 - offset { dst.len() as int } else { 6 - offset };
        Some(Seq::new(dst.len(), |j: int| if j < n { mac[offset + j] } else { dst[j] }))
    }
}

impl VirtioDevice for VirtioNet {
    open spec fn inv(&self) -> bool {
        self.guest_net.wf()
    }

    open spec fn spec_num_queues(&self) -> u32 {
        2
    }

    open spec fn spec_device_features(&self) -> u64 {
        VIRTIO_NET_F_MAC
    }

    open spec fn spec_device_id(&self) -> u32 {
        VIRTIO_NET_DEVICE_ID
    }

    open spec fn spec_vendor_id(&self) -> u32 {
        0
    }

    open spec fn spec_config(&self, offset: u64, dst: Seq<u8>) -> Option<Seq<u8>> {
        net_config(self.guest_mac.0@, offset, dst)
    }

    fn num_queues(&self) -> (r: u32) {
        2
    }

    fn device_features(&self) -> (r: u64) {
        VIRTIO_NET_F_MAC
    }

    fn device_id(&self) -> (r: u32) {
        VIRTIO_NET_DEVICE_ID
    }

    fn vendor_id(&self) -> (r: u32) {
        0
    }

    fn config_read(&self, offset: u64, dst: &mut Vec<u8>) -> (r: Result<(), DeviceError>) {
        self.read_config(offset, dst)
    }

    open spec fn chain_served(
        &self,
        new: &Self,
        m0: GuestMemory,
        m1: GuestMemory,
        q0: Virtqueue,
        q1: Virtqueue,
        chain: DescChain,
        r: Result<Vec<DeviceEvent>, DeviceError>,
    ) -> bool {
        &&& q0.index == 0 ==> r is Ok && r->Ok_0@.len() == 0 && q1 == q0 && m1.ram@ == m0.ram@
            && new.guest_net@ == self.guest_net@
        &&& q0.index > 1 ==> r == Err::<Vec<DeviceEvent>, DeviceError>(DeviceError::UnexpectedQueueIndex(q0.index))
            && q1 == q0 && m1.ram@ == m0.ram@
        &&& q0.index == 1 ==> match chain_from(&m0, q0.desc_gpaddr.0 as int, chain.head as int, DESC_CHAIN_LEN_MAX as nat) {
            None => r == Err::<Vec<DeviceEvent>, DeviceError>(DeviceError::DescChain(GuestMemoryError::OutOfRange))
                && q1 == q0 && m1.ram@ == m0.ram@,
            Some(descs) => match tx_outcome(self.guest_net@, chain_segments(&m0, readable_of(descs))) {
                Ok((w, f)) => r is Ok && events_view(r->Ok_0@) == f && new.guest_net@ == w && used_pushed(
                    q0,
                    m0,
                    chain.head,
                    0,
                    q1,
                    m1,
                ),
                Err(e) => r == Err::<Vec<DeviceEvent>, DeviceError>(e),
            },
        }
    }

    fn process(&mut self, mem: &mut GuestMemory, vq: &mut Virtqueue, chain: DescChain) -> (r: Result<
        Vec<DeviceEvent>,
        DeviceError,
    >)
        ensures
            final(self).guest_net.wf(),
            final(self).guest_mac == old(self).guest_mac,
            final(mem).wf(),
            final(mem).base == old(mem).base,
            final(vq).wf(),
            final(vq).index == old(vq).index,
            final(vq).num_descs == old(vq).num_descs,
            final(vq).desc_gpaddr == old(vq).desc_gpaddr,
            final(vq).avail_gpaddr == old(vq).avail_gpaddr,
            final(vq).used_gpaddr == old(vq).used_gpaddr,
    {
        self.process_chain(mem, vq, chain)
    }
}

/// Why a frame could not be put into a receive buffer of the guest.
#[derive(Debug, Clone, Copy, PartialEq, Eq)]
pub enum DeliverError {
    /// The guest has made no receive buffer available.
    NoReceiveBuffer,
    /// The receive queue's tables lie too close to the top of the address
    /// space.
    QueueAddressOverflow,
    DescChain(GuestMemoryError),
    Header(GuestMemoryError),
    Send(SendError),
}

/// Where putting a frame into the guest's receive queue `q` stops before
/// any frame is written, with RAM `m`: the queue's tables lie too high,
/// no chain is available, the chain does not lie in RAM, or the virtio-net
/// header does not fit in the chain's first writable buffer. `None` where
/// the frame goes on to be sent.
pub open spec fn rx_blocked(q: Virtqueue, m: GuestMemory) -> Option<DeliverError> {
    if !q.fits() {
        Some(DeliverError::QueueAddressOverflow)
    } else {
        match q.next_avail(&m) {
            None => Some(DeliverError::NoReceiveBuffer),
            Some(head) => match chain_from(&m, q.desc_gpaddr.0 as int, head as int, DESC_CHAIN_LEN_MAX as nat) {
                None => Some(DeliverError::DescChain(GuestMemoryError::OutOfRange)),
                Some(descs) => match wr_obj(
                    m.base as int,
                    m.ram@,
                    chain_regions(writable_of(descs)),
                    virtio_net_hdr_bytes(),
                ) {
                    None => Some(DeliverError::Header(GuestMemoryError::OutOfRange)),
                    Some(_) => None,
                },
            },
        }
    }
}

/// The network changed as sending the next pending packet does, into some
/// receive buffer, with result `r`.
pub open spec fn pending_delivered(v: NetView, w: NetView, r: Result<Option<usize>, SendError>) -> bool {
    exists|regs: Seq<(int, int)>, written: int, m1: GuestMemory, m2: GuestMemory|
        pending_sent(v, regs, written, m1, m2, w, r)
}

/// The network changed as sending `data` on the connection with `key`
/// does, into some receive buffer, with result `r`.
pub open spec fn data_delivered(
    v: NetView,
    key: KeyView,
    data: Seq<u8>,
    w: NetView,
    r: Result<Option<usize>, SendError>,
) -> bool {
    &&& w == (NetView { table: w.table, ..v })
    &&& find(v.table, key) == -1 ==> r == Err::<Option<usize>, SendError>(SendError::UnknownConn)
        && w == v
    &&& find(v.table, key) != -1 ==> exists|regs: Seq<(int, int)>, written: int, m1: GuestMemory, m2: GuestMemory|
        sent_as_planned(plan_data(addrs_of(v), v.table, find(v.table, key), data), regs, written, m1, m2, w.table, tcp_result(r))
}

/// What is to be delivered, as values: the next pending packet, or data
/// on a connection.
pub open spec fn outgoing(data: Option<(&ConnKey, &[u8])>) -> Option<(KeyView, Seq<u8>)> {
    match data {
        None => None,
        Some((key, d)) => Some((key@, d@)),
    }
}

/// A delivery ended in `r` because sending ended in `res`, and the network
/// changed as that send does.
pub open spec fn delivered(
    what: Option<(KeyView, Seq<u8>)>,
    v: NetView,
    w: NetView,
    r: Result<bool, DeliverError>,
    res: Result<Option<usize>, SendError>,
) -> bool {
    &&& (r is Ok <==> res is Ok)
    &&& (res matches Err(e) ==> r == Err::<bool, DeliverError>(DeliverError::Send(e)))
    &&& match what {
        None => pending_delivered(v, w, res),
        Some((key, d)) => data_delivered(v, key, d, w, res),
    }
}

impl VirtioMmio<VirtioNet> {
    /// Puts one frame into the next receive buffer of the guest (queue 0):
    /// the next pending packet, or `data` on the connection with `key`.
    /// The buffer goes back to the guest where a frame was written. Returns
    /// whether the interrupt line is to be raised.
    fn deliver(&mut self, mem: &mut GuestMemory, data: Option<(&ConnKey, &[u8])>) -> (r: Result<
        bool,
        DeliverError,
    >)
        requires
            old(self).wf(),
            old(mem).wf(),
            data matches Some((_, d)) ==> d@.len() <= TCP_PAYLOAD_MAX,
        ensures
            final(self).wf(),
            final(mem).wf(),
            final(mem).base == old(mem).base,
            final(self).notified(old(self), 0),
            final(self).device.guest_mac == old(self).device.guest_mac,
            r is Ok ==> r->Ok_0 == (final(self).irq_status != 0),
            rx_blocked(old(self).queues@[0], *old(mem)) matches Some(e) ==> r == Err::<bool, DeliverError>(e)
                && final(self).device.guest_net@ == old(self).device.guest_net@ && final(mem).ram@ == old(
                mem,
            ).ram@ && (e is NoReceiveBuffer || e is QueueAddressOverflow ==> final(self).queues@[0] == old(
                self,
            ).queues@[0] && *final(mem) == *old(mem)),
            rx_blocked(old(self).queues@[0], *old(mem)) is None ==> r is Ok || r matches Err(DeliverError::Send(_)),
            (r is Ok || r matches Err(DeliverError::Send(_))) ==> exists|res: Result<Option<usize>, SendError>|
                delivered(outgoing(data), old(self).device.guest_net@, final(self).device.guest_net@, r, res),
            !(r is Ok || r matches Err(DeliverError::Send(_))) ==> final(self).device.guest_net@ == old(
                self,
            ).device.guest_net@,
    {
        proof {
            lemma_notified_unchanged(*self, 0);
        }
        if !self.queues[0].check_fits() {
            return Err(DeliverError::QueueAddressOverflow);
        }
        let ghost old_queues = self.queues@;
        let ghost net0 = self.device.guest_net@;
        let mut vq = self.queues.remove(0);
        let chain = match vq.pop_avail(mem) {
            Some(c) => c,
            None => {
                self.queues.insert(0, vq);
                proof {
                    assert(self.queues@ =~= old_queues);
                }
                return Err(DeliverError::NoReceiveBuffer);
            },
        };
        let ghost popped = vq;
        let writer = match chain.split(&vq, mem) {
            Ok((_, w)) => w,
            Err(e) => {
                self.queues.insert(0, vq);
                proof {
                    assert(self.queues@ =~= old_queues.update(0, popped));
                }
                return Err(DeliverError::DescChain(e));
            },
        };
        let pw = match VirtioPacketWriter::new(writer, mem) {
            Ok(w) => w,
            Err(e) => {
                self.queues.insert(0, vq);
                proof {
                    assert(self.queues@ =~= old_queues.update(0, popped));
                }
                return Err(DeliverError::Header(e));
            },
        };
        let ghost m1 = *mem;
        let ghost regs = pw.inner.regions();
        let ghost written = pw.inner.written_len as int;
        let sent = match data {
            None => self.device.guest_net.send_pending_packet(pw, mem),
            Some((key, d)) => self.device.guest_net.send_to_guest(pw, mem, key, d),
        };
        proof {
            match data {
                None => {
                    assert(pending_sent(net0, regs, written, m1, *mem, self.device.guest_net@, sent));
                    assert(pending_delivered(net0, self.device.guest_net@, sent));
                },
                Some((key, d)) => {
                    if find(net0.table, key@) != -1 {
                        assert(sent_as_planned(plan_data(addrs_of(net0), net0.table, find(net0.table, key@), d@), regs, written, m1, *mem, self.device.guest_net@.table, tcp_result(sent)));
                    }
                    assert(data_delivered(net0, key@, d@, self.device.guest_net@, sent));
                },
            }
        }
        let result = match sent {
            Ok(Some(written_len)) => {
                #[verifier::truncate]
                let len32 = written_len as u32;
                vq.push_used(mem, chain, len32);
                let before = self.irq_status;
                let added = vq.irq_status;
                let status = before | added;
                assert(status & before == before) by (bit_vector)
                    requires
                        status == before | added,
                ;
                self.irq_status = status;
                vq.irq_status = 0;
                Ok(self.irq_status != 0)
            },
            Ok(None) => Ok(self.irq_status != 0),
            Err(e) => Err(DeliverError::Send(e)),
        };
        self.queues.insert(0, vq);
        proof {
            assert(self.queues@ =~= old_queues.update(0, vq));
            assert(delivered(outgoing(data), net0, self.device.guest_net@, result, sent));
        }
        result
    }

    /// Whether the network has something to send to the guest.
    pub fn has_pending_packets(&self) -> (r: bool)
        ensures
            r == (self.device.guest_net@.pending_arp_reply || crate::net::tcp::has_pending(
                self.device.guest_net@.table,
            )),
    {
        self.device.guest_net.has_pending_packets()
    }

    /// Sends `data` to the guest on the connection with `key`, in the next
    /// receive buffer. Returns whether the interrupt line is to be raised.
    pub fn send_tcp_data(&mut self, mem: &mut GuestMemory, key: &ConnKey, data: &[u8]) -> (r: Result<
        bool,
        DeliverError,
    >)
        requires
            old(self).wf(),
            old(mem).wf(),
            data@.len() <= TCP_PAYLOAD_MAX,
        ensures
            final(self).wf(),
            final(mem).wf(),
            final(mem).base == old(mem).base,
            final(self).notified(old(self), 0),
            final(self).device.guest_mac == old(self).device.guest_mac,
            r is Ok ==> r->Ok_0 == (final(self).irq_status != 0),
            rx_blocked(old(self).queues@[0], *old(mem)) matches Some(e) ==> r == Err::<bool, DeliverError>(e)
                && final(self).device.guest_net@ == old(self).device.guest_net@ && final(mem).ram@ == old(
                mem,
            ).ram@ && (e is NoReceiveBuffer || e is QueueAddressOverflow ==> final(self).queues@[0] == old(
                self,
            ).queues@[0] && *final(mem) == *old(mem)),
            rx_blocked(old(self).queues@[0], *old(mem)) is None ==> r is Ok || r matches Err(DeliverError::Send(_)),
            (r is Ok || r matches Err(DeliverError::Send(_))) ==> exists|res: Result<Option<usize>, SendError>|
                delivered(Some((key@, data@)), old(self).device.guest_net@, final(self).device.guest_net@, r, res),
            !(r is Ok || r matches Err(DeliverError::Send(_))) ==> final(self).device.guest_net@ == old(
                self,
            ).device.guest_net@,
    {
        self.deliver(mem, Some((key, data)))
    }

    /// Sends the next pending packet to the guest, in the next receive
    /// buffer. Returns whether the interrupt line is to be raised.
    pub fn push_pending_packet(&mut self, mem: &mut GuestMemory) -> (r: Result<bool, DeliverError>)
        requires
            old(self).wf(),
            old(mem).wf(),
        ensures
            final(self).wf(),
            final(mem).wf(),
            final(mem).base == old(mem).base,
            final(self).notified(old(self), 0),
            final(self).device.guest_mac == old(self).device.guest_mac,
            r is Ok ==> r->Ok_0 == (final(self).irq_status != 0),
            rx_blocked(old(self).queues@[0], *old(mem)) matches Some(e) ==> r == Err::<bool, DeliverError>(e)
                && final(self).device.guest_net@ == old(self).device.guest_net@ && final(mem).ram@ == old(
                mem,
            ).ram@ && (e is NoReceiveBuffer || e is QueueAddressOverflow ==> final(self).queues@[0] == old(
                self,
            ).queues@[0] && *final(mem) == *old(mem)),
            rx_blocked(old(self).queues@[0], *old(mem)) is None ==> r is Ok || r matches Err(DeliverError::Send(_)),
            (r is Ok || r matches Err(DeliverError::Send(_))) ==> exists|res: Result<Option<usize>, SendError>|
                delivered(None, old(self).device.guest_net@, final(self).device.guest_net@, r, res),
            !(r is Ok || r matches Err(DeliverError::Send(_))) ==> final(self).device.guest_net@ == old(
                self,
            ).device.guest_net@,
    {
        self.deliver(mem, None)
    }
}

/// Data for a connection the network does not have is refused, and
/// nothing changes.
pub proof fn law_unknown_connection_refused(
    v: NetView,
    key: KeyView,
    data: Seq<u8>,
    w: NetView,
    r: Result<Option<usize>, SendError>,
)
    requires
        data_delivered(v, key, data, w, r),
        find(v.table, key) == -1,
    ensures
        r == Err::<Option<usize>, SendError>(SendError::UnknownConn),
        w == v,
{
}

/// Reading the configuration space at offset `o` gives the MAC address
/// from its byte `o` on: byte `j` of the buffer is byte `o + j` of the
/// address, for as many bytes as fit in the buffer and are left of the
/// address; the rest of the buffer keeps what it held. Beyond byte 5 the
/// offset is unknown. In particular, reading one byte at each offset `o`
/// gives byte `o` of the address.
pub proof fn law_config_reads_the_mac(mac: Seq<u8>, o: u64, dst: Seq<u8>)
    requires
        mac.len() == 6,
    ensures
        o > 5 ==> net_config(mac, o, dst) is None,
        o <= 5 ==> (net_config(mac, o, dst) matches Some(b) && b.len() == dst.len() && (forall|j: int|
            0 <= j < dst.len() && o + j < 6 ==> #[trigger] b[j] == mac[o + j]) && (forall|j: int|
            0 <= j < dst.len() && o + j >= 6 ==> #[trigger] b[j] == dst[j])),
        o <= 5 && dst.len() == 1 ==> net_config(mac, o, dst) == Some(seq![mac[o as int]]),
{
    if o <= 5 && dst.len() == 1 {
        let b = net_config(mac, o, dst)->Some_0;
        assert(b =~= seq![mac[o as int]]);
    }
}

} // verus!
