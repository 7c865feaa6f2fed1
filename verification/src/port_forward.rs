//! Forwarding host TCP ports to the guest: the listen channels the TCP/IP
//! server opens for the host ports, the connections they hand over, and
//! the data that flows between those channels and the guest.
//!
//! The channels themselves belong to the caller, which polls them and hands
//! each event (and the message it received, if any) to the forwarder; the
//! forwarder decides, opens connections to the guest and sends data on
//! them.

use vstd::prelude::*;
use std::collections::HashMap;
use crate::guest_memory::GuestMemory;
use crate::handle::HandleId;
use crate::net::packet::IpProto;
use crate::net::tcp::{find, has_pending, opening_conn, TCP_PAYLOAD_MAX};
use crate::net::{port_key, wrap16, ConnKey, GuestNet, KeyView, NetView, SendError};
use crate::poll::{Readiness, READINESS_READABLE};
use crate::text::{decimal, push_decimal, push_str};
use crate::virtio::device::VirtioMmio;
use crate::virtio::net::{delivered, rx_blocked, DeliverError, VirtioNet};

verus! {

/// A port forwarded from the host to the guest.
#[derive(Debug, Clone, Copy, PartialEq, Eq, Structural)]
pub enum Port {
    Tcp { host: u16, guest: u16 },
}

/// What a polled channel is to the forwarder.
#[derive(Debug, Clone, Copy)]
pub enum ChannelRole {
    /// The channel to the TCP/IP server.
    Tcpip,
    /// A listen channel for a host port forwarded to `guest_port`.
    Listen { guest_port: u16 },
    /// A connection forwarded to the guest over `conn_key`.
    Connected { conn_key: ConnKey },
}

/// A channel role as values.
pub enum RoleView {
    Tcpip,
    Listen { guest_port: u16 },
    Connected { conn_key: KeyView },
}

impl ChannelRole {
    pub open spec fn view(&self) -> RoleView {
        match *self {
            ChannelRole::Tcpip => RoleView::Tcpip,
            ChannelRole::Listen { guest_port } => RoleView::Listen { guest_port },
            ChannelRole::Connected { conn_key } => RoleView::Connected { conn_key: conn_key@ },
        }
    }
}

/// What the caller received on a readable channel.
#[derive(Debug)]
pub enum Incoming {
    /// A connection handed over on a listen channel, with its channel.
    Connect { ch: HandleId },
    /// Data on a connection.
    Data { data: Vec<u8> },
    /// A message of another kind.
    Other,
    /// A message that could not be parsed.
    Unparsable,
    /// Nothing was there.
    Empty,
    /// Receiving failed.
    Failed,
}

/// What handling an event did.
#[derive(Debug, Clone, Copy)]
pub enum Processed {
    /// Nothing to do.
    Ignored,
    /// A connection to the guest was opened for the channel `ch`.
    Connected { ch: HandleId, conn_key: ConnKey },
    /// Data went to the guest; whether the interrupt line is to be raised.
    Sent { irq: bool },
}

/// Why an event could not be handled.
#[derive(Debug, Clone, Copy)]
pub enum ForwardError {
    /// The TCP/IP server's channel became ready; nothing is expected on it.
    UnexpectedTcpipReadiness,
    /// Every remote port toward the guest port is taken.
    NoFreePort,
    /// The data does not fit in one segment.
    DataTooLong,
    /// The data could not be put into a receive buffer of the guest.
    Deliver(DeliverError),
}

/// The first channel with handle `h` in `chs`, or -1.
pub open spec fn role_index(chs: Seq<(HandleId, ChannelRole)>, h: HandleId) -> int
    decreases chs.len(),
{
    if chs.len() == 0 {
        -1
    } else if role_index(chs.drop_last(), h) != -1 {
        role_index(chs.drop_last(), h)
    } else if chs.last().0 == h {
        chs.len() - 1
    } else {
        -1
    }
}

/// The forwarder's channels: the TCP/IP server's, the listen channels and
/// the connections, each by its handle.
pub struct PortForwarder {
    pub channels: Vec<(HandleId, ChannelRole)>,
}

/// The result of a delivery that `r` reports.
pub open spec fn delivery_result(r: Result<Processed, ForwardError>) -> Result<bool, DeliverError> {
    match r {
        Ok(Processed::Sent { irq }) => Ok(irq),
        Err(ForwardError::Deliver(e)) => Err(e),
        _ => Err(DeliverError::NoReceiveBuffer),
    }
}

/// What sending data on a connection did: `r` reports a delivery; where
/// the data was sent, or sending it failed, the network changed as that
/// delivery does, and where no frame was written it stayed as it was.
pub open spec fn data_forwarded(
    old_net: NetView,
    new_net: NetView,
    key: KeyView,
    data: Seq<u8>,
    r: Result<Processed, ForwardError>,
) -> bool {
    &&& (r matches Ok(Processed::Sent { .. }) || r matches Err(ForwardError::Deliver(_)))
    &&& (r matches Ok(Processed::Sent { .. }) || r matches Err(ForwardError::Deliver(DeliverError::Send(_))))
        ==> exists|res| #[trigger] delivered(Some((key, data)), old_net, new_net, delivery_result(r), res)
    &&& (r matches Err(ForwardError::Deliver(e)) && !(e is Send) ==> new_net == old_net)
}

impl PortForwarder {
    /// A forwarder polling the TCP/IP server's channel and the listen
    /// channels of `listen_channels`, each for its guest port.
    pub fn new(tcpip: HandleId, listen_channels: &[(Port, HandleId)]) -> (r: PortForwarder)
        ensures
            r.channels@.len() == listen_channels@.len() + 1,
            r.channels@[0].0 == tcpip && r.channels@[0].1@ == RoleView::Tcpip,
            forall|i: int|
                0 <= i < listen_channels@.len() ==> r.channels@[i + 1].0 == (#[trigger] listen_channels@[i]).1
                    && r.channels@[i + 1].1@ == (RoleView::Listen {
                    guest_port: listen_channels@[i].0->guest,
                }),
    {
        let mut channels: Vec<(HandleId, ChannelRole)> = Vec::new();
        channels.push((tcpip, ChannelRole::Tcpip));
        let mut i: usize = 0;
        while i < listen_channels.len()
            invariant
                i <= listen_channels@.len(),
                channels@.len() == i + 1,
                channels@[0].0 == tcpip && channels@[0].1@ == RoleView::Tcpip,
                forall|j: int|
                    0 <= j < i ==> channels@[j + 1].0 == (#[trigger] listen_channels@[j]).1 && channels@[j
                        + 1].1@ == (RoleView::Listen { guest_port: listen_channels@[j].0->guest }),
            decreases listen_channels@.len() - i,
        {
            let (port, ch) = listen_channels[i];
            let Port::Tcp { guest, .. } = port;
            channels.push((ch, ChannelRole::Listen { guest_port: guest }));
            i += 1;
        }
        PortForwarder { channels }
    }

    /// The role of the channel with handle `h`.
    pub fn role_of(&self, h: HandleId) -> (r: Option<ChannelRole>)
        ensures
            role_index(self.channels@, h) == -1 ==> r is None,
            role_index(self.channels@, h) != -1 ==> r == Some(self.channels@[role_index(self.channels@, h)].1),
    {
        let mut i: usize = 0;
        while i < self.channels.len()
            invariant
                i <= self.channels@.len(),
                role_index(self.channels@.subrange(0, i as int), h) == -1,
            decreases self.channels@.len() - i,
        {
            proof {
                assert(self.channels@.subrange(0, i + 1).drop_last() =~= self.channels@.subrange(0, i as int));
            }
            if self.channels[i].0 == h {
                proof {
                    lemma_role_index_prefix(self.channels@, h, i + 1);
                }
                return Some(self.channels[i].1);
            }
            i += 1;
        }
        proof {
            assert(self.channels@.subrange(0, i as int) =~= self.channels@);
        }
        None
    }

    /// Whether the caller is to receive a message on the channel with
    /// handle `h` that became ready with `readiness`: a listen channel or a
    /// connection that is readable.
    pub fn wants_message(&self, h: HandleId, readiness: Readiness) -> (r: bool)
        ensures
            r == (role_index(self.channels@, h) != -1 && !(self.channels@[role_index(
                self.channels@,
                h,
            )].1@ is Tcpip) && readiness.0 & READINESS_READABLE == READINESS_READABLE),
    {
        match self.role_of(h) {
            Some(ChannelRole::Tcpip) => false,
            Some(_) => readiness.contains(Readiness(READINESS_READABLE)),
            None => false,
        }
    }
}

/// Two devices that differ in their network's state at most.
pub open spec fn only_network_differs(a: &VirtioMmio<VirtioNet>, b: &VirtioMmio<VirtioNet>) -> bool {
    &&& a.irq == b.irq
    &&& a.irq_status == b.irq_status
    &&& a.device.guest_mac == b.device.guest_mac
    &&& a.device_features_select == b.device_features_select
    &&& a.driver_features_select == b.driver_features_select
    &&& a.device_status == b.device_status
    &&& a.driver_features == b.driver_features
    &&& a.queue_select == b.queue_select
    &&& a.queues == b.queues
}

/// The network after a connection with key `k` was opened to guest port
/// `gp`, as `try_connect_to_guest` does it.
pub open spec fn connection_opened(old_net: NetView, new_net: NetView, k: ConnKey, gp: u16) -> bool {
    &&& k@ == port_key(IpProto::Tcp, k.remote_port, gp)
    &&& find(old_net.table, k@) == -1
    &&& new_net == (NetView {
        table: old_net.table.push((k@, opening_conn())),
        next_host_port: wrap16(k.remote_port + 1),
        ..old_net
    })
}

/// The role of the channel with handle `h`, if the forwarder has it.
pub open spec fn event_role(chs: Seq<(HandleId, ChannelRole)>, h: HandleId) -> Option<ChannelRole> {
    let i = role_index(chs, h);
    if i == -1 {
        None
    } else {
        Some(chs[i].1)
    }
}

pub open spec fn is_readable(readiness: Readiness) -> bool {
    readiness.0 & READINESS_READABLE == READINESS_READABLE
}

/// An event on a listen channel or a connection that asks for nothing: it
/// is not readable, or what came is not what the channel carries.
pub open spec fn ignored_event(role: Option<ChannelRole>, readiness: Readiness, incoming: Incoming) -> bool {
    ||| role matches Some(ChannelRole::Listen { .. }) && !(is_readable(readiness) && incoming is Connect)
    ||| role matches Some(ChannelRole::Connected { .. }) && !(is_readable(readiness) && incoming is Data)
}

/// Every remote port toward `guest_port` is taken.
pub open spec fn no_free_port(net: NetView, guest_port: u16) -> bool {
    forall|p: u16| find(net.table, #[trigger] port_key(IpProto::Tcp, p, guest_port)) != -1
}

/// The forwarder, the device and the memory are as they were.
pub open spec fn unchanged(
    s1: PortForwarder,
    s0: PortForwarder,
    n1: VirtioMmio<VirtioNet>,
    n0: VirtioMmio<VirtioNet>,
    m1: GuestMemory,
    m0: GuestMemory,
) -> bool {
    s1 == s0 && n1 == n0 && m1 == m0
}

/// An event that asks nothing changes nothing: one of a channel the
/// forwarder does not have, or one that asks for nothing (see
/// `ignored_event`), is ignored; one of the TCP/IP server's channel is
/// unexpected.
pub open spec fn nothing_asked(
    s0: PortForwarder,
    s1: PortForwarder,
    n0: VirtioMmio<VirtioNet>,
    n1: VirtioMmio<VirtioNet>,
    m0: GuestMemory,
    m1: GuestMemory,
    h: HandleId,
    readiness: Readiness,
    incoming: Incoming,
    r: Result<Processed, ForwardError>,
) -> bool {
    &&& event_role(s0.channels@, h) is None ==> (r matches Ok(Processed::Ignored) && unchanged(s1, s0, n1, n0, m1, m0))
    &&& event_role(s0.channels@, h) matches Some(ChannelRole::Tcpip) ==> (r matches Err(
        ForwardError::UnexpectedTcpipReadiness,
    ) && unchanged(s1, s0, n1, n0, m1, m0))
    &&& ignored_event(event_role(s0.channels@, h), readiness, incoming) ==> (r matches Ok(Processed::Ignored)
        && unchanged(s1, s0, n1, n0, m1, m0))
}

/// A connection handed over on a readable listen channel is opened to the
/// channel's guest port, and its channel joins the forwarder; where every
/// remote port is taken, nothing changes.
pub open spec fn connection_handed_over(
    s0: PortForwarder,
    s1: PortForwarder,
    n0: VirtioMmio<VirtioNet>,
    n1: VirtioMmio<VirtioNet>,
    m0: GuestMemory,
    m1: GuestMemory,
    h: HandleId,
    readiness: Readiness,
    incoming: Incoming,
    r: Result<Processed, ForwardError>,
) -> bool {
    event_role(s0.channels@, h) matches Some(ChannelRole::Listen { guest_port }) ==> (is_readable(readiness) ==> (
    incoming matches Incoming::Connect { ch } ==> if no_free_port(n0.device.guest_net@, guest_port) {
        r matches Err(ForwardError::NoFreePort) && unchanged(s1, s0, n1, n0, m1, m0)
    } else {
        &&& r matches Ok(Processed::Connected { ch: c, conn_key: k })
        &&& c == ch
        &&& connection_opened(n0.device.guest_net@, n1.device.guest_net@, k, guest_port)
        &&& s1.channels@ == s0.channels@.push((ch, ChannelRole::Connected { conn_key: k }))
        &&& only_network_differs(&n1, &n0)
        &&& m1 == m0
    }))
}

/// Data received on a readable connection goes to the guest on the
/// connection, in the next receive buffer of queue 0, unless it does not
/// fit in one segment.
pub open spec fn data_received(
    s0: PortForwarder,
    s1: PortForwarder,
    n0: VirtioMmio<VirtioNet>,
    n1: VirtioMmio<VirtioNet>,
    m0: GuestMemory,
    m1: GuestMemory,
    h: HandleId,
    readiness: Readiness,
    incoming: Incoming,
    r: Result<Processed, ForwardError>,
) -> bool {
    event_role(s0.channels@, h) matches Some(ChannelRole::Connected { conn_key }) ==> (is_readable(readiness) ==> (
    incoming matches Incoming::Data { data } ==> if data@.len() > TCP_PAYLOAD_MAX {
        r matches Err(ForwardError::DataTooLong) && unchanged(s1, s0, n1, n0, m1, m0)
    } else {
        &&& s1 == s0
        &&& n1.notified(&n0, 0)
        &&& n1.device.guest_mac == n0.device.guest_mac
        &&& data_forwarded(n0.device.guest_net@, n1.device.guest_net@, conn_key@, data@, r)
        &&& rx_blocked(n0.queues@[0], m0) matches Some(e) ==> r == Err::<Processed, ForwardError>(
            ForwardError::Deliver(e),
        )
        &&& rx_blocked(n0.queues@[0], m0) is None ==> r matches Ok(Processed::Sent { .. }) || r matches Err(
            ForwardError::Deliver(DeliverError::Send(_)),
        )
    }))
}

/// What handling an event does, as `process_event` says.
pub open spec fn event_handled(
    s0: PortForwarder,
    s1: PortForwarder,
    n0: VirtioMmio<VirtioNet>,
    n1: VirtioMmio<VirtioNet>,
    m0: GuestMemory,
    m1: GuestMemory,
    h: HandleId,
    readiness: Readiness,
    incoming: Incoming,
    r: Result<Processed, ForwardError>,
) -> bool {
    &&& nothing_asked(s0, s1, n0, n1, m0, m1, h, readiness, incoming, r)
    &&& connection_handed_over(s0, s1, n0, n1, m0, m1, h, readiness, incoming, r)
    &&& data_received(s0, s1, n0, n1, m0, m1, h, readiness, incoming, r)
}

impl PortForwarder {
    /// Opens a TCP connection to `guest_port` of the guest for the channel
    /// `ch` a listen channel handed over, and polls `ch` as that
    /// connection. Fails, changing nothing, where every remote port toward
    /// `guest_port` is taken.
    pub fn new_connection(&mut self, net: &mut GuestNet, ch: HandleId, guest_port: u16) -> (r: Result<
        ConnKey,
        ForwardError,
    >)
        requires
            old(net).wf(),
        ensures
            final(net).wf(),
            no_free_port(old(net)@, guest_port) ==> (r matches Err(ForwardError::NoFreePort) && *final(net)
                == *old(net) && *final(self) == *old(self)),
            !no_free_port(old(net)@, guest_port) ==> (r matches Ok(k) && connection_opened(
                old(net)@,
                final(net)@,
                k,
                guest_port,
            ) && final(self).channels@ == old(self).channels@.push((ch, ChannelRole::Connected { conn_key: k }))),
    {
        match net.try_connect_to_guest(guest_port, IpProto::Tcp) {
            Some(conn_key) => {
                self.channels.push((ch, ChannelRole::Connected { conn_key }));
                Ok(conn_key)
            },
            None => Err(ForwardError::NoFreePort),
        }
    }
}

impl PortForwarder {
    /// Handles an event of the channel with handle `h`, which became ready
    /// with `readiness` and on which the caller received `incoming` (see
    /// `wants_message`). A connection handed over on a listen channel is
    /// opened to the listen channel's guest port and its channel joins the
    /// forwarder; data on a connection goes to the guest. The TCP/IP
    /// server's channel has nothing to say; everything else is ignored.
    pub fn process_event(
        &mut self,
        net: &mut VirtioMmio<VirtioNet>,
        mem: &mut GuestMemory,
        h: HandleId,
        readiness: Readiness,
        incoming: Incoming,
    ) -> (r: Result<Processed, ForwardError>)
        requires
            old(net).wf(),
            old(mem).wf(),
        ensures
            final(net).wf(),
            final(mem).wf(),
            final(mem).base == old(mem).base,
            nothing_asked(*old(self), *final(self), *old(net), *final(net), *old(mem), *final(mem), h, readiness, incoming, r),
            connection_handed_over(*old(self), *final(self), *old(net), *final(net), *old(mem), *final(mem), h, readiness, incoming, r),
            data_received(*old(self), *final(self), *old(net), *final(net), *old(mem), *final(mem), h, readiness, incoming, r),
    {
        let role = match self.role_of(h) {
            Some(role) => role,
            None => {
                return Ok(Processed::Ignored);
            },
        };
        let readable = readiness.contains(Readiness(READINESS_READABLE));
        match role {
            ChannelRole::Tcpip => Err(ForwardError::UnexpectedTcpipReadiness),
            ChannelRole::Listen { guest_port } => {
                if !readable {
                    return Ok(Processed::Ignored);
                }
                match incoming {
                    Incoming::Connect { ch } => {
                        match self.new_connection(&mut net.device.guest_net, ch, guest_port) {
                            Ok(conn_key) => Ok(Processed::Connected { ch, conn_key }),
                            Err(e) => Err(e),
                        }
                    },
                    _ => Ok(Processed::Ignored),
                }
            },
            ChannelRole::Connected { conn_key } => {
                if !readable {
                    return Ok(Processed::Ignored);
                }
                match incoming {
                    Incoming::Data { data } => {
                        if data.len() > TCP_PAYLOAD_MAX {
                            return Err(ForwardError::DataTooLong);
                        }
                        let ghost gn0 = net.device.guest_net@;
                        let sent = net.send_tcp_data(mem, &conn_key, data.as_slice());
                        let r = match sent {
                            Ok(irq) => Ok(Processed::Sent { irq }),
                            Err(e) => Err(ForwardError::Deliver(e)),
                        };
                        proof {
                            let gn1 = net.device.guest_net@;
                            let d = delivery_result(r);
                            assert(d == sent);
                            if sent is Ok || sent matches Err(DeliverError::Send(_)) {
                                let w = choose|w| delivered(Some((conn_key@, data@)), gn0, gn1, sent, w);
                                assert(delivered(Some((conn_key@, data@)), gn0, gn1, d, w));
                            }
                            assert(data_forwarded(gn0, gn1, conn_key@, data@, r));
                        }
                        r
                    },
                    _ => Ok(Processed::Ignored),
                }
            },
        }
    }
}

/// The most pending packets one flush sends.
pub const FLUSH_LIMIT: u32 = 0x1_0000;

/// The first connection over a key equal to `key` in `chs`, or -1.
pub open spec fn conn_index(chs: Seq<(HandleId, ChannelRole)>, key: KeyView) -> int
    decreases chs.len(),
{
    if chs.len() == 0 {
        -1
    } else if conn_index(chs.drop_last(), key) != -1 {
        conn_index(chs.drop_last(), key)
    } else if chs.last().1 matches ChannelRole::Connected { conn_key } && conn_key@ == key {
        chs.len() - 1
    } else {
        -1
    }
}

/// Whether the network has something to send to the guest.
pub open spec fn net_pending(v: NetView) -> bool {
    v.pending_arp_reply || has_pending(v.table)
}

/// One send to the guest: the network changed as sending its next pending
/// packet into a receive buffer does.
pub open spec fn send_step(v: NetView, w: NetView) -> bool {
    exists|rr: Result<bool, DeliverError>, sr: Result<Option<usize>, SendError>|
        #[trigger] delivered(None, v, w, rr, sr)
}

/// What a flush did: whether nothing is left to send, and whether the
/// network's interrupt line is to be raised.
#[derive(Debug, Clone, Copy, PartialEq, Eq, Structural)]
pub struct Flushed {
    pub done: bool,
    pub irq: bool,
}

/// The network went from `v` to `w` through the sends `p`, one step each.
pub open spec fn flush_path(p: Seq<NetView>, v: NetView, w: NetView) -> bool {
    &&& p.len() >= 1
    &&& p[0] == v
    &&& p.last() == w
    &&& forall|i: int| 0 <= i < p.len() - 1 ==> send_step(#[trigger] p[i], p[i + 1])
}

impl PortForwarder {
    /// Sends the network's pending packets to the guest, one receive buffer
    /// each, until none is left (at most `FLUSH_LIMIT` of them). Returns
    /// whether none is left and whether the interrupt line is to be raised.
    /// Stops at the first send that fails.
    pub fn flush_pending_packets(&self, net: &mut VirtioMmio<VirtioNet>, mem: &mut GuestMemory) -> (r: Result<
        Flushed,
        DeliverError,
    >)
        requires
            old(net).wf(),
            old(mem).wf(),
        ensures
            final(net).wf(),
            final(mem).wf(),
            final(mem).base == old(mem).base,
            final(net).device.guest_mac == old(net).device.guest_mac,
            final(net).irq == old(net).irq,
            r matches Ok(f) ==> f.done == !net_pending(final(net).device.guest_net@) && f.irq == (
            final(net).irq_status != 0),
            !net_pending(old(net).device.guest_net@) ==> r == Ok::<Flushed, DeliverError>(
                Flushed { done: true, irq: old(net).irq_status != 0 },
            ) && *final(net) == *old(net) && *final(mem) == *old(mem),
            net_pending(old(net).device.guest_net@) ==> (rx_blocked(old(net).queues@[0], *old(mem)) matches Some(e)
                ==> r == Err::<Flushed, DeliverError>(e) && final(net).device.guest_net@ == old(
                net,
            ).device.guest_net@),
            r matches Err(e) ==> ((e is NoReceiveBuffer || e is QueueAddressOverflow) ==> rx_blocked(
                final(net).queues@[0],
                *final(mem),
            ) == Some(e)),
            exists|p: Seq<NetView>|
                #[trigger] flush_path(p, old(net).device.guest_net@, final(net).device.guest_net@) && p.len()
                    <= FLUSH_LIMIT + 1 && (r matches Ok(f) && !f.done ==> p.len() == FLUSH_LIMIT + 1),
    {
        let ghost gn0 = net.device.guest_net@;
        let ghost mut path: Seq<NetView> = seq![gn0];
        let mut k: u32 = 0;
        while k < FLUSH_LIMIT
            invariant
                net.wf(),
                mem.wf(),
                mem.base == old(mem).base,
                net.device.guest_mac == old(net).device.guest_mac,
                net.irq == old(net).irq,
                gn0 == old(net).device.guest_net@,
                k <= FLUSH_LIMIT,
                path.len() == k + 1,
                flush_path(path, gn0, net.device.guest_net@),
                k == 0 ==> *net == *old(net) && *mem == *old(mem),
                k > 0 ==> net_pending(gn0) && rx_blocked(old(net).queues@[0], *old(mem)) is None,
            decreases FLUSH_LIMIT - k,
        {
            if !net.has_pending_packets() {
                return Ok(Flushed { done: true, irq: net.irq_status != 0 });
            }
            let ghost v = net.device.guest_net@;
            let res = net.push_pending_packet(mem);
            proof {
                let w = net.device.guest_net@;
                if res is Ok || res matches Err(DeliverError::Send(_)) {
                    let sr = choose|sr: Result<Option<usize>, SendError>| delivered(None, v, w, res, sr);
                    assert(delivered(None, v, w, res, sr));
                    assert(send_step(v, w));
                    let p2 = path.push(w);
                    assert forall|i: int| 0 <= i < p2.len() - 1 implies send_step(#[trigger] p2[i], p2[i + 1]) by {
                        if i < path.len() - 1 {
                            assert(p2[i] == path[i] && p2[i + 1] == path[i + 1]);
                        }
                    }
                    path = p2;
                    assert(flush_path(path, gn0, w));
                }
            }
            match res {
                Ok(_) => {},
                Err(e) => {
                    return Err(e);
                },
            }
            k += 1;
        }
        Ok(Flushed { done: !net.has_pending_packets(), irq: net.irq_status != 0 })
    }

    /// The channel of the connection over `key`, where data the guest sent
    /// on it goes.
    pub fn channel_for(&self, key: &ConnKey) -> (r: Option<HandleId>)
        ensures
            conn_index(self.channels@, key@) == -1 ==> r is None,
            conn_index(self.channels@, key@) != -1 ==> r == Some(self.channels@[conn_index(self.channels@, key@)].0),
    {
        let mut i: usize = 0;
        while i < self.channels.len()
            invariant
                i <= self.channels@.len(),
                conn_index(self.channels@.subrange(0, i as int), key@) == -1,
            decreases self.channels@.len() - i,
        {
            proof {
                assert(self.channels@.subrange(0, i + 1).drop_last() =~= self.channels@.subrange(0, i as int));
            }
            if let ChannelRole::Connected { conn_key } = self.channels[i].1 {
                if conn_key.same_as(key) {
                    proof {
                        lemma_conn_index_prefix(self.channels@, key@, i + 1);
                    }
                    return Some(self.channels[i].0);
                }
            }
            i += 1;
        }
        proof {
            assert(self.channels@.subrange(0, i as int) =~= self.channels@);
        }
        None
    }
}

/// Where a connection over `key` is the first in the first `k` channels,
/// it is the first in all.
proof fn lemma_conn_index_prefix(chs: Seq<(HandleId, ChannelRole)>, key: KeyView, k: int)
    requires
        0 < k <= chs.len(),
        conn_index(chs.subrange(0, k - 1), key) == -1,
        chs[k - 1].1 matches ChannelRole::Connected { conn_key } && conn_key@ == key,
    ensures
        conn_index(chs, key) == k - 1,
    decreases chs.len(),
{
    if k < chs.len() {
        assert(chs.drop_last().subrange(0, k - 1) =~= chs.subrange(0, k - 1));
        lemma_conn_index_prefix(chs.drop_last(), key, k);
    } else {
        assert(chs.drop_last() =~= chs.subrange(0, k - 1));
    }
}

/// The address the TCP/IP server is asked to listen on for host port
/// `host`.
pub open spec fn listen_uri(host: u16) -> Seq<char> {
    "tcp-listen:0.0.0.0:"@ + decimal(host as nat)
}

/// Why the listen channels could not be set up.
#[derive(Debug, Clone, Copy, PartialEq, Eq, Structural)]
pub enum BuildError {
    /// A reply to a request that was never made, or was answered already.
    UnknownCallId,
}

/// Sets up a forwarder: asks the TCP/IP server for a listen channel per
/// port (call ID = the port's index), and collects the replies.
pub struct Builder {
    /// The ports to forward, in order.
    pub ports: Vec<Port>,
    /// The requests not answered yet: the port of each call ID.
    pub remaining: HashMap<u32, Port>,
    /// The listen channels opened so far, in the order of the replies.
    pub listen_channels: Vec<(Port, HandleId)>,
}

/// The requests still to be answered among the first `n` ports, in the
/// order of the ports: each one's call ID and the address to listen on.
pub open spec fn pending_requests(ports: Seq<Port>, remaining: Map<u32, Port>, n: int) -> Seq<(u32, Seq<char>)>
    decreases n,
{
    if n <= 0 {
        Seq::empty()
    } else {
        pending_requests(ports, remaining, n - 1) + if remaining.contains_key((n - 1) as u32) {
            seq![((n - 1) as u32, listen_uri(ports[n - 1]->host))]
        } else {
            Seq::empty()
        }
    }
}

impl Builder {
    /// Every call ID is the index of a port, and each unanswered request
    /// is that port's.
    pub open spec fn wf(&self) -> bool {
        &&& self.ports@.len() <= u32::MAX
        &&& forall|k: u32|
            #[trigger] self.remaining@.contains_key(k) ==> k < self.ports@.len() && self.remaining@[k]
                == self.ports@[k as int]
    }

    /// A builder for `ports`, with every request still to be answered.
    pub fn new(ports: &[Port]) -> (r: Builder)
        requires
            ports@.len() <= u32::MAX,
        ensures
            r.wf(),
            r.ports@ == ports@,
            r.remaining@ == Map::new(|k: u32| k < ports@.len(), |k: u32| ports@[k as int]),
            r.listen_channels@.len() == 0,
    {
        broadcast use vstd::std_specs::hash::group_hash_axioms;

        let mut remaining: HashMap<u32, Port> = HashMap::new();
        let mut all: Vec<Port> = Vec::new();
        let mut i: usize = 0;
        while i < ports.len()
            invariant
                i <= ports@.len(),
                ports@.len() <= u32::MAX,
                all@ == ports@.subrange(0, i as int),
                remaining@ == Map::new(|k: u32| k < i, |k: u32| ports@[k as int]),
            decreases ports@.len() - i,
        {
            remaining.insert(i as u32, ports[i]);
            all.push(ports[i]);
            proof {
                assert(remaining@ =~= Map::new(|k: u32| k < i + 1, |k: u32| ports@[k as int]));
                assert(all@ =~= ports@.subrange(0, i + 1));
            }
            i += 1;
        }
        proof {
            assert(all@ =~= ports@);
        }
        Builder { ports: all, remaining, listen_channels: Vec::new() }
    }

    /// The requests to send: for each unanswered one, in the order of the
    /// ports, its call ID and the address to listen on.
    pub fn open_requests(&self) -> (r: Vec<(u32, String)>)
        requires
            self.wf(),
        ensures
            r@.map_values(|e: (u32, String)| (e.0, e.1@)) == pending_requests(
                self.ports@,
                self.remaining@,
                self.ports@.len() as int,
            ),
    {
        broadcast use vstd::std_specs::hash::group_hash_axioms;

        let mut r: Vec<(u32, String)> = Vec::new();
        let mut i: usize = 0;
        while i < self.ports.len()
            invariant
                i <= self.ports@.len(),
                self.wf(),
                r@.map_values(|e: (u32, String)| (e.0, e.1@)) == pending_requests(
                    self.ports@,
                    self.remaining@,
                    i as int,
                ),
            decreases self.ports@.len() - i,
        {
            let ghost before = r@;
            let call_id = i as u32;
            if self.remaining.contains_key(&call_id) {
                let Port::Tcp { host, .. } = self.ports[i];
                let mut uri = String::new();
                push_str(&mut uri, "tcp-listen:0.0.0.0:");
                push_decimal(&mut uri, host as u64);
                r.push((call_id, uri));
                proof {
                    assert(r@.map_values(|e: (u32, String)| (e.0, e.1@)) =~= before.map_values(
                        |e: (u32, String)| (e.0, e.1@),
                    ).push((call_id, listen_uri(self.ports@[i as int]->host))));
                    reveal_strlit("tcp-listen:0.0.0.0:");
                }
            }
            proof {
                let pre = pending_requests(self.ports@, self.remaining@, i as int);
                assert(pre + Seq::<(u32, Seq<char>)>::empty() =~= pre);
            }
            i += 1;
        }
        r
    }

    /// Takes the reply to the request with `call_id`: its port's listen
    /// channel is `handle`.
    pub fn on_open_reply(&mut self, call_id: u32, handle: HandleId) -> (r: Result<(), BuildError>)
        requires
            old(self).wf(),
        ensures
            final(self).wf(),
            r is Err <==> !old(self).remaining@.contains_key(call_id),
            r is Err ==> *final(self) == *old(self),
            r is Ok ==> final(self).remaining@ == old(self).remaining@.remove(call_id) && final(self).ports@ == old(
                self,
            ).ports@ && final(self).listen_channels@ == old(self).listen_channels@.push(
                (old(self).remaining@[call_id], handle),
            ),
    {
        broadcast use vstd::std_specs::hash::group_hash_axioms;

        if !self.remaining.contains_key(&call_id) {
            return Err(BuildError::UnknownCallId);
        }
        match self.remaining.remove(&call_id) {
            Some(port) => {
                self.listen_channels.push((port, handle));
                Ok(())
            },
            None => Err(BuildError::UnknownCallId),
        }
    }

    /// Whether every request has been answered.
    pub fn is_done(&self) -> (r: bool)
        ensures
            r == (self.remaining@.len() == 0),
    {
        broadcast use vstd::std_specs::hash::group_hash_axioms;

        self.remaining.len() == 0
    }

    /// The forwarder polling the TCP/IP server's channel `tcpip` and the
    /// listen channels collected.
    pub fn build(self, tcpip: HandleId) -> (r: PortForwarder)
        ensures
            r.channels@.len() == self.listen_channels@.len() + 1,
            r.channels@[0].0 == tcpip && r.channels@[0].1@ == RoleView::Tcpip,
            forall|i: int|
                0 <= i < self.listen_channels@.len() ==> r.channels@[i + 1].0 == (
                #[trigger] self.listen_channels@[i]).1 && r.channels@[i + 1].1@ == (RoleView::Listen {
                    guest_port: self.listen_channels@[i].0->guest,
                }),
    {
        PortForwarder::new(tcpip, self.listen_channels.as_slice())
    }
}

/// Where `h` is in the first `k` channels, it is where it is in all.
proof fn lemma_role_index_prefix(chs: Seq<(HandleId, ChannelRole)>, h: HandleId, k: int)
    requires
        0 < k <= chs.len(),
        role_index(chs.subrange(0, k - 1), h) == -1,
        chs[k - 1].0 == h,
    ensures
        role_index(chs, h) == k - 1,
    decreases chs.len(),
{
    if k < chs.len() {
        assert(chs.drop_last().subrange(0, k - 1) =~= chs.subrange(0, k - 1));
        lemma_role_index_prefix(chs.drop_last(), h, k);
    } else {
        assert(chs.drop_last() =~= chs.subrange(0, k - 1));
    }
}

/// Every connection the forwarder keeps is one the network has.
pub open spec fn conns_known(chs: Seq<(HandleId, ChannelRole)>, net: NetView) -> bool {
    forall|i: int|
        0 <= i < chs.len() && (#[trigger] chs[i]).1 is Connected ==> exists|j: int|
            0 <= j < net.table.len() && #[trigger] net.table[j].0 == chs[i].1->conn_key@
}

proof fn lemma_conn_index(chs: Seq<(HandleId, ChannelRole)>, key: KeyView)
    ensures
        conn_index(chs, key) == -1 || (0 <= conn_index(chs, key) < chs.len() && (chs[conn_index(
            chs,
            key,
        )].1 matches ChannelRole::Connected { conn_key } && conn_key@ == key)),
        conn_index(chs, key) == -1 ==> forall|i: int|
            0 <= i < chs.len() && (#[trigger] chs[i]).1 is Connected ==> chs[i].1->conn_key@ != key,
    decreases chs.len(),
{
    if chs.len() > 0 {
        lemma_conn_index(chs.drop_last(), key);
        if conn_index(chs, key) == -1 {
            assert forall|i: int|
                0 <= i < chs.len() && (#[trigger] chs[i]).1 is Connected implies chs[i].1->conn_key@ != key by {
                if i < chs.len() - 1 {
                    assert(chs.drop_last()[i] == chs[i]);
                }
            }
        }
    }
}

/// A connection the forwarder opens for a channel is where the guest's
/// data on it goes back: given that the forwarder knew only connections
/// the network has, the new connection's key leads to its channel, and
/// the forwarder again knows only connections the network has.
pub proof fn law_opened_connection_routes_back(
    chs: Seq<(HandleId, ChannelRole)>,
    old_net: NetView,
    new_net: NetView,
    ch: HandleId,
    k: ConnKey,
    guest_port: u16,
)
    requires
        conns_known(chs, old_net),
        connection_opened(old_net, new_net, k, guest_port),
    ensures
        conn_index(chs.push((ch, ChannelRole::Connected { conn_key: k })), k@) == chs.len(),
        conns_known(chs.push((ch, ChannelRole::Connected { conn_key: k })), new_net),
{
    let chs2 = chs.push((ch, ChannelRole::Connected { conn_key: k }));
    crate::net::tcp::lemma_find_from(old_net.table, k@, 0);
    lemma_conn_index(chs, k@);
    if conn_index(chs, k@) != -1 {
        let i = conn_index(chs, k@);
        assert(chs[i].1 is Connected);
        let j = choose|j: int| 0 <= j < old_net.table.len() && #[trigger] old_net.table[j].0 == chs[i].1->conn_key@;
        assert(old_net.table[j].0 != k@);
    }
    assert(chs2.drop_last() =~= chs);
    assert forall|i: int| 0 <= i < chs2.len() && (#[trigger] chs2[i]).1 is Connected implies exists|j: int|
        0 <= j < new_net.table.len() && #[trigger] new_net.table[j].0 == chs2[i].1->conn_key@ by {
        if i < chs.len() {
            assert(chs2[i] == chs[i]);
            let j = choose|j: int| 0 <= j < old_net.table.len() && #[trigger] old_net.table[j].0 == chs[i].1->conn_key@;
            assert(new_net.table[j] == old_net.table[j]);
        } else {
            assert(new_net.table[old_net.table.len() as int].0 == k@);
        }
    }
}

} // verus!
