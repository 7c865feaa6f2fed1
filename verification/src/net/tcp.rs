//! TCP connections with the guest, driven from the host side: the host
//! opens each connection, forwards data both ways and answers the guest's
//! segments.

use vstd::prelude::*;
use crate::guest_memory::GuestMemory;
use crate::net::builder::{tcp_frame_bytes, tcp_total_len, PacketBuilder, TxPacket, FRAME_LEN_MAX};
use crate::net::packet::{IpProto, Ipv4Addr, MacAddr};
use crate::net::parser::TcpRx;
use crate::net::{ConnKey, KeyView, SendError};
use crate::virtio::desc_chain::wr_bytes;
use crate::virtio::net::VirtioPacketWriter;
use std::collections::VecDeque;

verus! {

pub const TCP_FIN: u8 = 0x01;
pub const TCP_SYN: u8 = 0x02;
pub const TCP_RST: u8 = 0x04;
pub const TCP_PSH: u8 = 0x08;
pub const TCP_ACK: u8 = 0x10;

/// The window the host advertises.
pub const TCP_WINDOW: u16 = 65535;

/// The states a connection goes through.
#[derive(Debug, Clone, Copy, PartialEq, Eq, Structural)]
pub enum TcpConnState {
    SynSent,
    Established,
    FinWait1,
    FinWait2,
    Closed,
}

/// `a + b` modulo 2^32.
pub open spec fn wrap_add32(a: u32, b: int) -> u32 {
    ((a + b) % 0x1_0000_0000) as u32
}

/// A connection: its state, the sequence numbers to send and to
/// acknowledge, data waiting for the handshake, and the flags of the reply
/// still to be sent.
pub struct TcpConn {
    pub state: TcpConnState,
    pub seq: u32,
    pub ack: u32,
    pub window: u16,
    pub queued_data: VecDeque<Vec<u8>>,
    pub pending_flags: u8,
}

/// A connection as values.
pub struct ConnView {
    pub state: TcpConnState,
    pub seq: u32,
    pub ack: u32,
    pub window: u16,
    pub queued: Seq<Seq<u8>>,
    pub pending_flags: u8,
}

impl TcpConn {
    pub open spec fn view(&self) -> ConnView {
        ConnView {
            state: self.state,
            seq: self.seq,
            ack: self.ack,
            window: self.window,
            queued: self.queued_data@.map_values(|v: Vec<u8>| v@),
            pending_flags: self.pending_flags,
        }
    }
}

/// The connection table as values.
pub open spec fn conns_view(conns: Seq<(ConnKey, TcpConn)>) -> Seq<(KeyView, ConnView)> {
    conns.map_values(|e: (ConnKey, TcpConn)| (e.0@, e.1@))
}

impl TcpConn {
    /// A connection whose SYN, with sequence number `initial_seq`, is on
    /// its way.
    pub fn new_syn_sent(initial_seq: u32) -> (r: TcpConn)
        ensures
            r.state == TcpConnState::SynSent,
            r.seq == wrap_add32(initial_seq, 1),
            r.ack == 0,
            r.window == TCP_WINDOW,
            r.queued_data@.len() == 0,
            r.pending_flags == 0,
    {
        TcpConn {
            state: TcpConnState::SynSent,
            seq: initial_seq.wrapping_add(1),
            ack: 0,
            window: TCP_WINDOW,
            queued_data: VecDeque::new(),
            pending_flags: 0,
        }
    }

    pub fn is_established(&self) -> (r: bool)
        ensures
            r == (self.state == TcpConnState::Established),
    {
        match self.state {
            TcpConnState::Established => true,
            _ => false,
        }
    }

    /// Queues data until the connection is established; an established
    /// connection takes none.
    pub fn queue_data(&mut self, data: Vec<u8>)
        ensures
            old(self).state != TcpConnState::Established ==> final(self).queued_data@ == old(self).queued_data@.push(data),
            old(self).state == TcpConnState::Established ==> final(self).queued_data@ == old(self).queued_data@,
            final(self).state == old(self).state && final(self).seq == old(self).seq && final(self).ack == old(self).ack && final(self).window == old(self).window && final(self).pending_flags == old(self).pending_flags,
    {
        if !self.is_established() {
            self.queued_data.push_back(data);
        }
    }

    /// Advances the sequence number by `bytes`, modulo 2^32.
    pub fn advance_seq(&mut self, bytes: u32)
        ensures
            final(self).seq == wrap_add32(old(self).seq, bytes as int),
            final(self).state == old(self).state && final(self).ack == old(self).ack && final(self).window == old(self).window && final(self).pending_flags == old(self).pending_flags
                && final(self).queued_data@ == old(self).queued_data@,
    {
        self.seq = self.seq.wrapping_add(bytes);
    }

    pub fn update_ack(&mut self, ack: u32)
        ensures
            final(self).ack == ack,
            final(self).state == old(self).state && final(self).seq == old(self).seq && final(self).window == old(self).window && final(self).pending_flags == old(self).pending_flags
                && final(self).queued_data@ == old(self).queued_data@,
    {
        self.ack = ack;
    }

    pub fn set_established(&mut self, ack: u32)
        ensures
            final(self).state == TcpConnState::Established,
            final(self).ack == ack,
            final(self).seq == old(self).seq && final(self).window == old(self).window && final(self).pending_flags == old(self).pending_flags && final(self).queued_data@ == old(self).queued_data@,
    {
        self.state = TcpConnState::Established;
        self.ack = ack;
    }

    pub fn close(&mut self)
        ensures
            final(self).state == TcpConnState::Closed,
            final(self).seq == old(self).seq && final(self).ack == old(self).ack && final(self).window == old(self).window && final(self).pending_flags == old(self).pending_flags
                && final(self).queued_data@ == old(self).queued_data@,
    {
        self.state = TcpConnState::Closed;
    }

    /// Adds flags to the reply still to be sent.
    pub fn set_pending_flags(&mut self, flags: u8)
        ensures
            final(self).pending_flags == old(self).pending_flags | flags,
            final(self).state == old(self).state && final(self).seq == old(self).seq && final(self).ack == old(self).ack && final(self).window == old(self).window && final(self).queued_data@ == old(self).queued_data@,
    {
        self.pending_flags = self.pending_flags | flags;
    }

    pub fn has_pending_replies(&self) -> (r: bool)
        ensures
            r == (self.pending_flags != 0),
    {
        self.pending_flags != 0
    }

    /// Moves the connection on a segment from the guest with `flags`,
    /// sequence number `seq_num` and `payload_len` bytes of data, as
    /// `tcp_step` says; returns whether the data is handed on.
    pub fn step(&mut self, flags: u8, seq_num: u32, payload_len: usize) -> (r: bool)
        ensures
            fields_of(final(self)@) == tcp_step(fields_of(old(self)@), flags, seq_num, payload_len as nat),
            final(self).seq == old(self).seq,
            final(self).window == old(self).window,
            final(self).queued_data@ == old(self).queued_data@,
            r == tcp_forwards(fields_of(old(self)@), flags, payload_len as nat),
    {
        let syn = (flags & TCP_SYN) != 0;
        let ack = (flags & TCP_ACK) != 0;
        let fin = (flags & TCP_FIN) != 0;
        let rst = (flags & TCP_RST) != 0;
        match self.state {
            TcpConnState::SynSent => {
                if rst {
                    self.close();
                } else if syn && ack {
                    self.set_established(seq_num.wrapping_add(1));
                    self.set_pending_flags(TCP_ACK);
                }
                false
            },
            TcpConnState::Established => {
                if rst {
                    self.close();
                    false
                } else if fin {
                    self.state = TcpConnState::FinWait1;
                    self.update_ack(seq_num.wrapping_add(1));
                    self.set_pending_flags(TCP_FIN | TCP_ACK);
                    false
                } else if payload_len > 0 {
                    let len = payload_len as u64;
                    #[verifier::truncate]
                    let len32 = len as u32;
                    assert(len32 == len % 0x1_0000_0000) by (bit_vector)
                        requires
                            len32 == len as u32,
                    ;
                    self.update_ack(seq_num.wrapping_add(len32));
                    self.set_pending_flags(TCP_ACK);
                    true
                } else {
                    false
                }
            },
            TcpConnState::FinWait1 => {
                if ack {
                    self.state = TcpConnState::FinWait2;
                }
                false
            },
            TcpConnState::FinWait2 => {
                if fin {
                    self.update_ack(seq_num.wrapping_add(1));
                    self.set_pending_flags(TCP_ACK);
                    self.close();
                }
                false
            },
            TcpConnState::Closed => false,
        }
    }
}

/// A connection the host has just opened: SYN-SENT, its SYN (initial
/// sequence number 1) to be sent, nothing queued.
pub open spec fn opening_conn() -> ConnView {
    ConnView {
        state: TcpConnState::SynSent,
        seq: 2,
        ack: 0,
        window: TCP_WINDOW,
        queued: Seq::empty(),
        pending_flags: TCP_SYN,
    }
}

/// The connection fields that the state machine changes.
pub struct ConnFields {
    pub state: TcpConnState,
    pub ack: u32,
    pub pending_flags: u8,
}

pub open spec fn fields_of(c: ConnView) -> ConnFields {
    ConnFields { state: c.state, ack: c.ack, pending_flags: c.pending_flags }
}

/// How a connection answers a segment from the guest with `flags`,
/// sequence number `seq_num` and `payload_len` bytes of data:
/// - SYN-SENT: RST closes; SYN+ACK establishes it, acknowledging the SYN,
///   and queues an ACK.
/// - ESTABLISHED: RST closes; FIN moves to FIN-WAIT-1, acknowledging it,
///   and queues FIN+ACK; data is acknowledged and queues an ACK.
/// - FIN-WAIT-1: ACK moves to FIN-WAIT-2.
/// - FIN-WAIT-2: FIN is acknowledged, queues an ACK and closes.
/// - CLOSED: nothing changes.
pub open spec fn tcp_step(c: ConnFields, flags: u8, seq_num: u32, payload_len: nat) -> ConnFields {
    let syn = flags & TCP_SYN != 0;
    let ack = flags & TCP_ACK != 0;
    let fin = flags & TCP_FIN != 0;
    let rst = flags & TCP_RST != 0;
    match c.state {
        TcpConnState::SynSent => if rst {
            ConnFields { state: TcpConnState::Closed, ..c }
        } else if syn && ack {
            ConnFields {
                state: TcpConnState::Established,
                ack: wrap_add32(seq_num, 1),
                pending_flags: c.pending_flags | TCP_ACK,
            }
        } else {
            c
        },
        TcpConnState::Established => if rst {
            ConnFields { state: TcpConnState::Closed, ..c }
        } else if fin {
            ConnFields {
                state: TcpConnState::FinWait1,
                ack: wrap_add32(seq_num, 1),
                pending_flags: c.pending_flags | (TCP_FIN | TCP_ACK),
            }
        } else if payload_len > 0 {
            ConnFields {
                ack: wrap_add32(seq_num, (payload_len % 0x1_0000_0000) as int),
                pending_flags: c.pending_flags | TCP_ACK,
                ..c
            }
        } else {
            c
        },
        TcpConnState::FinWait1 => if ack {
            ConnFields { state: TcpConnState::FinWait2, ..c }
        } else {
            c
        },
        TcpConnState::FinWait2 => if fin {
            ConnFields {
                state: TcpConnState::Closed,
                ack: wrap_add32(seq_num, 1),
                pending_flags: c.pending_flags | TCP_ACK,
            }
        } else {
            c
        },
        TcpConnState::Closed => c,
    }
}

/// Whether a segment's data is handed on to the host side: only data on an
/// established connection, without RST or FIN.
pub open spec fn tcp_forwards(c: ConnFields, flags: u8, payload_len: nat) -> bool {
    c.state == TcpConnState::Established && flags & TCP_RST == 0 && flags & TCP_FIN == 0
        && payload_len > 0
}

/// `c` with the state-machine fields of `f`.
pub open spec fn with_fields(c: ConnView, f: ConnFields) -> ConnView {
    ConnView { state: f.state, ack: f.ack, pending_flags: f.pending_flags, ..c }
}

/// The index of the first entry from `from` on whose key matches, or -1.
pub open spec fn find_from(conns: Seq<(KeyView, ConnView)>, key: KeyView, from: int) -> int
    decreases conns.len() - from,
{
    if from >= conns.len() || from < 0 {
        -1
    } else if conns[from].0 == key {
        from
    } else {
        find_from(conns, key, from + 1)
    }
}

/// The index of the connection with `key`, or -1.
pub open spec fn find(conns: Seq<(KeyView, ConnView)>, key: KeyView) -> int {
    find_from(conns, key, 0)
}

/// The index of the first connection from `from` on with a reply to send,
/// or -1.
pub open spec fn first_pending_from(conns: Seq<(KeyView, ConnView)>, from: int) -> int
    decreases conns.len() - from,
{
    if from >= conns.len() || from < 0 {
        -1
    } else if conns[from].1.pending_flags != 0 {
        from
    } else {
        first_pending_from(conns, from + 1)
    }
}

/// The index of the first connection from `from` on with queued data, or
/// -1.
pub open spec fn first_queued_from(conns: Seq<(KeyView, ConnView)>, from: int) -> int
    decreases conns.len() - from,
{
    if from >= conns.len() || from < 0 {
        -1
    } else if conns[from].1.queued.len() > 0 {
        from
    } else {
        first_queued_from(conns, from + 1)
    }
}

/// No two connections share a key.
pub open spec fn keys_unique(conns: Seq<(KeyView, ConnView)>) -> bool {
    forall|i: int, j: int|
        0 <= i < conns.len() && 0 <= j < conns.len() && i != j ==> #[trigger] conns[i].0
            != #[trigger] conns[j].0
}

/// Whether some connection has a reply to send, or queued data and is
/// established.
pub open spec fn has_pending(conns: Seq<(KeyView, ConnView)>) -> bool {
    exists|i: int|
        0 <= i < conns.len() && ((#[trigger] conns[i]).1.pending_flags != 0 || (
        conns[i].1.queued.len() > 0 && conns[i].1.state == TcpConnState::Established))
}

pub proof fn lemma_find_from(conns: Seq<(KeyView, ConnView)>, key: KeyView, from: int)
    requires
        0 <= from,
    ensures
        find_from(conns, key, from) == -1 || (from <= find_from(conns, key, from) < conns.len()
            && conns[find_from(conns, key, from)].0 == key),
        find_from(conns, key, from) == -1 ==> forall|i: int|
            from <= i < conns.len() ==> #[trigger] conns[i].0 != key,
        find_from(conns, key, from) != -1 ==> forall|i: int|
            from <= i < find_from(conns, key, from) ==> #[trigger] conns[i].0 != key,
    decreases conns.len() - from,
{
    if from < conns.len() && conns[from].0 != key {
        lemma_find_from(conns, key, from + 1);
    }
}

proof fn lemma_first_pending_from(conns: Seq<(KeyView, ConnView)>, from: int)
    requires
        0 <= from,
    ensures
        first_pending_from(conns, from) == -1 || (from <= first_pending_from(conns, from)
            < conns.len() && conns[first_pending_from(conns, from)].1.pending_flags != 0),
        first_pending_from(conns, from) == -1 ==> forall|i: int|
            from <= i < conns.len() ==> (#[trigger] conns[i]).1.pending_flags == 0,
    decreases conns.len() - from,
{
    if from < conns.len() && conns[from].1.pending_flags == 0 {
        lemma_first_pending_from(conns, from + 1);
    }
}

proof fn lemma_first_queued_from(conns: Seq<(KeyView, ConnView)>, from: int)
    requires
        0 <= from,
    ensures
        first_queued_from(conns, from) == -1 || (from <= first_queued_from(conns, from)
            < conns.len() && conns[first_queued_from(conns, from)].1.queued.len() > 0),
        first_queued_from(conns, from) == -1 ==> forall|i: int|
            from <= i < conns.len() ==> (#[trigger] conns[i]).1.queued.len() == 0,
    decreases conns.len() - from,
{
    if from < conns.len() && conns[from].1.queued.len() == 0 {
        lemma_first_queued_from(conns, from + 1);
    }
}


/// The largest payload whose segment length fits in the IPv4 length field.
pub const TCP_PAYLOAD_MAX: usize = 65495;

/// What a send does: fail with a table of connections, or write a frame
/// and leave one table where the write succeeds and another where it
/// fails.
pub enum SendPlan {
    Fail(SendError, Seq<(KeyView, ConnView)>),
    Write(Seq<u8>, Seq<(KeyView, ConnView)>, Seq<(KeyView, ConnView)>),
}

/// Every queued chunk fits in one segment.
pub open spec fn queued_fit(conns: Seq<(KeyView, ConnView)>) -> bool {
    forall|i: int, j: int|
        0 <= i < conns.len() && 0 <= j < conns[i].1.queued.len() ==> (#[trigger] conns[i].1.queued[j]).len()
            <= TCP_PAYLOAD_MAX
}

/// The table with the flags of connection `j` cleared.
pub open spec fn clear_pending(conns: Seq<(KeyView, ConnView)>, j: int) -> Seq<(KeyView, ConnView)> {
    conns.update(j, (conns[j].0, ConnView { pending_flags: 0, ..conns[j].1 }))
}

/// Sending the reply of the first connection with one: its flags are
/// cleared whatever the write does.
pub open spec fn plan_reply(a: TcpAddrs, conns: Seq<(KeyView, ConnView)>) -> SendPlan {
    let j = first_pending_from(conns, 0);
    if j == -1 {
        SendPlan::Fail(SendError::NoSendingPackets, conns)
    } else {
        let c = conns[j].1;
        SendPlan::Write(
            conn_frame(a, conns[j].0, c.seq, c.ack, c.pending_flags, TCP_WINDOW, Seq::empty()),
            clear_pending(conns, j),
            clear_pending(conns, j),
        )
    }
}

/// Sending `data` on a connection that is not established: the data is
/// queued and, where the connection has a reply to send, the first pending
/// reply of the table goes out.
pub open spec fn plan_queue(a: TcpAddrs, conns: Seq<(KeyView, ConnView)>, i: int, data: Seq<u8>) -> SendPlan {
    let c = conns[i].1;
    let queued = conns.update(i, (conns[i].0, ConnView { queued: c.queued.push(data), ..c }));
    if c.pending_flags != 0 {
        plan_reply(a, queued)
    } else {
        SendPlan::Fail(SendError::NoSendingPackets, queued)
    }
}

/// Sending `data` at once on an established connection: one segment with
/// the connection's numbers, after which its sequence number has advanced
/// by the length of the data.
pub open spec fn plan_send(
    a: TcpAddrs,
    conns: Seq<(KeyView, ConnView)>,
    i: int,
    data: Seq<u8>,
) -> SendPlan {
    let c = conns[i].1;
    SendPlan::Write(
        conn_frame(a, conns[i].0, c.seq, c.ack, data_flags(data.len()), c.window, data),
        conns.update(
            i,
            (conns[i].0, ConnView { seq: wrap_add32(c.seq, (data.len() % 0x1_0000_0000) as int), ..c }),
        ),
        conns,
    )
}

/// Sending `data` on the connection at index `i` of `conns`.
pub open spec fn plan_data(
    a: TcpAddrs,
    conns: Seq<(KeyView, ConnView)>,
    i: int,
    data: Seq<u8>,
) -> SendPlan {
    if conns[i].1.state != TcpConnState::Established {
        plan_queue(a, conns, i, data)
    } else {
        plan_send(a, conns, i, data)
    }
}

/// The connections with the guest, and the addresses the host uses.
pub struct TcpManager {
    pub connections: Vec<(ConnKey, TcpConn)>,
    pub guest_ip: Ipv4Addr,
    pub guest_mac: MacAddr,
    pub host_mac: MacAddr,
}

/// The addresses of the guest and of the host, as bytes.
pub struct TcpAddrs {
    pub guest_mac: Seq<u8>,
    pub host_mac: Seq<u8>,
    pub guest_ip: Seq<u8>,
}

/// The frame of a TCP segment from the remote end of `key` to the guest.
#[verifier::opaque]
pub open spec fn conn_frame(
    a: TcpAddrs,
    key: KeyView,
    seq: u32,
    ack: u32,
    flags: u8,
    window: u16,
    payload: Seq<u8>,
) -> Seq<u8> {
    tcp_frame_bytes(
        a.guest_mac,
        a.host_mac,
        key.remote_ip,
        a.guest_ip,
        key.remote_port,
        key.guest_port,
        seq,
        ack,
        flags,
        window,
        payload,
    )
}

/// The flags of a data segment: ACK, with PSH where there is data.
pub open spec fn data_flags(len: nat) -> u8 {
    if len == 0 {
        TCP_ACK
    } else {
        TCP_PSH | TCP_ACK
    }
}

impl TcpManager {
    /// The connection table as values.
    pub open spec fn table(&self) -> Seq<(KeyView, ConnView)> {
        conns_view(self.connections@)
    }

    /// The addresses the frames carry.
    pub open spec fn addrs(&self) -> TcpAddrs {
        TcpAddrs { guest_mac: self.guest_mac.0@, host_mac: self.host_mac.0@, guest_ip: self.guest_ip.0@ }
    }

    pub open spec fn wf(&self) -> bool {
        &&& keys_unique(self.table())
        &&& queued_fit(self.table())
    }

    pub fn new(guest_ip: Ipv4Addr, guest_mac: MacAddr, host_mac: MacAddr) -> (r: TcpManager)
        ensures
            r.wf(),
            r.table() == Seq::<(KeyView, ConnView)>::empty(),
            r.guest_ip == guest_ip,
            r.guest_mac == guest_mac,
            r.host_mac == host_mac,
    {
        let r = TcpManager { connections: Vec::new(), guest_ip, guest_mac, host_mac };
        assert(r.table() =~= Seq::<(KeyView, ConnView)>::empty());
        r
    }

    /// The index of the connection with `key`.
    fn find_index(&self, key: &ConnKey) -> (r: Option<usize>)
        ensures
            find(self.table(), key@) == -1 <==> r is None,
            r matches Some(i) ==> i as int == find(self.table(), key@),
            r matches Some(i) ==> i < self.table().len() && self.table()[i as int].0 == key@,
    {
        let mut i: usize = 0;
        proof {
            lemma_find_from(self.table(), key@, 0);
        }
        while i < self.connections.len()
            invariant
                0 <= i <= self.connections@.len(),
                self.table().len() == self.connections@.len(),
                find(self.table(), key@) == find_from(self.table(), key@, i as int),
            decreases self.connections@.len() - i,
        {
            proof {
                assert(self.table()[i as int].0 == self.connections@[i as int].0@);
            }
            if self.connections[i].0.same_as(key) {
                return Some(i);
            }
            i += 1;
        }
        None
    }

    /// Whether a connection with `key` exists.
    pub fn has_connection(&self, key: &ConnKey) -> (r: bool)
        ensures
            r == (find(self.table(), key@) != -1),
    {
        self.find_index(key).is_some()
    }

    /// Replaces the connection at `i`.
    fn put(&mut self, i: usize, key: ConnKey, conn: TcpConn)
        requires
            i <= old(self).connections@.len(),
        ensures
            final(self).connections@ == old(self).connections@.insert(i as int, (key, conn)),
            final(self).guest_ip == old(self).guest_ip,
            final(self).guest_mac == old(self).guest_mac,
            final(self).host_mac == old(self).host_mac,
    {
        self.connections.insert(i, (key, conn));
    }

    /// Opens a connection to the guest: it starts in SYN-SENT with initial
    /// sequence number 1 and a SYN to send. A connection with the same key
    /// is replaced.
    pub fn connect_to_guest(&mut self, connkey: ConnKey)
        requires
            old(self).wf(),
        ensures
            final(self).wf(),
            final(self).guest_ip == old(self).guest_ip,
            final(self).guest_mac == old(self).guest_mac,
            final(self).host_mac == old(self).host_mac,
            ({
                let new_conn = opening_conn();
                let i = find(old(self).table(), connkey@);
                &&& i != -1 ==> final(self).table() == old(self).table().update(
                    i,
                    (old(self).table()[i].0, new_conn),
                )
                &&& i == -1 ==> final(self).table() == old(self).table().push((connkey@, new_conn))
            }),
    {
        let initial_seq: u32 = 1;
        let mut conn = TcpConn::new_syn_sent(initial_seq);
        conn.set_pending_flags(TCP_SYN);
        assert(0u8 | 2u8 == 2u8) by (bit_vector);
        let ghost new_view = conn@;
        proof {
            assert(new_view.queued =~= Seq::<Seq<u8>>::empty());
            assert(new_view == opening_conn());
        }
        let ghost old_table = self.table();
        proof {
            lemma_find_from(old_table, connkey@, 0);
        }
        match self.find_index(&connkey) {
            Some(i) => {
                let (old_key, _) = self.connections.remove(i);
                self.put(i, old_key, conn);
                proof {
                    assert(self.table() =~= old_table.update(i as int, (old_table[i as int].0, new_view)));
                    lemma_unique_update(old_table, i as int, (old_table[i as int].0, new_view));
                    lemma_fit_update(old_table, i as int, (old_table[i as int].0, new_view));
                }
            },
            None => {
                self.connections.push((connkey, conn));
                proof {
                    assert(self.table() =~= old_table.push((connkey@, new_view)));
                    lemma_find_from(old_table, connkey@, 0);
                    lemma_unique_push(old_table, (connkey@, new_view));
                    lemma_fit_push(old_table, (connkey@, new_view));
                }
            },
        }
    }

    /// Whether there is something to send: a reply, or queued data on an
    /// established connection.
    pub fn has_pending_packets(&self) -> (r: bool)
        ensures
            r == has_pending(self.table()),
    {
        let mut i: usize = 0;
        while i < self.connections.len()
            invariant
                0 <= i <= self.connections@.len(),
                self.table().len() == self.connections@.len(),
                forall|j: int|
                    0 <= j < i ==> !((#[trigger] self.table()[j]).1.pending_flags != 0 || (
                    self.table()[j].1.queued.len() > 0 && self.table()[j].1.state
                        == TcpConnState::Established)),
            decreases self.connections@.len() - i,
        {
            let conn = &self.connections[i].1;
            proof {
                assert(self.table()[i as int].1 == conn@);
            }
            if (conn.queued_data.len() > 0 && conn.is_established()) || conn.has_pending_replies() {
                return true;
            }
            i += 1;
        }
        false
    }

    /// Sends a segment with no data and the window 65535.
    fn send_tcp_reply(
        &self,
        writer: VirtioPacketWriter,
        mem: &mut GuestMemory,
        key: &ConnKey,
        flags: u8,
        seq: u32,
        ack: u32,
    ) -> (r: Result<usize, SendError>)
        requires
            writer.inner.wf(),
            old(mem).wf(),
            writer.inner.written_len <= usize::MAX - FRAME_LEN_MAX,
        ensures
            final(mem).base == old(mem).base,
            final(mem).wf(),
            match wr_bytes(
                old(mem).base as int,
                old(mem).ram@,
                writer.inner.regions(),
                conn_frame(self.addrs(), key@, seq, ack, flags, TCP_WINDOW, Seq::empty()),
            ) {
                Some((ram, _)) => r == Ok::<usize, SendError>(
                    (writer.inner.written_len + conn_frame(self.addrs(), key@, seq, ack, flags, TCP_WINDOW, Seq::empty()).len()) as usize,
                ) && final(mem).ram@ == ram,
                None => r matches Err(SendError::PacketBuild(_)),
            },
    {
        let empty: [u8; 0] = [];
        let tcp_packet = TxPacket::Tcp {
            src_ip: key.remote_ip,
            dst_ip: self.guest_ip,
            src_port: key.remote_port,
            dst_port: key.guest_port,
            seq_num: seq,
            ack_num: ack,
            flags,
            window: TCP_WINDOW,
            payload: &empty,
        };
        proof {
            assert(empty@ =~= Seq::<u8>::empty());
        }
        let builder = PacketBuilder::new(writer, self.guest_mac, self.host_mac);
        proof {
            reveal(conn_frame);
        }
        match builder.send(mem, &tcp_packet) {
            Ok(len) => Ok(len),
            Err(e) => Err(SendError::PacketBuild(e)),
        }
    }

    /// The index of the first connection with a reply to send.
    fn first_pending_index(&self) -> (r: Option<usize>)
        ensures
            first_pending_from(self.table(), 0) == -1 <==> r is None,
            r matches Some(i) ==> i as int == first_pending_from(self.table(), 0),
    {
        let mut i: usize = 0;
        proof {
            lemma_first_pending_from(self.table(), 0);
        }
        while i < self.connections.len()
            invariant
                0 <= i <= self.connections@.len(),
                self.table().len() == self.connections@.len(),
                first_pending_from(self.table(), 0) == first_pending_from(self.table(), i as int),
            decreases self.connections@.len() - i,
        {
            proof {
                assert(self.table()[i as int].1 == self.connections@[i as int].1@);
            }
            if self.connections[i].1.pending_flags != 0 {
                return Some(i);
            }
            i += 1;
        }
        None
    }

    /// The index of the first connection with queued data.
    fn first_queued_index(&self) -> (r: Option<usize>)
        ensures
            first_queued_from(self.table(), 0) == -1 <==> r is None,
            r matches Some(i) ==> i as int == first_queued_from(self.table(), 0),
    {
        let mut i: usize = 0;
        proof {
            lemma_first_queued_from(self.table(), 0);
        }
        while i < self.connections.len()
            invariant
                0 <= i <= self.connections@.len(),
                self.table().len() == self.connections@.len(),
                first_queued_from(self.table(), 0) == first_queued_from(self.table(), i as int),
            decreases self.connections@.len() - i,
        {
            proof {
                assert(self.table()[i as int].1 == self.connections@[i as int].1@);
            }
            if self.connections[i].1.queued_data.len() > 0 {
                return Some(i);
            }
            i += 1;
        }
        None
    }

    /// Takes the reply flags of connection `i`, leaving them cleared.
    fn take_reply(&mut self, i: usize) -> (r: (ConnKey, u8, u32, u32))
        requires
            old(self).wf(),
            i < old(self).table().len(),
        ensures
            final(self).wf(),
            final(self).guest_ip == old(self).guest_ip,
            final(self).guest_mac == old(self).guest_mac,
            final(self).host_mac == old(self).host_mac,
            final(self).table() == clear_pending(old(self).table(), i as int),
            r.0@ == old(self).table()[i as int].0,
            r.1 == old(self).table()[i as int].1.pending_flags,
            r.2 == old(self).table()[i as int].1.seq,
            r.3 == old(self).table()[i as int].1.ack,
    {
        let ghost table = self.table();
        let (key, mut conn) = self.connections.remove(i);
        let seq = conn.seq;
        let ack = conn.ack;
        let flags = conn.pending_flags;
        conn.pending_flags = 0;
        self.put(i, key, conn);
        proof {
            assert(self.table()[i as int].1.queued =~= clear_pending(table, i as int)[i as int].1.queued);
            assert(self.table() =~= clear_pending(table, i as int));
            lemma_unique_update(table, i as int, clear_pending(table, i as int)[i as int]);
            lemma_fit_update(table, i as int, clear_pending(table, i as int)[i as int]);
        }
        (key, flags, seq, ack)
    }

    /// Sends the reply of the first connection that has one.
    fn send_first_pending_reply(&mut self, writer: VirtioPacketWriter, mem: &mut GuestMemory) -> (r: Result<usize, SendError>)
        requires
            old(self).wf(),
            writer.inner.wf(),
            old(mem).wf(),
            writer.inner.written_len <= usize::MAX - FRAME_LEN_MAX,
        ensures
            final(self).wf(),
            final(self).guest_ip == old(self).guest_ip,
            final(self).guest_mac == old(self).guest_mac,
            final(self).host_mac == old(self).host_mac,
            final(mem).base == old(mem).base,
            final(mem).wf(),
            sent_as_planned(plan_reply(old(self).addrs(), old(self).table()), writer.inner.regions(), writer.inner.written_len as int, *old(mem), *final(mem), final(self).table(), r),
    {
        let ghost t = self.table();
        proof {
            lemma_first_pending_from(t, 0);
        }
        let found = self.first_pending_index();
        match found {
            None => Err(SendError::NoSendingPackets),
            Some(i) => {
                let (key, flags, seq, ack) = self.take_reply(i);
                proof {
                    let c = t[i as int].1;
                    assert(i as int == first_pending_from(t, 0));
                    assert(key@ == t[i as int].0);
                    assert(self.addrs() == old(self).addrs());
                    assert(flags == c.pending_flags && seq == c.seq && ack == c.ack);
                    assert(plan_reply(old(self).addrs(), t) == SendPlan::Write(
                        conn_frame(self.addrs(), key@, seq, ack, flags, TCP_WINDOW, Seq::empty()),
                        clear_pending(t, i as int),
                        clear_pending(t, i as int),
                    ));
                }
                self.send_tcp_reply(writer, mem, &key, flags, seq, ack)
            },
        }
    }

    /// Sends `data` to the guest on the connection with `key`: at once on
    /// an established connection, which advances its sequence number by
    /// the length of the data; otherwise the data is queued, and where the
    /// connection has a reply to send, the first pending reply goes out.
    pub fn send_to_guest(
        &mut self,
        writer: VirtioPacketWriter,
        mem: &mut GuestMemory,
        key: &ConnKey,
        data: &[u8],
    ) -> (r: Result<usize, SendError>)
        requires
            old(self).wf(),
            writer.inner.wf(),
            old(mem).wf(),
            writer.inner.written_len <= usize::MAX - FRAME_LEN_MAX,
            data@.len() <= TCP_PAYLOAD_MAX,
        ensures
            final(self).wf(),
            final(self).guest_ip == old(self).guest_ip,
            final(self).guest_mac == old(self).guest_mac,
            final(self).host_mac == old(self).host_mac,
            final(mem).base == old(mem).base,
            final(mem).wf(),
            find(old(self).table(), key@) == -1 ==> r == Err::<usize, SendError>(SendError::UnknownConn)
                && final(self).table() == old(self).table() && final(mem).ram@ == old(mem).ram@,
            find(old(self).table(), key@) != -1 ==> sent_as_planned(
                plan_data(old(self).addrs(), old(self).table(), find(old(self).table(), key@), data@),
                writer.inner.regions(),
                writer.inner.written_len as int,
                *old(mem),
                *final(mem),
                final(self).table(),
                r,
            ),
    {
        let i = match self.find_index(key) {
            Some(i) => i,
            None => return Err(SendError::UnknownConn),
        };
        proof {
            lemma_find_from(self.table(), key@, 0);
            assert(self.table()[i as int].1 == self.connections@[i as int].1@);
        }
        if !self.connections[i].1.is_established() {
            self.queue_then_reply(i, writer, mem, data)
        } else {
            self.send_data_on(i, writer, mem, key, data)
        }
    }

    /// Queues `data` on connection `i`, which is not established, and
    /// sends the first pending reply where that connection has one.
    fn queue_then_reply(
        &mut self,
        i: usize,
        writer: VirtioPacketWriter,
        mem: &mut GuestMemory,
        data: &[u8],
    ) -> (r: Result<usize, SendError>)
        requires
            old(self).wf(),
            i < old(self).table().len(),
            old(self).table()[i as int].1.state != TcpConnState::Established,
            writer.inner.wf(),
            old(mem).wf(),
            writer.inner.written_len <= usize::MAX - FRAME_LEN_MAX,
            data@.len() <= TCP_PAYLOAD_MAX,
        ensures
            final(self).wf(),
            final(self).guest_ip == old(self).guest_ip,
            final(self).guest_mac == old(self).guest_mac,
            final(self).host_mac == old(self).host_mac,
            final(mem).base == old(mem).base,
            final(mem).wf(),
            sent_as_planned(plan_queue(old(self).addrs(), old(self).table(), i as int, data@), writer.inner.regions(), writer.inner.written_len as int, *old(mem), *final(mem), final(self).table(), r),
    {
        proof {
            assert(self.table()[i as int].1 == self.connections@[i as int].1@);
        }
        let pending = self.connections[i].1.has_pending_replies();
        self.queue_on(i, data);
        if pending {
            self.send_first_pending_reply(writer, mem)
        } else {
            Err(SendError::NoSendingPackets)
        }
    }

    /// Sends `data` at once on connection `i`, which is established.
    fn send_data_on(
        &mut self,
        i: usize,
        writer: VirtioPacketWriter,
        mem: &mut GuestMemory,
        key: &ConnKey,
        data: &[u8],
    ) -> (r: Result<usize, SendError>)
        requires
            old(self).wf(),
            i < old(self).table().len(),
            old(self).table()[i as int].0 == key@,
            writer.inner.wf(),
            old(mem).wf(),
            writer.inner.written_len <= usize::MAX - FRAME_LEN_MAX,
            data@.len() <= TCP_PAYLOAD_MAX,
        ensures
            final(self).wf(),
            final(self).guest_ip == old(self).guest_ip,
            final(self).guest_mac == old(self).guest_mac,
            final(self).host_mac == old(self).host_mac,
            final(mem).base == old(mem).base,
            final(mem).wf(),
            sent_as_planned(plan_send(old(self).addrs(), old(self).table(), i as int, data@), writer.inner.regions(), writer.inner.written_len as int, *old(mem), *final(mem), final(self).table(), r),
    {
        proof {
            assert(self.table()[i as int].1 == self.connections@[i as int].1@);
        }
        let conn = &self.connections[i].1;
        let seq = conn.seq;
        let ack = conn.ack;
        let window = conn.window;
        let flags = if data.len() == 0 {
            TCP_ACK
        } else {
            TCP_PSH | TCP_ACK
        };
        let tcp_packet = TxPacket::Tcp {
            src_ip: key.remote_ip,
            dst_ip: self.guest_ip,
            src_port: key.remote_port,
            dst_port: key.guest_port,
            seq_num: seq,
            ack_num: ack,
            flags,
            window,
            payload: data,
        };
        let builder = PacketBuilder::new(writer, self.guest_mac, self.host_mac);
        proof {
            reveal(conn_frame);
        }
        let written_len = match builder.send(mem, &tcp_packet) {
            Ok(len) => len,
            Err(e) => return Err(SendError::PacketBuild(e)),
        };
        self.advance_on(i, data.len());
        Ok(written_len)
    }

    /// Queues `data` on connection `i`.
    fn queue_on(&mut self, i: usize, data: &[u8])
        requires
            old(self).wf(),
            i < old(self).table().len(),
            old(self).table()[i as int].1.state != TcpConnState::Established,
            data@.len() <= TCP_PAYLOAD_MAX,
        ensures
            final(self).wf(),
            final(self).guest_ip == old(self).guest_ip,
            final(self).guest_mac == old(self).guest_mac,
            final(self).host_mac == old(self).host_mac,
            final(self).table() == old(self).table().update(
                i as int,
                (
                    old(self).table()[i as int].0,
                    ConnView {
                        queued: old(self).table()[i as int].1.queued.push(data@),
                        ..old(self).table()[i as int].1
                    },
                ),
            ),
    {
        let ghost table = self.table();
        let (key, mut conn) = self.connections.remove(i);
        let v = vstd::slice::slice_to_vec(data);
        conn.queue_data(v);
        self.put(i, key, conn);
        let ghost upd = (table[i as int].0, ConnView { queued: table[i as int].1.queued.push(data@), ..table[i as int].1 });
        proof {
            assert(self.table()[i as int].1.queued =~= upd.1.queued);
            assert(self.table() =~= table.update(i as int, upd));
            lemma_unique_update(table, i as int, upd);
            lemma_fit_update(table, i as int, upd);
        }
    }

    /// Advances the sequence number of connection `i` by `len` modulo
    /// 2^32.
    fn advance_on(&mut self, i: usize, len: usize)
        requires
            old(self).wf(),
            i < old(self).table().len(),
        ensures
            final(self).wf(),
            final(self).guest_ip == old(self).guest_ip,
            final(self).guest_mac == old(self).guest_mac,
            final(self).host_mac == old(self).host_mac,
            final(self).table() == old(self).table().update(
                i as int,
                (
                    old(self).table()[i as int].0,
                    ConnView {
                        seq: wrap_add32(old(self).table()[i as int].1.seq, ((len as int) % 0x1_0000_0000)),
                        ..old(self).table()[i as int].1
                    },
                ),
            ),
    {
        let ghost table = self.table();
        let (key, mut conn) = self.connections.remove(i);
        let len64 = len as u64;
        #[verifier::truncate]
        let len32 = len64 as u32;
        assert(len32 == len64 % 0x1_0000_0000) by (bit_vector)
            requires
                len32 == len64 as u32,
        ;
        conn.advance_seq(len32);
        self.put(i, key, conn);
        let ghost upd = (table[i as int].0, ConnView { seq: wrap_add32(table[i as int].1.seq, ((len as int) % 0x1_0000_0000)), ..table[i as int].1 });
        proof {
            assert(self.table()[i as int].1.queued =~= upd.1.queued);
            assert(self.table() =~= table.update(i as int, upd));
            lemma_unique_update(table, i as int, upd);
            lemma_fit_update(table, i as int, upd);
        }
    }

    /// Sends one pending packet: the reply of the first connection that
    /// has one, else the first chunk queued on the first connection that
    /// has one (which goes back to the end of the queue where the
    /// connection is not established yet).
    pub fn send_pending_packet(&mut self, writer: VirtioPacketWriter, mem: &mut GuestMemory) -> (r: Result<usize, SendError>)
        requires
            old(self).wf(),
            writer.inner.wf(),
            old(mem).wf(),
            writer.inner.written_len <= usize::MAX - FRAME_LEN_MAX,
        ensures
            final(self).wf(),
            final(self).guest_ip == old(self).guest_ip,
            final(self).guest_mac == old(self).guest_mac,
            final(self).host_mac == old(self).host_mac,
            final(mem).base == old(mem).base,
            final(mem).wf(),
            sent_as_planned(plan_pending(old(self).addrs(), old(self).table()), writer.inner.regions(), writer.inner.written_len as int, *old(mem), *final(mem), final(self).table(), r),
    {
        let ghost table = self.table();
        proof {
            lemma_first_pending_from(table, 0);
            lemma_first_queued_from(table, 0);
        }
        if self.first_pending_index().is_some() {
            return self.send_first_pending_reply(writer, mem);
        }
        let i = match self.first_queued_index() {
            Some(i) => i,
            None => return Err(SendError::NoSendingPackets),
        };
        let (key, data) = self.take_queued(i);
        proof {
            lemma_find_unique(self.table(), key@, i as int);
        }
        self.send_to_guest(writer, mem, &key, data.as_slice())
    }

    /// Takes the first chunk queued on connection `i`.
    fn take_queued(&mut self, i: usize) -> (r: (ConnKey, Vec<u8>))
        requires
            old(self).wf(),
            i < old(self).table().len(),
            old(self).table()[i as int].1.queued.len() > 0,
        ensures
            final(self).wf(),
            final(self).guest_ip == old(self).guest_ip,
            final(self).guest_mac == old(self).guest_mac,
            final(self).host_mac == old(self).host_mac,
            final(self).table() == old(self).table().update(
                i as int,
                (
                    old(self).table()[i as int].0,
                    ConnView {
                        queued: old(self).table()[i as int].1.queued.drop_first(),
                        ..old(self).table()[i as int].1
                    },
                ),
            ),
            r.0@ == old(self).table()[i as int].0,
            r.1@ == old(self).table()[i as int].1.queued[0],
            r.1@.len() <= TCP_PAYLOAD_MAX,
    {
        let ghost table = self.table();
        let (key, mut conn) = self.connections.remove(i);
        let data = match conn.queued_data.pop_front() {
            Some(d) => d,
            None => {
                proof {
                    assert(table[i as int].1.queued.len() == 0);
                }
                Vec::new()
            },
        };
        self.put(i, key, conn);
        let ghost upd = (table[i as int].0, ConnView { queued: table[i as int].1.queued.drop_first(), ..table[i as int].1 });
        proof {
            assert(self.table()[i as int].1.queued =~= upd.1.queued);
            assert(self.table() =~= table.update(i as int, upd));
            lemma_unique_update(table, i as int, upd);
            lemma_fit_update(table, i as int, upd);
            assert(table[i as int].1.queued[0].len() <= TCP_PAYLOAD_MAX);
        }
        (key, data)
    }

    /// Answers a TCP segment from the guest on the connection it belongs
    /// to (a segment to no known connection is dropped). Returns the data
    /// to hand on to the host side, with the connection's key.
    pub fn handle_tcp_packet(&mut self, tcp: &TcpRx) -> (r: Option<(ConnKey, Vec<u8>)>)
        requires
            old(self).wf(),
        ensures
            final(self).wf(),
            final(self).guest_ip == old(self).guest_ip,
            final(self).guest_mac == old(self).guest_mac,
            final(self).host_mac == old(self).host_mac,
            final(self).table() == segment_table(old(self).table(), segment_key(tcp.dst_ip.0@, tcp.dst_port, tcp.src_port), tcp.flags, tcp.seq_num, tcp.payload@.len()),
            r is Some <==> segment_forwards(old(self).table(), segment_key(tcp.dst_ip.0@, tcp.dst_port, tcp.src_port), tcp.flags, tcp.payload@.len()),
            r matches Some((k, d)) ==> k@ == segment_key(tcp.dst_ip.0@, tcp.dst_port, tcp.src_port) && d@ == tcp.payload@,
    {
        let conn_key = ConnKey {
            proto: IpProto::Tcp,
            remote_ip: tcp.dst_ip,
            remote_port: tcp.dst_port,
            guest_port: tcp.src_port,
        };
        let i = match self.find_index(&conn_key) {
            Some(i) => i,
            None => return None,
        };
        let ghost table = self.table();
        let (key, mut conn) = self.connections.remove(i);
        let forwards = conn.step(tcp.flags, tcp.seq_num, tcp.payload.len());
        self.put(i, key, conn);
        proof {
            let c = table[i as int].1;
            let upd = (table[i as int].0, with_fields(c, tcp_step(fields_of(c), tcp.flags, tcp.seq_num, tcp.payload@.len())));
            assert(self.table()[i as int].1.queued =~= upd.1.queued);
            assert(self.table() =~= table.update(i as int, upd));
            lemma_unique_update(table, i as int, upd);
            lemma_fit_update(table, i as int, upd);
        }
        if forwards {
            Some((conn_key, vstd::slice::slice_to_vec(tcp.payload.as_slice())))
        } else {
            None
        }
    }
}

/// The connection a segment from the guest belongs to: the segment's
/// destination is the remote end, its source port the guest's port.
pub open spec fn segment_key(dst_ip: Seq<u8>, dst_port: u16, src_port: u16) -> KeyView {
    KeyView { proto: IpProto::Tcp, remote_ip: dst_ip, remote_port: dst_port, guest_port: src_port }
}

/// The table after a segment for `key`: the connection with that key, if
/// any, moves as `tcp_step` says; a segment to no known connection is
/// dropped.
pub open spec fn segment_table(
    conns: Seq<(KeyView, ConnView)>,
    key: KeyView,
    flags: u8,
    seq_num: u32,
    payload_len: nat,
) -> Seq<(KeyView, ConnView)> {
    let i = find(conns, key);
    if i == -1 {
        conns
    } else {
        conns.update(
            i,
            (conns[i].0, with_fields(conns[i].1, tcp_step(fields_of(conns[i].1), flags, seq_num, payload_len))),
        )
    }
}

/// Whether a segment for `key` hands its data on to the host side.
pub open spec fn segment_forwards(conns: Seq<(KeyView, ConnView)>, key: KeyView, flags: u8, payload_len: nat) -> bool {
    let i = find(conns, key);
    i != -1 && tcp_forwards(fields_of(conns[i].1), flags, payload_len)
}

/// What sending the first pending packet does.
pub open spec fn plan_pending(a: TcpAddrs, conns: Seq<(KeyView, ConnView)>) -> SendPlan {
    if first_pending_from(conns, 0) != -1 {
        plan_reply(a, conns)
    } else {
        let q = first_queued_from(conns, 0);
        if q == -1 {
            SendPlan::Fail(SendError::NoSendingPackets, conns)
        } else {
            let popped = conns.update(q, (conns[q].0, ConnView { queued: conns[q].1.queued.drop_first(), ..conns[q].1 }));
            plan_data(a, popped, q, conns[q].1.queued[0])
        }
    }
}

/// The send went as `plan` says: a failure leaves the RAM alone, a frame
/// is written after the virtio-net header and the written length returned
/// where the write succeeds.
pub open spec fn sent_as_planned(
    plan: SendPlan,
    regs: Seq<(int, int)>,
    written: int,
    old_mem: GuestMemory,
    new_mem: GuestMemory,
    table: Seq<(KeyView, ConnView)>,
    r: Result<usize, SendError>,
) -> bool {
    match plan {
        SendPlan::Fail(e, conns) => r == Err::<usize, SendError>(e) && table == conns && new_mem.ram@
            == old_mem.ram@,
        SendPlan::Write(frame, ok_conns, err_conns) => match wr_bytes(
            old_mem.base as int,
            old_mem.ram@,
            regs,
            frame,
        ) {
            Some((ram, _)) => r == Ok::<usize, SendError>((written + frame.len()) as usize)
                && new_mem.ram@ == ram && table == ok_conns,
            None => r matches Err(SendError::PacketBuild(_)) && table == err_conns,
        },
    }
}

proof fn lemma_unique_update(t: Seq<(KeyView, ConnView)>, i: int, e: (KeyView, ConnView))
    requires
        keys_unique(t),
        0 <= i < t.len(),
        e.0 == t[i].0,
    ensures
        keys_unique(t.update(i, e)),
{
    let u = t.update(i, e);
    assert forall|a: int, b: int|
        0 <= a < u.len() && 0 <= b < u.len() && a != b implies #[trigger] u[a].0 != #[trigger] u[b].0 by {
        assert(u[a].0 == t[a].0);
        assert(u[b].0 == t[b].0);
    }
}

proof fn lemma_fit_update(t: Seq<(KeyView, ConnView)>, i: int, e: (KeyView, ConnView))
    requires
        queued_fit(t),
        0 <= i < t.len(),
        forall|j: int| 0 <= j < e.1.queued.len() ==> (#[trigger] e.1.queued[j]).len() <= TCP_PAYLOAD_MAX,
    ensures
        queued_fit(t.update(i, e)),
{
    let u = t.update(i, e);
    assert forall|a: int, j: int| 0 <= a < u.len() && 0 <= j < u[a].1.queued.len() implies (#[trigger] u[a].1.queued[j]).len() <= TCP_PAYLOAD_MAX by {
        if a != i {
            assert(u[a] == t[a]);
        }
    }
}

proof fn lemma_unique_push(t: Seq<(KeyView, ConnView)>, e: (KeyView, ConnView))
    requires
        keys_unique(t),
        find(t, e.0) == -1,
    ensures
        keys_unique(t.push(e)),
{
    lemma_find_from(t, e.0, 0);
    let u = t.push(e);
    assert forall|a: int, b: int|
        0 <= a < u.len() && 0 <= b < u.len() && a != b implies #[trigger] u[a].0 != #[trigger] u[b].0 by {
        if a < t.len() && b < t.len() {
            assert(u[a] == t[a] && u[b] == t[b]);
        } else if a == t.len() {
            assert(u[b] == t[b]);
            assert(t[b].0 != e.0);
        } else {
            assert(u[a] == t[a]);
            assert(t[a].0 != e.0);
        }
    }
}

proof fn lemma_fit_push(t: Seq<(KeyView, ConnView)>, e: (KeyView, ConnView))
    requires
        queued_fit(t),
        forall|j: int| 0 <= j < e.1.queued.len() ==> (#[trigger] e.1.queued[j]).len() <= TCP_PAYLOAD_MAX,
    ensures
        queued_fit(t.push(e)),
{
    let u = t.push(e);
    assert forall|a: int, j: int| 0 <= a < u.len() && 0 <= j < u[a].1.queued.len() implies (#[trigger] u[a].1.queued[j]).len() <= TCP_PAYLOAD_MAX by {
        if a < t.len() {
            assert(u[a] == t[a]);
        }
    }
}

/// Finding a key gives the one index that holds it.
proof fn lemma_find_unique(t: Seq<(KeyView, ConnView)>, key: KeyView, i: int)
    requires
        keys_unique(t),
        0 <= i < t.len(),
        t[i].0 == key,
    ensures
        find(t, key) == i,
{
    lemma_find_from(t, key, 0);
    let f = find(t, key);
    if f == -1 {
        assert(t[i].0 != key);
    } else if f != i {
        assert(t[f].0 == key);
        assert(t[i].0 != t[f].0);
    }
}

/// A reset from the guest closes a connection that is opening or
/// established, and hands nothing on.
pub proof fn law_reset_closes(conns: Seq<(KeyView, ConnView)>, key: KeyView, flags: u8, seq_num: u32, payload_len: nat)
    requires
        find(conns, key) != -1,
        conns[find(conns, key)].1.state == TcpConnState::SynSent || conns[find(conns, key)].1.state
            == TcpConnState::Established,
        flags & TCP_RST != 0,
    ensures
        segment_table(conns, key, flags, seq_num, payload_len)[find(conns, key)].1.state == TcpConnState::Closed,
        !segment_forwards(conns, key, flags, payload_len),
{
    lemma_find_from(conns, key, 0);
}

/// A closed connection ignores whatever the guest sends on it.
pub proof fn law_closed_ignores(conns: Seq<(KeyView, ConnView)>, key: KeyView, flags: u8, seq_num: u32, payload_len: nat)
    requires
        find(conns, key) != -1,
        conns[find(conns, key)].1.state == TcpConnState::Closed,
    ensures
        segment_table(conns, key, flags, seq_num, payload_len) == conns,
        !segment_forwards(conns, key, flags, payload_len),
{
    lemma_find_from(conns, key, 0);
    let i = find(conns, key);
    assert(with_fields(conns[i].1, fields_of(conns[i].1)) == conns[i].1);
    assert(conns.update(i, (conns[i].0, conns[i].1)) =~= conns);
}

/// The guest's SYN+ACK establishes a connection the host is opening: the
/// connection acknowledges the guest's SYN and has an ACK to send.
pub proof fn law_handshake_establishes(
    conns: Seq<(KeyView, ConnView)>,
    key: KeyView,
    flags: u8,
    seq_num: u32,
    payload_len: nat,
)
    requires
        find(conns, key) != -1,
        conns[find(conns, key)].1.state == TcpConnState::SynSent,
        flags & TCP_SYN != 0,
        flags & TCP_ACK != 0,
        flags & TCP_RST == 0,
    ensures
        ({
            let c = segment_table(conns, key, flags, seq_num, payload_len)[find(conns, key)].1;
            &&& c.state == TcpConnState::Established
            &&& c.ack == wrap_add32(seq_num, 1)
            &&& c.pending_flags & TCP_ACK != 0
        }),
{
    lemma_find_from(conns, key, 0);
    let p = conns[find(conns, key)].1.pending_flags;
    assert((p | 0x10u8) & 0x10u8 != 0) by (bit_vector);
}

/// A segment for no known connection changes nothing and hands nothing
/// on.
pub proof fn law_unknown_segment_dropped(
    conns: Seq<(KeyView, ConnView)>,
    key: KeyView,
    flags: u8,
    seq_num: u32,
    payload_len: nat,
)
    requires
        find(conns, key) == -1,
    ensures
        segment_table(conns, key, flags, seq_num, payload_len) == conns,
        !segment_forwards(conns, key, flags, payload_len),
{
}

/// A connection opened under a key no connection has keeps the keys
/// unique, and is found under its key.
pub proof fn law_new_key_found(conns: Seq<(KeyView, ConnView)>, key: KeyView, c: ConnView)
    requires
        keys_unique(conns),
        find(conns, key) == -1,
    ensures
        keys_unique(conns.push((key, c))),
        find(conns.push((key, c)), key) == conns.len(),
{
    lemma_find_from(conns, key, 0);
    let t = conns.push((key, c));
    assert forall|i: int, j: int| 0 <= i < t.len() && 0 <= j < t.len() && i != j implies #[trigger] t[i].0
        != #[trigger] t[j].0 by {
        if i < conns.len() && j < conns.len() {
            assert(t[i] == conns[i] && t[j] == conns[j]);
        } else if i < conns.len() {
            assert(t[i] == conns[i]);
        } else {
            assert(t[j] == conns[j]);
        }
    }
    lemma_find_from(t, key, 0);
    if find(t, key) != conns.len() {
        assert(t[conns.len() as int].0 == key);
        assert(t[find(t, key)] == conns[find(t, key)]);
    }
}

/// What a segment from the guest does to a connection, in terms of its
/// flags, sequence number and payload length:
/// - on an established connection, RST closes it; FIN (without RST) moves
///   it to FIN-WAIT-1, acknowledges the FIN (sequence number + 1, modulo
///   2^32) and queues a reply with both FIN and ACK, keeping any flags
///   already queued; data (without RST or FIN) is acknowledged up to its
///   end and queues an ACK, and the connection stays established;
/// - a SYN+ACK (without RST) on a connection in SYN-SENT establishes it,
///   acknowledges the SYN and queues an ACK;
/// - a FIN in FIN-WAIT-2 closes the connection, acknowledging the FIN with
///   an ACK.
pub proof fn law_tcp_segment_effects(c: ConnFields, flags: u8, seq_num: u32, payload_len: nat)
    ensures
        ({
            let r = tcp_step(c, flags, seq_num, payload_len);
            let syn = flags & TCP_SYN != 0;
            let ack = flags & TCP_ACK != 0;
            let fin = flags & TCP_FIN != 0;
            let rst = flags & TCP_RST != 0;
            &&& c.state == TcpConnState::Established && rst ==> r.state == TcpConnState::Closed
            &&& c.state == TcpConnState::Established && fin && !rst ==> {
                &&& r.state == TcpConnState::FinWait1
                &&& r.ack == (seq_num + 1) % 0x1_0000_0000
                &&& r.pending_flags & TCP_FIN == TCP_FIN
                &&& r.pending_flags & TCP_ACK == TCP_ACK
                &&& r.pending_flags & c.pending_flags == c.pending_flags
            }
            &&& c.state == TcpConnState::Established && !fin && !rst && payload_len > 0 ==> {
                &&& r.state == TcpConnState::Established
                &&& r.ack == (seq_num + payload_len) % 0x1_0000_0000
                &&& r.pending_flags & TCP_ACK == TCP_ACK
                &&& r.pending_flags & c.pending_flags == c.pending_flags
            }
            &&& c.state == TcpConnState::SynSent && syn && ack && !rst ==> {
                &&& r.state == TcpConnState::Established
                &&& r.ack == (seq_num + 1) % 0x1_0000_0000
                &&& r.pending_flags & TCP_ACK == TCP_ACK
            }
            &&& c.state == TcpConnState::FinWait2 && fin ==> {
                &&& r.state == TcpConnState::Closed
                &&& r.ack == (seq_num + 1) % 0x1_0000_0000
                &&& r.pending_flags & TCP_ACK == TCP_ACK
            }
        }),
{
    let p = c.pending_flags;
    assert((p | (0x01u8 | 0x10u8)) & 0x01u8 == 0x01u8 && (p | (0x01u8 | 0x10u8)) & 0x10u8 == 0x10u8 && (p | (
    0x01u8 | 0x10u8)) & p == p) by (bit_vector);
    assert((p | 0x10u8) & 0x10u8 == 0x10u8 && (p | 0x10u8) & p == p) by (bit_vector);
    assert((payload_len % 0x1_0000_0000) as int + seq_num == seq_num + (payload_len % 0x1_0000_0000));
    assert((seq_num + (payload_len % 0x1_0000_0000)) % 0x1_0000_0000 == (seq_num + payload_len) % 0x1_0000_0000) by {
        vstd::arithmetic::div_mod::lemma_add_mod_noop(seq_num as int, payload_len as int, 0x1_0000_0000);
        vstd::arithmetic::div_mod::lemma_mod_twice(payload_len as int, 0x1_0000_0000);
        vstd::arithmetic::div_mod::lemma_add_mod_noop(
            seq_num as int,
            (payload_len % 0x1_0000_0000) as int,
            0x1_0000_0000,
        );
    }
}

} // verus!
