//! The guest-facing network: packets, parsing and building, TCP, and the
//! network as the guest sees it.

pub mod packet;
pub mod parser;
pub mod builder;
pub mod tcp;

use vstd::prelude::*;
use crate::guest_memory::{GuestMemory, GuestMemoryError};
use crate::net::builder::{arp_frame_bytes, BuildError, PacketBuilder, TxPacket, FRAME_LEN_MAX};
use crate::net::packet::{ipv4_text, ArpOp, IpProto, Ipv4Addr, MacAddr};
use crate::net::parser::{spec_parse, ArpRx, PacketParser, ParseError, RxEthPacket, RxPacket, SpecRx, SpecRxEth};
use crate::net::tcp::{
    find, has_pending, opening_conn, plan_data, plan_pending, segment_forwards, segment_key, segment_table,
    sent_as_planned, ConnView, TcpAddrs, TcpManager, TCP_PAYLOAD_MAX,
};
use crate::text::{push_char, push_str};
use crate::virtio::desc_chain::{wr_bytes, DescChainReader};
use crate::virtio::net::VirtioPacketWriter;

verus! {

/// Identifies a connection with the guest: the protocol, the remote end
/// as the guest sees it, and the guest's port.
#[derive(Debug, Clone, Copy, PartialEq, Eq, Hash)]
pub struct ConnKey {
    pub proto: IpProto,
    pub remote_ip: Ipv4Addr,
    pub remote_port: u16,
    pub guest_port: u16,
}

/// A connection key as values.
pub struct KeyView {
    pub proto: IpProto,
    pub remote_ip: Seq<u8>,
    pub remote_port: u16,
    pub guest_port: u16,
}

impl ConnKey {
    pub open spec fn view(&self) -> KeyView {
        KeyView {
            proto: self.proto,
            remote_ip: self.remote_ip.0@,
            remote_port: self.remote_port,
            guest_port: self.guest_port,
        }
    }

    /// Whether two keys name the same connection.
    pub fn same_as(&self, other: &ConnKey) -> (r: bool)
        ensures
            r == (self@ == other@),
    {
        let p = match (self.proto, other.proto) {
            (IpProto::Tcp, IpProto::Tcp) => true,
            (IpProto::Udp, IpProto::Udp) => true,
            _ => false,
        };
        p && self.remote_ip.equals(&other.remote_ip) && self.remote_port == other.remote_port
            && self.guest_port == other.guest_port
    }
}

/// Why a packet could not be sent to the guest.
#[derive(Debug, Clone, Copy, PartialEq, Eq)]
pub enum SendError {
    GuestMemory(GuestMemoryError),
    PacketBuild(BuildError),
    UnknownConn,
    NoSendingPackets,
}

/// Why a packet from the guest was refused.
#[derive(Debug, Clone, Copy, PartialEq, Eq)]
pub enum RecvError {
    GuestMemory(GuestMemoryError),
    InvalidPacket(ParseError),
    InvalidArpTarget,
}

/// The network as values.
pub struct NetView {
    pub host_ip: Seq<u8>,
    pub guest_ip: Seq<u8>,
    pub guest_mac: Seq<u8>,
    pub host_mac: Seq<u8>,
    pub gw_ip: Seq<u8>,
    pub netmask: Seq<u8>,
    pub dns0: Seq<u8>,
    pub dns1: Seq<u8>,
    pub table: Seq<(KeyView, ConnView)>,
    pub pending_arp_reply: bool,
    pub next_host_port: u16,
}

/// The addresses that TCP frames to the guest carry.
pub open spec fn addrs_of(v: NetView) -> TcpAddrs {
    TcpAddrs { guest_mac: v.guest_mac, host_mac: v.host_mac, guest_ip: v.guest_ip }
}

/// The MAC broadcast address.
pub open spec fn broadcast_mac() -> Seq<u8> {
    seq![0xffu8, 0xff, 0xff, 0xff, 0xff, 0xff]
}

/// The remote address of the connections the host opens to the guest,
/// `10.123.123.123`.
pub open spec fn virtual_remote_ip() -> Seq<u8> {
    seq![10u8, 123, 123, 123]
}

/// The key of a connection the host opens to `guest_port` from
/// `remote_port`.
pub open spec fn port_key(proto: IpProto, remote_port: u16, guest_port: u16) -> KeyView {
    KeyView { proto, remote_ip: virtual_remote_ip(), remote_port, guest_port }
}

/// `x` modulo 2^16.
pub open spec fn wrap16(x: int) -> u16 {
    (x % 0x1_0000) as u16
}

/// How many ports come before `port` when counting up from `start` with
/// wrap-around.
pub open spec fn port_offset(start: u16, port: u16) -> int {
    (port - start) % 0x1_0000
}

/// The kernel command-line parameter that configures the guest's network:
/// `ip=<guest>::<gateway>:<netmask>::eth0:off:<dns0>:<dns1>`.
pub open spec fn linux_ip_param(v: NetView) -> Seq<char> {
    "ip="@ + ipv4_text(v.guest_ip) + "::"@ + ipv4_text(v.gw_ip) + seq![':'] + ipv4_text(v.netmask)
        + "::eth0:off:"@ + ipv4_text(v.dns0) + seq![':'] + ipv4_text(v.dns1)
}

/// Whether a parsed frame is an ARP request.
pub open spec fn is_arp_request(p: SpecRx) -> bool {
    p matches SpecRx::Arp { operation: ArpOp::Request, .. }
}

/// The MAC addresses a frame from the guest must carry: the guest's as
/// source; the host's as destination, or the broadcast address for an ARP
/// request.
pub open spec fn macs_ok(v: NetView, p: SpecRxEth) -> bool {
    &&& p.src_mac == v.guest_mac
    &&& if is_arp_request(p.packet) {
        p.dst_mac == broadcast_mac() || p.dst_mac == v.host_mac
    } else {
        p.dst_mac == v.host_mac
    }
}

/// What receiving a frame does, given how it parsed: the network after it
/// and the result. Frames that do not parse or carry the wrong MAC
/// addresses are dropped; an ARP request for the host's address from the
/// guest's address gets a reply queued, another ARP request is refused;
/// a TCP segment goes to its connection and may hand data on.
pub open spec fn recv_step(v: NetView, parsed: Result<SpecRxEth, ParseError>) -> (
    NetView,
    Result<Option<(KeyView, Seq<u8>)>, RecvError>,
) {
    match parsed {
        Err(_) => (v, Ok(None)),
        Ok(p) => if !macs_ok(v, p) {
            (v, Ok(None))
        } else {
            match p.packet {
                SpecRx::Arp { operation, sender_ip, target_ip, .. } => if operation == ArpOp::Request {
                    if target_ip == v.host_ip && sender_ip == v.guest_ip {
                        (NetView { pending_arp_reply: true, ..v }, Ok(None))
                    } else {
                        (v, Err(RecvError::InvalidArpTarget))
                    }
                } else {
                    (v, Ok(None))
                },
                SpecRx::Tcp { dst_ip, dst_port, src_port, flags, seq_num, payload, .. } => {
                    let key = segment_key(dst_ip, dst_port, src_port);
                    (
                        NetView { table: segment_table(v.table, key, flags, seq_num, payload.len()), ..v },
                        Ok(
                            if segment_forwards(v.table, key, flags, payload.len()) {
                                Some((key, payload))
                            } else {
                                None
                            },
                        ),
                    )
                },
                _ => (v, Ok(None)),
            }
        },
    }
}

/// The result of a receive as values.
pub open spec fn recv_result_view(r: Result<Option<(ConnKey, Vec<u8>)>, RecvError>) -> Result<
    Option<(KeyView, Seq<u8>)>,
    RecvError,
> {
    match r {
        Ok(Some((k, d))) => Ok(Some((k@, d@))),
        Ok(None) => Ok(None),
        Err(e) => Err(e),
    }
}

/// A send result as the TCP layer reports it: nothing sent is
/// `NoSendingPackets`.
pub open spec fn tcp_result(r: Result<Option<usize>, SendError>) -> Result<usize, SendError> {
    match r {
        Ok(Some(n)) => Ok(n),
        Ok(None) => Err(SendError::NoSendingPackets),
        Err(e) => Err(e),
    }
}

/// The frame of the ARP reply that tells the guest the host's MAC address.
pub open spec fn arp_reply_frame(v: NetView) -> Seq<u8> {
    arp_frame_bytes(v.guest_mac, v.host_mac, ArpOp::Reply, v.host_mac, v.host_ip, v.guest_mac, v.guest_ip)
}

/// Sending the next pending packet went as it should: the ARP reply
/// first, then the TCP layer's next packet, else nothing.
pub open spec fn pending_sent(
    v: NetView,
    regs: Seq<(int, int)>,
    written: int,
    old_mem: GuestMemory,
    new_mem: GuestMemory,
    w: NetView,
    r: Result<Option<usize>, SendError>,
) -> bool {
    if v.pending_arp_reply {
        match wr_bytes(old_mem.base as int, old_mem.ram@, regs, arp_reply_frame(v)) {
            Some((ram, _)) => r == Ok::<Option<usize>, SendError>(
                Some((written + arp_reply_frame(v).len()) as usize),
            ) && new_mem.ram@ == ram && w == NetView { pending_arp_reply: false, ..v },
            None => r matches Err(SendError::PacketBuild(_)) && w == v,
        }
    } else if has_pending(v.table) {
        &&& sent_as_planned(plan_pending(addrs_of(v), v.table), regs, written, old_mem, new_mem, w.table, tcp_result(r))
        &&& w == NetView { table: w.table, ..v }
    } else {
        r == Ok::<Option<usize>, SendError>(None) && w == v && new_mem.ram@ == old_mem.ram@
    }
}

/// The network as the guest sees it: its addresses and the host's, the
/// TCP connections the host opened, and an ARP reply to send.
pub struct GuestNet {
    pub host_ip: Ipv4Addr,
    pub guest_ip: Ipv4Addr,
    pub guest_mac: MacAddr,
    pub host_mac: MacAddr,
    pub gw_ip: Ipv4Addr,
    pub netmask: Ipv4Addr,
    pub dns_servers: [Ipv4Addr; 2],
    pub tcp_manager: TcpManager,
    pub pending_arp_reply: bool,
    pub next_host_port: u16,
}

impl GuestNet {
    pub open spec fn view(&self) -> NetView {
        NetView {
            host_ip: self.host_ip.0@,
            guest_ip: self.guest_ip.0@,
            guest_mac: self.guest_mac.0@,
            host_mac: self.host_mac.0@,
            gw_ip: self.gw_ip.0@,
            netmask: self.netmask.0@,
            dns0: self.dns_servers@[0].0@,
            dns1: self.dns_servers@[1].0@,
            table: self.tcp_manager.table(),
            pending_arp_reply: self.pending_arp_reply,
            next_host_port: self.next_host_port,
        }
    }

    /// The TCP layer is consistent and uses the network's addresses.
    pub open spec fn wf(&self) -> bool {
        &&& self.tcp_manager.wf()
        &&& self.tcp_manager.addrs() == addrs_of(self@)
    }

    pub fn new(
        host_ip: Ipv4Addr,
        guest_ip: Ipv4Addr,
        guest_mac: MacAddr,
        host_mac: MacAddr,
        gw_ip: Ipv4Addr,
        netmask: Ipv4Addr,
        dns_servers: [Ipv4Addr; 2],
    ) -> (r: GuestNet)
        ensures
            r.wf(),
            r@ == (NetView {
                host_ip: host_ip.0@,
                guest_ip: guest_ip.0@,
                guest_mac: guest_mac.0@,
                host_mac: host_mac.0@,
                gw_ip: gw_ip.0@,
                netmask: netmask.0@,
                dns0: dns_servers@[0].0@,
                dns1: dns_servers@[1].0@,
                table: Seq::empty(),
                pending_arp_reply: false,
                next_host_port: 40000,
            }),
    {
        GuestNet {
            host_ip,
            guest_ip,
            guest_mac,
            host_mac,
            gw_ip,
            netmask,
            dns_servers,
            tcp_manager: TcpManager::new(guest_ip, guest_mac, host_mac),
            pending_arp_reply: false,
            next_host_port: 40000,
        }
    }

    /// The kernel parameter that configures the guest's network.
    pub fn build_linux_ip_param(&self) -> (s: String)
        ensures
            s@ == linux_ip_param(self@),
    {
        let mut s = String::new();
        push_str(&mut s, "ip=");
        self.guest_ip.push_text(&mut s);
        push_str(&mut s, "::");
        self.gw_ip.push_text(&mut s);
        push_char(&mut s, ':');
        self.netmask.push_text(&mut s);
        push_str(&mut s, "::eth0:off:");
        self.dns_servers[0].push_text(&mut s);
        push_char(&mut s, ':');
        self.dns_servers[1].push_text(&mut s);
        proof {
            assert(s@ =~= linux_ip_param(self@));
        }
        s
    }

    /// Opens a TCP connection to `guest_port` of the guest from the
    /// virtual remote address `10.123.123.123`. Remote ports are handed out
    /// counting up from the next one (40000 at first), with wrap-around,
    /// skipping those whose key is taken; the connection starts in SYN-SENT
    /// with its SYN to be sent.
    pub fn connect_to_guest(&mut self, guest_port: u16, proto: IpProto) -> (r: ConnKey)
        requires
            old(self).wf(),
            exists|p: u16| find(old(self)@.table, #[trigger] port_key(proto, p, guest_port)) == -1,
        ensures
            final(self).wf(),
            r@ == port_key(proto, r.remote_port, guest_port),
            find(old(self)@.table, r@) == -1,
            forall|j: int|
                0 <= j < port_offset(old(self)@.next_host_port, r.remote_port) ==> find(
                    old(self)@.table,
                    #[trigger] port_key(proto, wrap16(old(self)@.next_host_port + j), guest_port),
                ) != -1,
            final(self)@ == (NetView {
                table: old(self)@.table.push((r@, opening_conn())),
                next_host_port: wrap16(r.remote_port + 1),
                ..old(self)@
            }),
    {
        let remote_ip = Ipv4Addr::new(10, 123, 123, 123);
        let ghost start = self.next_host_port;
        let ghost v0 = self@;
        let ghost mut count: int = 0;
        loop
            invariant
                self.wf(),
                0 <= count < 0x1_0000,
                v0 == old(self)@,
                v0.next_host_port == start,
                self.next_host_port == wrap16(start + count),
                self@ == (NetView { next_host_port: self.next_host_port, ..v0 }),
                remote_ip.0@ == virtual_remote_ip(),
                forall|j: int|
                    0 <= j < count ==> find(v0.table, #[trigger] port_key(proto, wrap16(start + j), guest_port))
                        != -1,
                exists|p: u16| find(v0.table, #[trigger] port_key(proto, p, guest_port)) == -1,
            decreases 0x1_0000 - count,
        {
            let remote_port = self.next_host_port;
            self.next_host_port = remote_port.wrapping_add(1);
            let connkey = ConnKey { proto, remote_ip, remote_port, guest_port };
            proof {
                lemma_wrap16_next(start, count);
                assert(connkey@ == port_key(proto, remote_port, guest_port));
            }
            if !self.tcp_manager.has_connection(&connkey) {
                self.tcp_manager.connect_to_guest(connkey);
                proof {
                    lemma_port_offset(start, count);
                    assert(self@.table == v0.table.push((connkey@, opening_conn())));
                }
                return connkey;
            }
            proof {
                if count + 1 == 0x1_0000 {
                    let p = choose|p: u16| find(v0.table, #[trigger] port_key(proto, p, guest_port)) == -1;
                    let k = lemma_port_reached(start, p);
                    if k < count {
                        assert(find(v0.table, port_key(proto, wrap16(start + k), guest_port)) != -1);
                    }
                    assert(false);
                }
                count = count + 1;
            }
        }
    }
}

impl GuestNet {
    /// Whether some remote port is still free for a connection to
    /// `guest_port`.
    pub fn has_free_port(&self, guest_port: u16, proto: IpProto) -> (r: bool)
        requires
            self.wf(),
        ensures
            r == exists|p: u16| find(self@.table, #[trigger] port_key(proto, p, guest_port)) == -1,
    {
        let remote_ip = Ipv4Addr::new(10, 123, 123, 123);
        let mut p: u32 = 0;
        while p < 0x1_0000
            invariant
                self.wf(),
                p <= 0x1_0000,
                remote_ip.0@ == virtual_remote_ip(),
                forall|q: u16| q < p ==> find(self@.table, #[trigger] port_key(proto, q, guest_port)) != -1,
            decreases 0x1_0000 - p,
        {
            let key = ConnKey { proto, remote_ip, remote_port: p as u16, guest_port };
            assert(key@ == port_key(proto, p as u16, guest_port));
            if !self.tcp_manager.has_connection(&key) {
                return true;
            }
            p += 1;
        }
        false
    }

    /// Opens a TCP connection to `guest_port` as `connect_to_guest` does,
    /// or returns `None`, changing nothing, where every remote port is
    /// taken.
    pub fn try_connect_to_guest(&mut self, guest_port: u16, proto: IpProto) -> (r: Option<ConnKey>)
        requires
            old(self).wf(),
        ensures
            final(self).wf(),
            r is None <==> forall|p: u16| find(old(self)@.table, #[trigger] port_key(proto, p, guest_port)) != -1,
            r is None ==> *final(self) == *old(self),
            r matches Some(k) ==> k@ == port_key(proto, k.remote_port, guest_port) && find(old(self)@.table, k@)
                == -1 && final(self)@ == (NetView {
                table: old(self)@.table.push((k@, opening_conn())),
                next_host_port: wrap16(k.remote_port + 1),
                ..old(self)@
            }),
    {
        if self.has_free_port(guest_port, proto) {
            Some(self.connect_to_guest(guest_port, proto))
        } else {
            None
        }
    }
}

impl GuestNet {
    /// Sends `data` to the guest on the connection with `key`, as the TCP
    /// layer does; `None` where nothing was sent (the data was queued).
    pub fn send_to_guest(
        &mut self,
        writer: VirtioPacketWriter,
        mem: &mut GuestMemory,
        key: &ConnKey,
        data: &[u8],
    ) -> (r: Result<Option<usize>, SendError>)
        requires
            old(self).wf(),
            writer.inner.wf(),
            old(mem).wf(),
            writer.inner.written_len <= usize::MAX - FRAME_LEN_MAX,
            data@.len() <= TCP_PAYLOAD_MAX,
        ensures
            final(self).wf(),
            final(mem).base == old(mem).base,
            final(mem).wf(),
            final(self)@ == (NetView { table: final(self)@.table, ..old(self)@ }),
            find(old(self)@.table, key@) == -1 ==> r == Err::<Option<usize>, SendError>(SendError::UnknownConn)
                && final(self)@ == old(self)@ && final(mem).ram@ == old(mem).ram@,
            find(old(self)@.table, key@) != -1 ==> sent_as_planned(
                plan_data(addrs_of(old(self)@), old(self)@.table, find(old(self)@.table, key@), data@),
                writer.inner.regions(),
                writer.inner.written_len as int,
                *old(mem),
                *final(mem),
                final(self)@.table,
                tcp_result(r),
            ),
    {
        match self.tcp_manager.send_to_guest(writer, mem, key, data) {
            Ok(len) => Ok(Some(len)),
            Err(SendError::NoSendingPackets) => Ok(None),
            Err(e) => Err(e),
        }
    }

    /// Whether the MAC addresses of a frame from the guest are the ones it
    /// must carry.
    fn verify_mac_addresses(&self, eth_packet: &RxEthPacket) -> (r: bool)
        ensures
            r == macs_ok(self@, eth_packet@),
    {
        let mut valid = true;
        if !eth_packet.src_mac.equals(&self.guest_mac) {
            valid = false;
        }
        let is_arp_broadcast = match &eth_packet.packet {
            RxPacket::Arp(arp) => match arp.operation {
                ArpOp::Request => true,
                ArpOp::Reply => false,
            },
            _ => false,
        };
        if !is_arp_broadcast && !eth_packet.dst_mac.equals(&self.host_mac) {
            valid = false;
        } else if is_arp_broadcast && !eth_packet.dst_mac.equals(&MacAddr::broadcast())
            && !eth_packet.dst_mac.equals(&self.host_mac) {
            valid = false;
        }
        valid
    }

    /// Answers an ARP packet: a request is checked by `handle_arp_request`,
    /// a reply is ignored.
    fn handle_arp_packet(&mut self, arp: &ArpRx) -> (r: Result<(), RecvError>)
        requires
            old(self).wf(),
        ensures
            final(self).wf(),
            match arp.operation {
                ArpOp::Request => if arp.target_ip.0@ == old(self)@.host_ip && arp.sender_ip.0@
                    == old(self)@.guest_ip {
                    r is Ok && final(self)@ == (NetView { pending_arp_reply: true, ..old(self)@ })
                } else {
                    r == Err::<(), RecvError>(RecvError::InvalidArpTarget) && final(self)@ == old(self)@
                },
                ArpOp::Reply => r is Ok && final(self)@ == old(self)@,
            },
    {
        match arp.operation {
            ArpOp::Request => self.handle_arp_request(arp.target_ip, arp.sender_ip),
            ArpOp::Reply => Ok(()),
        }
    }

    /// Queues an ARP reply where the guest asks, from its own address, for
    /// the host's; refuses any other request.
    fn handle_arp_request(&mut self, target_ip: Ipv4Addr, sender_ip: Ipv4Addr) -> (r: Result<(), RecvError>)
        requires
            old(self).wf(),
        ensures
            final(self).wf(),
            target_ip.0@ == old(self)@.host_ip && sender_ip.0@ == old(self)@.guest_ip ==> r is Ok
                && final(self)@ == (NetView { pending_arp_reply: true, ..old(self)@ }),
            !(target_ip.0@ == old(self)@.host_ip && sender_ip.0@ == old(self)@.guest_ip) ==> r
                == Err::<(), RecvError>(RecvError::InvalidArpTarget) && final(self)@ == old(self)@,
    {
        if !target_ip.equals(&self.host_ip) {
            return Err(RecvError::InvalidArpTarget);
        }
        if !sender_ip.equals(&self.guest_ip) {
            return Err(RecvError::InvalidArpTarget);
        }
        self.pending_arp_reply = true;
        Ok(())
    }

    /// Receives one frame from the guest, from the readable buffers of
    /// `reader`, as `recv_step` says. Returns the data a TCP segment hands
    /// on to the host side, with its connection's key.
    pub fn recv_from_guest(&mut self, reader: &mut DescChainReader, mem: &GuestMemory) -> (r: Result<
        Option<(ConnKey, Vec<u8>)>,
        RecvError,
    >)
        requires
            old(self).wf(),
            old(reader).wf(),
            mem.wf(),
        ensures
            final(self).wf(),
            (final(self)@, recv_result_view(r)) == recv_step(old(self)@, spec_parse(old(reader).segments(mem))),
    {
        let eth_packet = match PacketParser::parse(reader, mem) {
            Ok(packet) => packet,
            Err(_) => return Ok(None),
        };
        if !self.verify_mac_addresses(&eth_packet) {
            return Ok(None);
        }
        match &eth_packet.packet {
            RxPacket::Arp(arp) => {
                match self.handle_arp_packet(arp) {
                    Ok(()) => Ok(None),
                    Err(e) => Err(e),
                }
            },
            RxPacket::Tcp(tcp) => {
                let ghost v = self@;
                let forwarded = self.tcp_manager.handle_tcp_packet(tcp);
                proof {
                    assert(self@ == (NetView { table: self@.table, ..v }));
                }
                Ok(forwarded)
            },
            _ => Ok(None),
        }
    }

    /// Whether there is something to send to the guest.
    pub fn has_pending_packets(&self) -> (r: bool)
        ensures
            r == (self@.pending_arp_reply || has_pending(self@.table)),
    {
        self.pending_arp_reply || self.tcp_manager.has_pending_packets()
    }

    /// Sends the next pending packet: the ARP reply first, then the TCP
    /// layer's next packet; `None` where there is nothing to send.
    pub fn send_pending_packet(&mut self, writer: VirtioPacketWriter, mem: &mut GuestMemory) -> (r: Result<
        Option<usize>,
        SendError,
    >)
        requires
            old(self).wf(),
            writer.inner.wf(),
            old(mem).wf(),
            writer.inner.written_len <= usize::MAX - FRAME_LEN_MAX,
        ensures
            final(self).wf(),
            final(mem).base == old(mem).base,
            final(mem).wf(),
            pending_sent(old(self)@, writer.inner.regions(), writer.inner.written_len as int, *old(mem), *final(mem), final(self)@, r),
    {
        if self.pending_arp_reply {
            let arp_reply = TxPacket::Arp {
                operation: ArpOp::Reply,
                sender_hw_addr: self.host_mac,
                sender_ip: self.host_ip,
                target_hw_addr: self.guest_mac,
                target_ip: self.guest_ip,
            };
            let builder = PacketBuilder::new(writer, self.guest_mac, self.host_mac);
            let written_len = match builder.send(mem, &arp_reply) {
                Ok(len) => len,
                Err(e) => return Err(SendError::PacketBuild(e)),
            };
            self.pending_arp_reply = false;
            return Ok(Some(written_len));
        }
        if self.tcp_manager.has_pending_packets() {
            return match self.tcp_manager.send_pending_packet(writer, mem) {
                Ok(len) => Ok(Some(len)),
                Err(SendError::NoSendingPackets) => Ok(None),
                Err(e) => Err(e),
            };
        }
        Ok(None)
    }
}

/// Counting on from `start + count` by one stays modulo 2^16.
proof fn lemma_wrap16_next(start: u16, count: int)
    requires
        0 <= count < 0x1_0000,
    ensures
        wrap16(start + count) as int == if start + count < 0x1_0000 {
            start + count
        } else {
            start + count - 0x1_0000
        },
        wrap16(wrap16(start + count) + 1) == wrap16(start + count + 1),
        (wrap16(start + count) + 1 > u16::MAX ==> wrap16(start + count + 1) as int == wrap16(start + count) + 1 - 0x1_0000),
        (wrap16(start + count) + 1 <= u16::MAX ==> wrap16(start + count + 1) as int == wrap16(start + count) + 1),
{
}

/// The `count`-th port from `start` lies `count` ports after it.
proof fn lemma_port_offset(start: u16, count: int)
    requires
        0 <= count < 0x1_0000,
    ensures
        port_offset(start, wrap16(start + count)) == count,
{
    lemma_wrap16_next(start, count);
}

/// Every port is reached from `start` within 2^16 steps.
proof fn lemma_port_reached(start: u16, p: u16) -> (k: int)
    ensures
        0 <= k < 0x1_0000,
        wrap16(start + k) == p,
{
    let k = port_offset(start, p);
    lemma_wrap16_next(start, k);
    k
}

/// A frame from the guest that does not carry the guest's MAC address as
/// its source, and the host's (or, for an ARP request, the broadcast
/// address) as its destination, changes nothing and hands nothing on.
pub proof fn law_bad_macs_dropped(v: NetView, p: SpecRxEth)
    requires
        !macs_ok(v, p),
    ensures
        recv_step(v, Ok(p)) == (v, Ok::<Option<(KeyView, Seq<u8>)>, RecvError>(None)),
{
}

/// The network has an ARP reply to send only after the guest asked, from
/// its own address and MAC, for the host's address.
pub proof fn law_arp_reply_only_for_host_request(v: NetView, parsed: Result<SpecRxEth, ParseError>)
    requires
        !v.pending_arp_reply,
        recv_step(v, parsed).0.pending_arp_reply,
    ensures
        parsed matches Ok(p) && macs_ok(v, p) && p.src_mac == v.guest_mac && (p.packet matches SpecRx::Arp {
            operation: ArpOp::Request,
            sender_ip,
            target_ip,
            ..
        } && sender_ip == v.guest_ip && target_ip == v.host_ip),
{
}

/// An ARP request from the guest for an address other than the host's, or
/// from an address other than the guest's, is refused and changes nothing.
pub proof fn law_foreign_arp_request_refused(v: NetView, p: SpecRxEth)
    requires
        macs_ok(v, p),
        p.packet matches SpecRx::Arp { operation: ArpOp::Request, sender_ip, target_ip, .. } && !(target_ip
            == v.host_ip && sender_ip == v.guest_ip),
    ensures
        recv_step(v, Ok(p)) == (v, Err::<Option<(KeyView, Seq<u8>)>, RecvError>(RecvError::InvalidArpTarget)),
{
}

} // verus!
