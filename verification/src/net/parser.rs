//! Parsing of the Ethernet frames that the guest sends.

use vstd::prelude::*;
use crate::bytes::{be16, be16_bytes, be32, be32_bytes, law_encodings_round_trip, u16_from_be, u32_from_be};
use crate::net::builder::{eth_header_bytes, ipv4_header_bytes, tcp_frame_bytes, tcp_header_bytes, tcp_total_len};
use crate::guest_memory::{GuestMemory, GuestMemoryError};
use crate::net::packet::{ArpOp, EtherType, IpProto, Ipv4Addr, MacAddr, ETHER_TYPE_ARP, ETHER_TYPE_IPV4};
use crate::virtio::desc_chain::{ram_range, seg, seg_read, wr_bytes, DescChainReader};

verus! {

/// An ARP packet.
#[derive(Debug, Clone)]
pub struct ArpRx {
    pub operation: ArpOp,
    pub sender_hw_addr: MacAddr,
    pub sender_ip: Ipv4Addr,
    pub target_hw_addr: MacAddr,
    pub target_ip: Ipv4Addr,
}

/// A TCP segment with the IPv4 addresses it was sent between.
#[derive(Debug, Clone)]
pub struct TcpRx {
    pub src_ip: Ipv4Addr,
    pub dst_ip: Ipv4Addr,
    pub src_port: u16,
    pub dst_port: u16,
    pub seq_num: u32,
    pub ack_num: u32,
    pub flags: u8,
    pub payload: Vec<u8>,
}

/// The content of a parsed frame.
#[derive(Debug)]
pub enum RxPacket {
    Arp(ArpRx),
    Tcp(TcpRx),
    UnknownIpv4 { src_ip: Ipv4Addr, dst_ip: Ipv4Addr, ip_proto: u8, payload: Vec<u8> },
    UnknownEth { ether_type: u16, payload_len: usize },
}

/// Why a frame could not be parsed.
#[derive(Debug, Clone, Copy, PartialEq, Eq, Structural)]
pub enum ParseError {
    GuestMemory(GuestMemoryError),
    EthernetHeaderTooShort,
    ArpPacketTooShort,
    InvalidArpPacket,
    Ipv4HeaderTooShort,
    NotIpv4,
    TcpHeaderTooShort,
    UnknownArpOperation(u16),
}

/// A frame with its MAC addresses and parsed content.
#[derive(Debug)]
pub struct RxEthPacket {
    pub dst_mac: MacAddr,
    pub src_mac: MacAddr,
    pub packet: RxPacket,
}

/// The content of a frame, as values.
pub enum SpecRx {
    Arp {
        operation: ArpOp,
        sender_hw: Seq<u8>,
        sender_ip: Seq<u8>,
        target_hw: Seq<u8>,
        target_ip: Seq<u8>,
    },
    Tcp {
        src_ip: Seq<u8>,
        dst_ip: Seq<u8>,
        src_port: u16,
        dst_port: u16,
        seq_num: u32,
        ack_num: u32,
        flags: u8,
        payload: Seq<u8>,
    },
    UnknownIpv4 { src_ip: Seq<u8>, dst_ip: Seq<u8>, ip_proto: u8, payload: Seq<u8> },
    UnknownEth { ether_type: u16, payload_len: nat },
}

/// A parsed frame, as values.
pub struct SpecRxEth {
    pub dst_mac: Seq<u8>,
    pub src_mac: Seq<u8>,
    pub packet: SpecRx,
}

impl RxPacket {
    pub open spec fn view(&self) -> SpecRx {
        match self {
            RxPacket::Arp(a) => SpecRx::Arp {
                operation: a.operation,
                sender_hw: a.sender_hw_addr.0@,
                sender_ip: a.sender_ip.0@,
                target_hw: a.target_hw_addr.0@,
                target_ip: a.target_ip.0@,
            },
            RxPacket::Tcp(t) => SpecRx::Tcp {
                src_ip: t.src_ip.0@,
                dst_ip: t.dst_ip.0@,
                src_port: t.src_port,
                dst_port: t.dst_port,
                seq_num: t.seq_num,
                ack_num: t.ack_num,
                flags: t.flags,
                payload: t.payload@,
            },
            RxPacket::UnknownIpv4 { src_ip, dst_ip, ip_proto, payload } => SpecRx::UnknownIpv4 {
                src_ip: src_ip.0@,
                dst_ip: dst_ip.0@,
                ip_proto: *ip_proto,
                payload: payload@,
            },
            RxPacket::UnknownEth { ether_type, payload_len } => SpecRx::UnknownEth {
                ether_type: *ether_type,
                payload_len: *payload_len as nat,
            },
        }
    }
}

impl RxEthPacket {
    pub open spec fn view(&self) -> SpecRxEth {
        SpecRxEth { dst_mac: self.dst_mac.0@, src_mac: self.src_mac.0@, packet: self.packet.view() }
    }
}

/// `a - b` in `usize` arithmetic with wrap-around.
pub open spec fn wrapping_usize_sub(a: int, b: int) -> int {
    if a >= b {
        a - b
    } else {
        a - b + usize::MAX + 1
    }
}

/// The remaining readable segments of a frame.
pub type Segs = Seq<Seq<Option<u8>>>;

pub open spec fn mem_err<T>() -> Result<T, ParseError> {
    Err(ParseError::GuestMemory(GuestMemoryError::OutOfRange))
}

/// Reads `n` bytes, or skips nothing where `n` is zero.
pub open spec fn read_or_err(segs: Segs, n: nat) -> Result<(Seq<u8>, Segs), ParseError> {
    match seg_read(segs, n) {
        Some((d, s)) => Ok((d, s)),
        None => mem_err(),
    }
}

/// The Ethernet header: destination, source and frame type.
pub open spec fn spec_eth_header(segs: Segs) -> Result<(Seq<u8>, Seq<u8>, u16, Segs), ParseError> {
    match read_or_err(segs, 14) {
        Err(e) => Err(e),
        Ok((eth, s)) => if eth.len() < 14 {
            Err(ParseError::EthernetHeaderTooShort)
        } else {
            Ok((eth.subrange(0, 6), eth.subrange(6, 12), be16(eth.subrange(12, 14)) as u16, s))
        },
    }
}

/// The ARP packet after the Ethernet header; only Ethernet/IPv4 ARP is
/// accepted.
pub open spec fn spec_arp(segs: Segs) -> Result<SpecRx, ParseError> {
    match read_or_err(segs, 28) {
        Err(e) => Err(e),
        Ok((a, _)) => if a.len() < 28 {
            Err(ParseError::ArpPacketTooShort)
        } else if be16(a.subrange(0, 2)) != 1 || be16(a.subrange(2, 4)) != 0x0800 || a[4] != 6
            || a[5] != 4 {
            Err(ParseError::InvalidArpPacket)
        } else if be16(a.subrange(6, 8)) != 1 && be16(a.subrange(6, 8)) != 2 {
            Err(ParseError::UnknownArpOperation(be16(a.subrange(6, 8)) as u16))
        } else {
            Ok(
                SpecRx::Arp {
                    operation: if be16(a.subrange(6, 8)) == 1 {
                        ArpOp::Request
                    } else {
                        ArpOp::Reply
                    },
                    sender_hw: a.subrange(8, 14),
                    sender_ip: a.subrange(14, 18),
                    target_hw: a.subrange(18, 24),
                    target_ip: a.subrange(24, 28),
                },
            )
        },
    }
}

/// Skips `n` option bytes where `n` is positive.
pub open spec fn skip_options(segs: Segs, n: int) -> Result<Segs, ParseError> {
    if n > 0 {
        match read_or_err(segs, n as nat) {
            Err(e) => Err(e),
            Ok((_, s)) => Ok(s),
        }
    } else {
        Ok(segs)
    }
}

/// Reads a payload of `n` bytes (or fewer, where the buffer ends first).
pub open spec fn read_payload(segs: Segs, n: int) -> Result<Seq<u8>, ParseError> {
    if n > 0 {
        match read_or_err(segs, n as nat) {
            Err(e) => Err(e),
            Ok((p, _)) => Ok(p),
        }
    } else {
        Ok(Seq::empty())
    }
}

/// The IPv4 header: source, destination, protocol, header length and
/// total length; the rest of the segments after the header's options.
pub open spec fn spec_ipv4_header(segs: Segs) -> Result<
    (Seq<u8>, Seq<u8>, u8, u8, u16, Segs),
    ParseError,
> {
    match read_or_err(segs, 20) {
        Err(e) => Err(e),
        Ok((ip, s)) => if ip.len() < 20 {
            Err(ParseError::Ipv4HeaderTooShort)
        } else if ip[0] / 16 != 4 {
            Err(ParseError::NotIpv4)
        } else {
            let header_len = (ip[0] % 16) * 4;
            match skip_options(s, header_len - 20) {
                Err(e) => Err(e),
                Ok(s2) => Ok(
                    (
                        ip.subrange(12, 16),
                        ip.subrange(16, 20),
                        ip[9],
                        header_len as u8,
                        be16(ip.subrange(2, 4)) as u16,
                        s2,
                    ),
                ),
            }
        },
    }
}

/// The TCP segment after the IPv4 header, of which `remaining` bytes are
/// left according to the IPv4 lengths.
pub open spec fn spec_tcp(segs: Segs, src_ip: Seq<u8>, dst_ip: Seq<u8>, remaining: int) -> Result<
    SpecRx,
    ParseError,
> {
    match read_or_err(segs, 20) {
        Err(e) => Err(e),
        Ok((t, s)) => if t.len() < 20 {
            Err(ParseError::TcpHeaderTooShort)
        } else {
            let dof = be16(t.subrange(12, 14));
            let header_len = (dof / 4096) * 4;
            match skip_options(s, header_len - 20) {
                Err(e) => Err(e),
                Ok(s2) => match read_payload(s2, wrapping_usize_sub(remaining, header_len)) {
                    Err(e) => Err(e),
                    Ok(payload) => Ok(
                        SpecRx::Tcp {
                            src_ip,
                            dst_ip,
                            src_port: be16(t.subrange(0, 2)) as u16,
                            dst_port: be16(t.subrange(2, 4)) as u16,
                            seq_num: be32(t.subrange(4, 8)) as u32,
                            ack_num: be32(t.subrange(8, 12)) as u32,
                            flags: (dof % 256) as u8,
                            payload,
                        },
                    ),
                },
            }
        },
    }
}

/// The frame that the readable segments hold.
pub open spec fn spec_parse(segs: Segs) -> Result<SpecRxEth, ParseError> {
    match spec_eth_header(segs) {
        Err(e) => Err(e),
        Ok((dst, src, ether_type, s)) => {
            let packet = if ether_type == ETHER_TYPE_ARP {
                spec_arp(s)
            } else if ether_type == ETHER_TYPE_IPV4 {
                match spec_ipv4_header(s) {
                    Err(e) => Err(e),
                    Ok((src_ip, dst_ip, proto, header_len, total_len, s2)) => {
                        let remaining = wrapping_usize_sub(total_len as int, header_len as int);
                        if proto == 6 {
                            spec_tcp(s2, src_ip, dst_ip, remaining)
                        } else {
                            match read_payload(s2, remaining) {
                                Err(e) => Err(e),
                                Ok(payload) => Ok(
                                    SpecRx::UnknownIpv4 { src_ip, dst_ip, ip_proto: proto, payload },
                                ),
                            }
                        }
                    },
                }
            } else {
                match read_or_err(s, 1500) {
                    Err(e) => Err(e),
                    Ok((p, _)) => Ok(SpecRx::UnknownEth { ether_type, payload_len: p.len() }),
                }
            };
            match packet {
                Err(e) => Err(e),
                Ok(p) => Ok(SpecRxEth { dst_mac: dst, src_mac: src, packet: p }),
            }
        },
    }
}

fn read_exact(reader: &mut DescChainReader, mem: &GuestMemory, n: usize) -> (r: Result<
    Vec<u8>,
    ParseError,
>)
    requires
        old(reader).wf(),
        mem.wf(),
    ensures
        final(reader).wf(),
        match read_or_err(old(reader).segments(mem), n as nat) {
            Ok((d, s)) => r is Ok && r->Ok_0@ == d && final(reader).segments(mem) == s,
            Err(e) => r == Err::<Vec<u8>, ParseError>(e),
        },
{
    match reader.read_zerocopy(mem, n) {
        Ok(v) => Ok(v),
        Err(e) => Err(ParseError::GuestMemory(e)),
    }
}

fn mac_from(b: &Vec<u8>, at: usize) -> (r: MacAddr)
    requires
        at <= 64,
        at + 6 <= b@.len(),
    ensures
        r.0@ == b@.subrange(at as int, at + 6),
{
    let r = MacAddr([b[at], b[at + 1], b[at + 2], b[at + 3], b[at + 4], b[at + 5]]);
    assert(r.0@ =~= b@.subrange(at as int, at + 6));
    r
}

fn ip_from(b: &Vec<u8>, at: usize) -> (r: Ipv4Addr)
    requires
        at <= 64,
        at + 4 <= b@.len(),
    ensures
        r.0@ == b@.subrange(at as int, at + 4),
{
    let r = Ipv4Addr([b[at], b[at + 1], b[at + 2], b[at + 3]]);
    assert(r.0@ =~= b@.subrange(at as int, at + 4));
    r
}

fn be16_at(b: &Vec<u8>, at: usize) -> (r: u16)
    requires
        at <= 64,
        at + 2 <= b@.len(),
    ensures
        r == be16(b@.subrange(at as int, at + 2)),
{
    proof {
        assert(b@.subrange(at as int, at + 2) =~= seq![b@[at as int], b@[at + 1]]);
    }
    u16_from_be(b[at], b[at + 1])
}

fn be32_at(b: &Vec<u8>, at: usize) -> (r: u32)
    requires
        at <= 64,
        at + 4 <= b@.len(),
    ensures
        r == be32(b@.subrange(at as int, at + 4)),
{
    proof {
        assert(b@.subrange(at as int, at + 4) =~= seq![
            b@[at as int],
            b@[at + 1],
            b@[at + 2],
            b@[at + 3],
        ]);
    }
    u32_from_be(b[at], b[at + 1], b[at + 2], b[at + 3])
}

fn wrapping_sub_usize(a: usize, b: usize) -> (r: usize)
    ensures
        r == wrapping_usize_sub(a as int, b as int),
{
    if a >= b {
        a - b
    } else {
        usize::MAX - (b - a) + 1
    }
}

/// Parser for Ethernet frames.
pub struct PacketParser;

impl PacketParser {
    /// Parses the frame in the readable buffers of `reader`.
    pub fn parse(reader: &mut DescChainReader, mem: &GuestMemory) -> (r: Result<
        RxEthPacket,
        ParseError,
    >)
        requires
            old(reader).wf(),
            mem.wf(),
        ensures
            match spec_parse(old(reader).segments(mem)) {
                Ok(p) => r is Ok && r->Ok_0.view() == p,
                Err(e) => r == Err::<RxEthPacket, ParseError>(e),
            },
    {
        let (dst_mac, src_mac, ether_type_raw) = Self::parse_ethernet_header(reader, mem)?;
        let ether_type = EtherType::from_u16(ether_type_raw);
        let packet = match ether_type {
            Some(EtherType::Arp) => {
                let arp = Self::parse_arp_packet(reader, mem)?;
                RxPacket::Arp(arp)
            },
            Some(EtherType::Ipv4) => {
                let (src_ip, dst_ip, ip_proto, header_len, total_len) = Self::parse_ipv4_header(
                    reader,
                    mem,
                )?;
                let remaining_payload_len = wrapping_sub_usize(
                    total_len as usize,
                    header_len as usize,
                );
                match IpProto::from_u8(ip_proto) {
                    Some(IpProto::Tcp) => {
                        let tcp_rx = Self::parse_tcp_packet(
                            reader,
                            mem,
                            src_ip,
                            dst_ip,
                            remaining_payload_len,
                        )?;
                        RxPacket::Tcp(tcp_rx)
                    },
                    _ => {
                        let payload = if remaining_payload_len > 0 {
                            read_exact(reader, mem, remaining_payload_len)?
                        } else {
                            Vec::new()
                        };
                        RxPacket::UnknownIpv4 { src_ip, dst_ip, ip_proto, payload }
                    },
                }
            },
            None => {
                let payload = read_exact(reader, mem, 1500)?;
                RxPacket::UnknownEth { ether_type: ether_type_raw, payload_len: payload.len() }
            },
        };
        Ok(RxEthPacket { dst_mac, src_mac, packet })
    }

    fn parse_ethernet_header(reader: &mut DescChainReader, mem: &GuestMemory) -> (r: Result<
        (MacAddr, MacAddr, u16),
        ParseError,
    >)
        requires
            old(reader).wf(),
            mem.wf(),
        ensures
            final(reader).wf(),
            match spec_eth_header(old(reader).segments(mem)) {
                Ok((dst, src, t, s)) => r is Ok && r->Ok_0.0.0@ == dst && r->Ok_0.1.0@ == src
                    && r->Ok_0.2 == t && final(reader).segments(mem) == s,
                Err(e) => r == Err::<(MacAddr, MacAddr, u16), ParseError>(e),
            },
    {
        let eth_data = read_exact(reader, mem, 14)?;
        if eth_data.len() < 14 {
            return Err(ParseError::EthernetHeaderTooShort);
        }
        let dst_mac = mac_from(&eth_data, 0);
        let src_mac = mac_from(&eth_data, 6);
        let ether_type_raw = be16_at(&eth_data, 12);
        Ok((dst_mac, src_mac, ether_type_raw))
    }

    fn parse_arp_packet(reader: &mut DescChainReader, mem: &GuestMemory) -> (r: Result<
        ArpRx,
        ParseError,
    >)
        requires
            old(reader).wf(),
            mem.wf(),
        ensures
            final(reader).wf(),
            match spec_arp(old(reader).segments(mem)) {
                Ok(p) => r is Ok && RxPacket::Arp(r->Ok_0).view() == p,
                Err(e) => r == Err::<ArpRx, ParseError>(e),
            },
    {
        let arp_data = read_exact(reader, mem, 28)?;
        if arp_data.len() < 28 {
            return Err(ParseError::ArpPacketTooShort);
        }
        let hw_type = be16_at(&arp_data, 0);
        let proto_type = be16_at(&arp_data, 2);
        let hw_len = arp_data[4];
        let proto_len = arp_data[5];
        if hw_type != 1 || proto_type != 0x0800 || hw_len != 6 || proto_len != 4 {
            return Err(ParseError::InvalidArpPacket);
        }
        let operation_raw = be16_at(&arp_data, 6);
        let operation = match ArpOp::from_u16(operation_raw) {
            Some(op) => op,
            None => return Err(ParseError::UnknownArpOperation(operation_raw)),
        };
        Ok(
            ArpRx {
                operation,
                sender_hw_addr: mac_from(&arp_data, 8),
                sender_ip: ip_from(&arp_data, 14),
                target_hw_addr: mac_from(&arp_data, 18),
                target_ip: ip_from(&arp_data, 24),
            },
        )
    }

    fn parse_ipv4_header(reader: &mut DescChainReader, mem: &GuestMemory) -> (r: Result<
        (Ipv4Addr, Ipv4Addr, u8, u8, u16),
        ParseError,
    >)
        requires
            old(reader).wf(),
            mem.wf(),
        ensures
            final(reader).wf(),
            match spec_ipv4_header(old(reader).segments(mem)) {
                Ok((src, dst, proto, hl, tl, s)) => r is Ok && r->Ok_0.0.0@ == src
                    && r->Ok_0.1.0@ == dst && r->Ok_0.2 == proto && r->Ok_0.3 == hl
                    && r->Ok_0.4 == tl && final(reader).segments(mem) == s,
                Err(e) => r == Err::<(Ipv4Addr, Ipv4Addr, u8, u8, u16), ParseError>(e),
            },
    {
        let ip_data = read_exact(reader, mem, 20)?;
        if ip_data.len() < 20 {
            return Err(ParseError::Ipv4HeaderTooShort);
        }
        let version_ihl = ip_data[0];
        let version = version_ihl / 16;
        let header_len = (version_ihl % 16) * 4;
        if version != 4 {
            return Err(ParseError::NotIpv4);
        }
        let total_len = be16_at(&ip_data, 2);
        let proto = ip_data[9];
        let src_ip = ip_from(&ip_data, 12);
        let dst_ip = ip_from(&ip_data, 16);
        if header_len > 20 {
            let options_len = (header_len - 20) as usize;
            read_exact(reader, mem, options_len)?;
        }
        Ok((src_ip, dst_ip, proto, header_len, total_len))
    }

    fn parse_tcp_packet(
        reader: &mut DescChainReader,
        mem: &GuestMemory,
        src_ip: Ipv4Addr,
        dst_ip: Ipv4Addr,
        remaining_payload_len: usize,
    ) -> (r: Result<TcpRx, ParseError>)
        requires
            old(reader).wf(),
            mem.wf(),
        ensures
            final(reader).wf(),
            match spec_tcp(
                old(reader).segments(mem),
                src_ip.0@,
                dst_ip.0@,
                remaining_payload_len as int,
            ) {
                Ok(p) => r is Ok && RxPacket::Tcp(r->Ok_0).view() == p,
                Err(e) => r == Err::<TcpRx, ParseError>(e),
            },
    {
        let tcp_data = read_exact(reader, mem, 20)?;
        if tcp_data.len() < 20 {
            return Err(ParseError::TcpHeaderTooShort);
        }
        let src_port = be16_at(&tcp_data, 0);
        let dst_port = be16_at(&tcp_data, 2);
        let seq_num = be32_at(&tcp_data, 4);
        let ack_num = be32_at(&tcp_data, 8);
        let data_offset_flags = be16_at(&tcp_data, 12);
        let header_len = ((data_offset_flags / 4096) * 4) as u8;
        let flags = (data_offset_flags % 256) as u8;
        if header_len > 20 {
            let options_len = (header_len - 20) as usize;
            read_exact(reader, mem, options_len)?;
        }
        let payload_len = wrapping_sub_usize(remaining_payload_len, header_len as usize);
        let payload = if payload_len > 0 {
            read_exact(reader, mem, payload_len)?
        } else {
            Vec::new()
        };
        Ok(TcpRx { src_ip, dst_ip, src_port, dst_port, seq_num, ack_num, flags, payload })
    }
}

/// The bytes `b` as one readable segment, every byte in the RAM.
pub open spec fn one_segment(b: Seq<u8>) -> Segs {
    seq![b.map_values(|x: u8| Some(x))]
}

/// Reading `n` bytes of one segment takes its first `n` bytes and leaves
/// the rest, if any.
proof fn lemma_read_one_segment(b: Seq<u8>, n: nat)
    requires
        0 < n <= b.len(),
    ensures
        seg_read(one_segment(b), n) == Some::<(Seq<u8>, Segs)>(
            (b.take(n as int), if n == b.len() { Seq::<Seq<Option<u8>>>::empty() } else { one_segment(b.skip(n as int)) }),
        ),
{
    let segs = one_segment(b);
    let o = b.map_values(|x: u8| Some(x));
    assert(segs[0] == o);
    let part = o.take(n as int);
    assert(crate::virtio::desc_chain::all_some(part));
    assert(crate::virtio::desc_chain::unwrap_all(part) =~= b.take(n as int));
    if n == b.len() {
        assert(segs.drop_first() =~= Seq::<Seq<Option<u8>>>::empty());
    } else {
        assert(o.skip(n as int) =~= b.skip(n as int).map_values(|x: u8| Some(x)));
        assert(segs.update(0, o.skip(n as int)) =~= one_segment(b.skip(n as int)));
    }
}

/// An Ethernet header parses back into its addresses and frame type.
proof fn lemma_eth_layer(dst: Seq<u8>, src: Seq<u8>, r: Seq<u8>)
    requires
        dst.len() == 6,
        src.len() == 6,
        r.len() > 0,
    ensures
        spec_eth_header(one_segment(eth_header_bytes(dst, src, ETHER_TYPE_IPV4) + r)) == Ok::<
            (Seq<u8>, Seq<u8>, u16, Segs),
            ParseError,
        >((dst, src, ETHER_TYPE_IPV4, one_segment(r))),
{
    let eth = eth_header_bytes(dst, src, ETHER_TYPE_IPV4);
    let b = eth + r;
    law_encodings_round_trip(ETHER_TYPE_IPV4, 0);
    lemma_read_one_segment(b, 14);
    assert(b.take(14) =~= eth);
    assert(b.skip(14) =~= r);
    assert(eth.subrange(0, 6) =~= dst);
    assert(eth.subrange(6, 12) =~= src);
    assert(eth.subrange(12, 14) =~= be16_bytes(ETHER_TYPE_IPV4 as int));
}

/// An IPv4 header without options parses back into its addresses, its
/// protocol, its length of 20 and its total length.
proof fn lemma_ip_layer(src_ip: Seq<u8>, dst_ip: Seq<u8>, total: u16, r: Seq<u8>)
    requires
        src_ip.len() == 4,
        dst_ip.len() == 4,
        r.len() > 0,
    ensures
        spec_ipv4_header(one_segment(ipv4_header_bytes(6, total, src_ip, dst_ip) + r)) == Ok::<
            (Seq<u8>, Seq<u8>, u8, u8, u16, Segs),
            ParseError,
        >((src_ip, dst_ip, 6u8, 20u8, total, one_segment(r))),
{
    let ip = ipv4_header_bytes(6, total, src_ip, dst_ip);
    let b = ip + r;
    law_encodings_round_trip(total, 0);
    lemma_read_one_segment(b, 20);
    assert(b.take(20) =~= ip);
    assert(b.skip(20) =~= r);
    assert(ip[0] == 0x45u8);
    assert(ip[9] == 6u8);
    assert(ip.subrange(12, 16) =~= src_ip);
    assert(ip.subrange(16, 20) =~= dst_ip);
    assert(ip.subrange(2, 4) =~= be16_bytes(total as int));
}

/// A TCP header without options, with the payload after it, parses back
/// into its fields and the payload.
proof fn lemma_tcp_layer(
    src_ip: Seq<u8>,
    dst_ip: Seq<u8>,
    src_port: u16,
    dst_port: u16,
    seq_num: u32,
    ack_num: u32,
    flags: u8,
    window: u16,
    payload: Seq<u8>,
)
    ensures
        spec_tcp(
            one_segment(tcp_header_bytes(src_port, dst_port, seq_num, ack_num, flags, window) + payload),
            src_ip,
            dst_ip,
            20 + payload.len() as int,
        ) == Ok::<SpecRx, ParseError>(SpecRx::Tcp { src_ip, dst_ip, src_port, dst_port, seq_num, ack_num, flags, payload }),
{
    let tcp = tcp_header_bytes(src_port, dst_port, seq_num, ack_num, flags, window);
    let b = tcp + payload;
    let dof: u16 = (5 * 4096 + flags) as u16;
    law_encodings_round_trip(src_port, seq_num);
    law_encodings_round_trip(dst_port, ack_num);
    law_encodings_round_trip(dof, 0);
    lemma_read_one_segment(b, 20);
    assert(b.take(20) =~= tcp);
    assert(b.skip(20) =~= payload);
    assert(tcp.subrange(0, 2) =~= be16_bytes(src_port as int));
    assert(tcp.subrange(2, 4) =~= be16_bytes(dst_port as int));
    assert(tcp.subrange(4, 8) =~= be32_bytes(seq_num as int));
    assert(tcp.subrange(8, 12) =~= be32_bytes(ack_num as int));
    assert(tcp.subrange(12, 14) =~= be16_bytes(dof as int));
    assert(dof / 4096 == 5 && dof % 256 == flags) by (bit_vector)
        requires
            dof == 5 * 4096 + flags,
    ;
    let rest = if payload.len() == 0 { Seq::<Seq<Option<u8>>>::empty() } else { one_segment(payload) };
    if payload.len() > 0 {
        lemma_read_one_segment(payload, payload.len());
        assert(payload.take(payload.len() as int) =~= payload);
    } else {
        assert(payload =~= Seq::<u8>::empty());
    }
    assert(read_payload(rest, payload.len() as int) == Ok::<Seq<u8>, ParseError>(payload));
}

/// A TCP frame built for the guest parses back into what it was built
/// from: the MAC addresses, both IPv4 addresses, the ports, the sequence
/// and acknowledgement numbers, the flags and the payload.
#[verifier::rlimit(40)]
pub proof fn law_tcp_frame_parses_back(
    dst: Seq<u8>,
    src: Seq<u8>,
    src_ip: Seq<u8>,
    dst_ip: Seq<u8>,
    src_port: u16,
    dst_port: u16,
    seq_num: u32,
    ack_num: u32,
    flags: u8,
    window: u16,
    payload: Seq<u8>,
)
    requires
        dst.len() == 6,
        src.len() == 6,
        src_ip.len() == 4,
        dst_ip.len() == 4,
        40 + payload.len() <= u16::MAX,
    ensures
        spec_parse(
            one_segment(
                tcp_frame_bytes(dst, src, src_ip, dst_ip, src_port, dst_port, seq_num, ack_num, flags, window, payload),
            ),
        ) == Ok::<SpecRxEth, ParseError>(
            SpecRxEth {
                dst_mac: dst,
                src_mac: src,
                packet: SpecRx::Tcp { src_ip, dst_ip, src_port, dst_port, seq_num, ack_num, flags, payload },
            },
        ),
{
    let total = tcp_total_len(payload.len());
    let eth = eth_header_bytes(dst, src, ETHER_TYPE_IPV4);
    let ip = ipv4_header_bytes(6, total as u16, src_ip, dst_ip);
    let tcp = tcp_header_bytes(src_port, dst_port, seq_num, ack_num, flags, window);
    let b = tcp_frame_bytes(dst, src, src_ip, dst_ip, src_port, dst_port, seq_num, ack_num, flags, window, payload);
    assert(total == 40 + payload.len());
    assert(b =~= eth + (ip + (tcp + payload)));
    lemma_eth_layer(dst, src, ip + (tcp + payload));
    lemma_ip_layer(src_ip, dst_ip, total as u16, tcp + payload);
    lemma_tcp_layer(src_ip, dst_ip, src_port, dst_port, seq_num, ack_num, flags, window, payload);
    let remaining = wrapping_usize_sub(total as u16 as int, 20u8 as int);
    assert(remaining == 20 + payload.len());
    assert(one_segment(b) == one_segment(eth + (ip + (tcp + payload))));
}

/// Where `wr_bytes` stores `frame` into the one buffer `(a, l)`, the buffer
/// holds the whole frame, and reading the frame's length back at `a` gives
/// it as one segment.
proof fn lemma_written_one_buffer(m0: GuestMemory, m1: GuestMemory, a: int, l: int, frame: Seq<u8>)
    requires
        frame.len() > 0,
        m1.base == m0.base,
        wr_bytes(m0.base as int, m0.ram@, seq![(a, l)], frame) matches Some((ram, _)) && m1.ram@ == ram,
    ensures
        frame.len() <= l,
        seq![seg(&m1, a, frame.len() as int)] == one_segment(frame),
{
    let regs = seq![(a, l)];
    let base = m0.base as int;
    assert(regs.drop_first() =~= Seq::<(int, int)>::empty());
    if l <= 0 {
        assert(wr_bytes(base, m0.ram@, regs.drop_first(), frame) is None);
        assert(false);
    }
    let k = if frame.len() < l { frame.len() as int } else { l };
    assert(ram_range(base, m0.ram@, a, k));
    let ram1 = crate::guest_memory::overwrite(m0.ram@, a - base, frame.take(k));
    if frame.len() > l {
        assert(k == l);
        assert(wr_bytes(base, ram1, regs.drop_first(), frame.skip(k)) is None);
        assert(false);
    }
    assert(k == frame.len());
    assert(frame.skip(k).len() == 0);
    assert(wr_bytes(base, ram1, if k == l { regs.drop_first() } else { regs.update(0, (a + k, l - k)) }, frame.skip(k))
        == Some::<(Seq<u8>, Seq<(int, int)>)>((ram1, if k == l { regs.drop_first() } else { regs.update(0, (a + k, l - k)) })));
    assert(m1.ram@ == ram1);
    assert(frame.take(k) =~= frame);
    let sg = seg(&m1, a, frame.len() as int);
    assert(sg =~= frame.map_values(|x: u8| Some(x)));
}

/// A TCP frame the device wrote into a receive buffer of the guest, read
/// back from the guest's memory through that buffer, parses back into
/// what it was built from.
pub proof fn law_written_tcp_frame_parses_back(
    m0: GuestMemory,
    m1: GuestMemory,
    a: int,
    l: int,
    dst: Seq<u8>,
    src: Seq<u8>,
    src_ip: Seq<u8>,
    dst_ip: Seq<u8>,
    src_port: u16,
    dst_port: u16,
    seq_num: u32,
    ack_num: u32,
    flags: u8,
    window: u16,
    payload: Seq<u8>,
)
    requires
        dst.len() == 6,
        src.len() == 6,
        src_ip.len() == 4,
        dst_ip.len() == 4,
        40 + payload.len() <= u16::MAX,
        m1.base == m0.base,
        wr_bytes(
            m0.base as int,
            m0.ram@,
            seq![(a, l)],
            tcp_frame_bytes(dst, src, src_ip, dst_ip, src_port, dst_port, seq_num, ack_num, flags, window, payload),
        ) matches Some((ram, _)) && m1.ram@ == ram,
    ensures
        spec_parse(
            seq![
                seg(
                    &m1,
                    a,
                    tcp_frame_bytes(dst, src, src_ip, dst_ip, src_port, dst_port, seq_num, ack_num, flags, window, payload).len() as int,
                ),
            ],
        ) == Ok::<SpecRxEth, ParseError>(
            SpecRxEth {
                dst_mac: dst,
                src_mac: src,
                packet: SpecRx::Tcp { src_ip, dst_ip, src_port, dst_port, seq_num, ack_num, flags, payload },
            },
        ),
{
    let frame = tcp_frame_bytes(dst, src, src_ip, dst_ip, src_port, dst_port, seq_num, ack_num, flags, window, payload);
    assert(eth_header_bytes(dst, src, ETHER_TYPE_IPV4).len() == 14);
    assert(frame.len() > 0);
    lemma_written_one_buffer(m0, m1, a, l, frame);
    law_tcp_frame_parses_back(dst, src, src_ip, dst_ip, src_port, dst_port, seq_num, ack_num, flags, window, payload);
}

/// A TCP header with a data offset of `doff` 32-bit words: ports,
/// sequence and acknowledgement numbers, data offset and flags, window,
/// zero checksum and urgent pointer, then the option bytes `opts`.
pub open spec fn tcp_header_with_options(
    src_port: u16,
    dst_port: u16,
    seq_num: u32,
    ack_num: u32,
    doff: u8,
    flags: u8,
    window: u16,
    opts: Seq<u8>,
) -> Seq<u8> {
    be16_bytes(src_port as int) + be16_bytes(dst_port as int) + be32_bytes(seq_num as int) + be32_bytes(
        ack_num as int,
    ) + be16_bytes(doff * 4096 + flags) + be16_bytes(window as int) + be16_bytes(0) + be16_bytes(0) + opts
}

/// A TCP header with options and the payload after it parse back into the
/// header's fields and the payload: the options are skipped.
proof fn lemma_tcp_layer_with_options(
    src_ip: Seq<u8>,
    dst_ip: Seq<u8>,
    src_port: u16,
    dst_port: u16,
    seq_num: u32,
    ack_num: u32,
    doff: u8,
    flags: u8,
    window: u16,
    opts: Seq<u8>,
    payload: Seq<u8>,
)
    requires
        5 <= doff <= 15,
        opts.len() == 4 * doff - 20,
    ensures
        spec_tcp(
            one_segment(
                tcp_header_with_options(src_port, dst_port, seq_num, ack_num, doff, flags, window, opts) + payload,
            ),
            src_ip,
            dst_ip,
            4 * doff + payload.len() as int,
        ) == Ok::<SpecRx, ParseError>(SpecRx::Tcp { src_ip, dst_ip, src_port, dst_port, seq_num, ack_num, flags, payload }),
{
    let fixed = be16_bytes(src_port as int) + be16_bytes(dst_port as int) + be32_bytes(seq_num as int) + be32_bytes(
        ack_num as int,
    ) + be16_bytes(doff * 4096 + flags) + be16_bytes(window as int) + be16_bytes(0) + be16_bytes(0);
    let b = fixed + opts + payload;
    assert(tcp_header_with_options(src_port, dst_port, seq_num, ack_num, doff, flags, window, opts) + payload
        =~= b);
    let dof: u16 = (doff * 4096 + flags) as u16;
    assert(dof == doff * 4096 + flags);
    law_encodings_round_trip(src_port, seq_num);
    law_encodings_round_trip(dst_port, ack_num);
    law_encodings_round_trip(dof, 0);
    lemma_read_one_segment(b, 20);
    assert(b.take(20) =~= fixed);
    let rest = b.skip(20);
    assert(rest =~= opts + payload);
    assert(fixed.subrange(0, 2) =~= be16_bytes(src_port as int));
    assert(fixed.subrange(2, 4) =~= be16_bytes(dst_port as int));
    assert(fixed.subrange(4, 8) =~= be32_bytes(seq_num as int));
    assert(fixed.subrange(8, 12) =~= be32_bytes(ack_num as int));
    assert(fixed.subrange(12, 14) =~= be16_bytes(dof as int));
    assert(dof / 4096 == doff && dof % 256 == flags) by (bit_vector)
        requires
            dof == doff * 4096 + flags,
            5 <= doff <= 15,
    ;
    let header_len = 4 * doff as int;
    // The segments after the fixed header, and after the options.
    let s1 = if rest.len() == 0 { Seq::<Seq<Option<u8>>>::empty() } else { one_segment(rest) };
    let s2 = if payload.len() == 0 { Seq::<Seq<Option<u8>>>::empty() } else { one_segment(payload) };
    if opts.len() > 0 {
        lemma_read_one_segment(rest, opts.len());
        assert(rest.take(opts.len() as int) =~= opts);
        assert(rest.skip(opts.len() as int) =~= payload);
        assert(skip_options(s1, header_len - 20) == Ok::<Segs, ParseError>(s2));
    } else {
        assert(rest =~= payload);
        assert(skip_options(s1, header_len - 20) == Ok::<Segs, ParseError>(s2));
    }
    if payload.len() > 0 {
        lemma_read_one_segment(payload, payload.len());
        assert(payload.take(payload.len() as int) =~= payload);
    } else {
        assert(payload =~= Seq::<u8>::empty());
    }
    assert(wrapping_usize_sub(4 * doff + payload.len() as int, header_len) == payload.len());
    assert(read_payload(s2, payload.len() as int) == Ok::<Seq<u8>, ParseError>(payload));
}

/// A TCP segment from the guest whose header carries options (a data offset
/// of `doff` words, 5 to 15) parses into the header's fields and the
/// payload after the options: whatever the option bytes hold, the payload
/// is the bytes that start `4 * doff` bytes into the TCP header.
#[verifier::rlimit(40)]
pub proof fn law_tcp_options_are_skipped(
    dst: Seq<u8>,
    src: Seq<u8>,
    src_ip: Seq<u8>,
    dst_ip: Seq<u8>,
    src_port: u16,
    dst_port: u16,
    seq_num: u32,
    ack_num: u32,
    doff: u8,
    flags: u8,
    window: u16,
    opts: Seq<u8>,
    payload: Seq<u8>,
)
    requires
        dst.len() == 6,
        src.len() == 6,
        src_ip.len() == 4,
        dst_ip.len() == 4,
        5 <= doff <= 15,
        opts.len() == 4 * doff - 20,
        20 + 4 * doff + payload.len() <= u16::MAX,
    ensures
        ({
            let tcp = tcp_header_with_options(src_port, dst_port, seq_num, ack_num, doff, flags, window, opts);
            let total = (20 + 4 * doff + payload.len()) as u16;
            let frame = eth_header_bytes(dst, src, ETHER_TYPE_IPV4) + ipv4_header_bytes(6, total, src_ip, dst_ip)
                + tcp + payload;
            &&& tcp.len() == 4 * doff
            &&& spec_parse(one_segment(frame)) == Ok::<SpecRxEth, ParseError>(
                SpecRxEth {
                    dst_mac: dst,
                    src_mac: src,
                    packet: SpecRx::Tcp { src_ip, dst_ip, src_port, dst_port, seq_num, ack_num, flags, payload },
                },
            )
            &&& spec_parse(one_segment(frame)) matches Ok(p) && p.packet matches SpecRx::Tcp { payload: got, .. }
                && got == frame.subrange(14 + 20 + 4 * doff, frame.len() as int)
        }),
{
    let tcp = tcp_header_with_options(src_port, dst_port, seq_num, ack_num, doff, flags, window, opts);
    let total = (20 + 4 * doff + payload.len()) as u16;
    let eth = eth_header_bytes(dst, src, ETHER_TYPE_IPV4);
    let ip = ipv4_header_bytes(6, total, src_ip, dst_ip);
    let frame = eth + ip + tcp + payload;
    assert(frame =~= eth + (ip + (tcp + payload)));
    assert(tcp.len() == 4 * doff);
    lemma_eth_layer(dst, src, ip + (tcp + payload));
    lemma_ip_layer(src_ip, dst_ip, total, tcp + payload);
    lemma_tcp_layer_with_options(src_ip, dst_ip, src_port, dst_port, seq_num, ack_num, doff, flags, window, opts, payload);
    assert(wrapping_usize_sub(total as int, 20u8 as int) == 4 * doff + payload.len());
    assert(one_segment(frame) == one_segment(eth + (ip + (tcp + payload))));
    assert(frame.subrange(14 + 20 + 4 * doff, frame.len() as int) =~= payload);
}

} // verus!
