//! Building the Ethernet frames sent to the guest.

use vstd::prelude::*;
use crate::bytes::{be16_bytes, be32_bytes, push_all, push_be16, push_be32};
use crate::guest_memory::{GuestMemory, GuestMemoryError};
use crate::net::packet::{arp_op_value, ArpOp, Ipv4Addr, MacAddr, ETHER_TYPE_ARP, ETHER_TYPE_IPV4};
use crate::virtio::desc_chain::wr_bytes;
use crate::virtio::net::VirtioPacketWriter;

verus! {

/// A packet to send to the guest.
#[derive(Debug)]
pub enum TxPacket<'a> {
    Arp {
        operation: ArpOp,
        sender_hw_addr: MacAddr,
        sender_ip: Ipv4Addr,
        target_hw_addr: MacAddr,
        target_ip: Ipv4Addr,
    },
    Tcp {
        src_ip: Ipv4Addr,
        dst_ip: Ipv4Addr,
        src_port: u16,
        dst_port: u16,
        seq_num: u32,
        ack_num: u32,
        flags: u8,
        window: u16,
        payload: &'a [u8],
    },
    Udp { src_ip: Ipv4Addr, dst_ip: Ipv4Addr, src_port: u16, dst_port: u16, payload: &'a [u8] },
}

/// Why a frame could not be sent.
#[derive(Debug, Clone, Copy, PartialEq, Eq)]
pub enum BuildError {
    GuestMemory(GuestMemoryError),
    InvalidPacket,
    InvalidHeader(&'static str),
}

/// The Ethernet header.
pub open spec fn eth_header_bytes(dst: Seq<u8>, src: Seq<u8>, ether_type: u16) -> Seq<u8> {
    dst + src + be16_bytes(ether_type as int)
}

/// An Ethernet/IPv4 ARP packet.
pub open spec fn arp_bytes(
    op: ArpOp,
    sender_hw: Seq<u8>,
    sender_ip: Seq<u8>,
    target_hw: Seq<u8>,
    target_ip: Seq<u8>,
) -> Seq<u8> {
    be16_bytes(1) + be16_bytes(0x0800) + seq![6u8, 4u8] + be16_bytes(arp_op_value(op) as int)
        + sender_hw + sender_ip + target_hw + target_ip
}

/// An IPv4 header without options: version 4, header length 20, TTL 64,
/// no fragmentation, zero identification and checksum.
pub open spec fn ipv4_header_bytes(protocol: u8, total_len: u16, src: Seq<u8>, dst: Seq<u8>) -> Seq<
    u8,
> {
    seq![0x45u8, 0u8] + be16_bytes(total_len as int) + be16_bytes(0) + be16_bytes(0) + seq![
        64u8,
        protocol,
    ] + be16_bytes(0) + src + dst
}

/// A UDP header with a zero checksum.
pub open spec fn udp_header_bytes(src_port: u16, dst_port: u16, length: u16) -> Seq<u8> {
    be16_bytes(src_port as int) + be16_bytes(dst_port as int) + be16_bytes(length as int)
        + be16_bytes(0)
}

/// A TCP header without options (data offset 5), with zero checksum and
/// urgent pointer.
pub open spec fn tcp_header_bytes(
    src_port: u16,
    dst_port: u16,
    seq_num: u32,
    ack_num: u32,
    flags: u8,
    window: u16,
) -> Seq<u8> {
    be16_bytes(src_port as int) + be16_bytes(dst_port as int) + be32_bytes(seq_num as int)
        + be32_bytes(ack_num as int) + be16_bytes(5 * 4096 + flags) + be16_bytes(window as int)
        + be16_bytes(0) + be16_bytes(0)
}

/// The IPv4 total length of a TCP segment: both headers and the payload,
/// whose length is taken modulo 2^16.
pub open spec fn tcp_total_len(payload_len: nat) -> int {
    40 + (payload_len as int) % 0x1_0000
}

/// The UDP length: header and payload, the payload length modulo 2^16.
pub open spec fn udp_len(payload_len: nat) -> int {
    8 + (payload_len as int) % 0x1_0000
}

/// The longest frame this stack writes: a 14-byte Ethernet header and an
/// IPv4 packet of at most 65535 bytes.
pub const FRAME_LEN_MAX: usize = 65549;

/// The lengths of the packet fit in their 16-bit fields.
pub open spec fn lengths_fit(packet: TxPacket) -> bool {
    match packet {
        TxPacket::Arp { .. } => true,
        TxPacket::Tcp { payload, .. } => tcp_total_len(payload@.len()) <= u16::MAX,
        TxPacket::Udp { payload, .. } => 20 + udp_len(payload@.len()) <= u16::MAX,
    }
}

/// The frame of a TCP segment.
pub open spec fn tcp_frame_bytes(
    dst: Seq<u8>,
    src: Seq<u8>,
    src_ip: Seq<u8>,
    dst_ip: Seq<u8>,
    src_port: u16,
    dst_port: u16,
    seq_num: u32,
    ack_num: u32,
    flags: u8,
    window: u16,
    payload: Seq<u8>,
) -> Seq<u8> {
    eth_header_bytes(dst, src, ETHER_TYPE_IPV4) + ipv4_header_bytes(
        6,
        tcp_total_len(payload.len()) as u16,
        src_ip,
        dst_ip,
    ) + tcp_header_bytes(src_port, dst_port, seq_num, ack_num, flags, window) + payload
}

/// The frame of an ARP packet.
pub open spec fn arp_frame_bytes(
    dst: Seq<u8>,
    src: Seq<u8>,
    op: ArpOp,
    sender_hw: Seq<u8>,
    sender_ip: Seq<u8>,
    target_hw: Seq<u8>,
    target_ip: Seq<u8>,
) -> Seq<u8> {
    eth_header_bytes(dst, src, ETHER_TYPE_ARP) + arp_bytes(op, sender_hw, sender_ip, target_hw, target_ip)
}

/// The frame that carries `packet` from `src` to `dst`.
pub open spec fn frame_bytes(dst: Seq<u8>, src: Seq<u8>, packet: TxPacket) -> Seq<u8> {
    match packet {
        TxPacket::Arp { operation, sender_hw_addr, sender_ip, target_hw_addr, target_ip } => arp_frame_bytes(
            dst,
            src,
            operation,
            sender_hw_addr.0@,
            sender_ip.0@,
            target_hw_addr.0@,
            target_ip.0@,
        ),
        TxPacket::Tcp {
            src_ip,
            dst_ip,
            src_port,
            dst_port,
            seq_num,
            ack_num,
            flags,
            window,
            payload,
        } => tcp_frame_bytes(
            dst,
            src,
            src_ip.0@,
            dst_ip.0@,
            src_port,
            dst_port,
            seq_num,
            ack_num,
            flags,
            window,
            payload@,
        ),
        TxPacket::Udp { src_ip, dst_ip, src_port, dst_port, payload } => eth_header_bytes(
            dst,
            src,
            ETHER_TYPE_IPV4,
        ) + ipv4_header_bytes(17, (20 + udp_len(payload@.len())) as u16, src_ip.0@, dst_ip.0@)
            + udp_header_bytes(src_port, dst_port, udp_len(payload@.len()) as u16) + payload@,
    }
}

/// Builds frames addressed from one MAC address to another and writes
/// them to a virtio-net receive buffer.
pub struct PacketBuilder {
    pub writer: VirtioPacketWriter,
    pub dst_mac: MacAddr,
    pub src_mac: MacAddr,
}

fn push_mac(out: &mut Vec<u8>, mac: &MacAddr)
    ensures
        final(out)@ == old(out)@ + mac.0@,
{
    push_all(out, &mac.0);
}

fn push_ip(out: &mut Vec<u8>, ip: &Ipv4Addr)
    ensures
        final(out)@ == old(out)@ + ip.0@,
{
    push_all(out, &ip.0);
}

/// Appends an IPv4 header.
fn push_ipv4_header(out: &mut Vec<u8>, protocol: u8, total_len: u16, src: &Ipv4Addr, dst: &Ipv4Addr)
    ensures
        final(out)@ == old(out)@ + ipv4_header_bytes(protocol, total_len, src.0@, dst.0@),
{
    let ghost start = out@;
    out.push(0x45);
    out.push(0);
    push_be16(out, total_len);
    push_be16(out, 0);
    push_be16(out, 0);
    out.push(64);
    out.push(protocol);
    push_be16(out, 0);
    push_ip(out, src);
    push_ip(out, dst);
    assert(out@ =~= start + ipv4_header_bytes(protocol, total_len, src.0@, dst.0@));
}

/// The frame that carries `packet` from `src_mac` to `dst_mac`.
pub fn build_frame(dst_mac: &MacAddr, src_mac: &MacAddr, packet: &TxPacket) -> (r: Vec<u8>)
    requires
        lengths_fit(*packet),
    ensures
        r@ == frame_bytes(dst_mac.0@, src_mac.0@, *packet),
{
    let mut out: Vec<u8> = Vec::new();
    match packet {
        TxPacket::Arp { operation, sender_hw_addr, sender_ip, target_hw_addr, target_ip } => {
            push_mac(&mut out, dst_mac);
            push_mac(&mut out, src_mac);
            push_be16(&mut out, ETHER_TYPE_ARP);
            let ghost eth = out@;
            push_be16(&mut out, 1);
            push_be16(&mut out, 0x0800);
            out.push(6);
            out.push(4);
            push_be16(&mut out, operation.as_u16());
            push_mac(&mut out, sender_hw_addr);
            push_ip(&mut out, sender_ip);
            push_mac(&mut out, target_hw_addr);
            push_ip(&mut out, target_ip);
            assert(out@ =~= frame_bytes(dst_mac.0@, src_mac.0@, *packet));
        },
        TxPacket::Tcp {
            src_ip,
            dst_ip,
            src_port,
            dst_port,
            seq_num,
            ack_num,
            flags,
            window,
            payload,
        } => {
            let len = payload.len();
            #[verifier::truncate]
            let plen = len as u16;
            assert(plen == len % 0x1_0000) by (bit_vector)
                requires
                    plen == len as u16,
            ;
            let total_len: u16 = 20 + 20 + plen;
            push_mac(&mut out, dst_mac);
            push_mac(&mut out, src_mac);
            push_be16(&mut out, ETHER_TYPE_IPV4);
            push_ipv4_header(&mut out, 6, total_len, src_ip, dst_ip);
            push_be16(&mut out, *src_port);
            push_be16(&mut out, *dst_port);
            push_be32(&mut out, *seq_num);
            push_be32(&mut out, *ack_num);
            push_be16(&mut out, 5 * 4096 + *flags as u16);
            push_be16(&mut out, *window);
            push_be16(&mut out, 0);
            push_be16(&mut out, 0);
            push_all(&mut out, payload);
            assert(out@ =~= frame_bytes(dst_mac.0@, src_mac.0@, *packet));
        },
        TxPacket::Udp { src_ip, dst_ip, src_port, dst_port, payload } => {
            let len = payload.len();
            #[verifier::truncate]
            let plen = len as u16;
            assert(plen == len % 0x1_0000) by (bit_vector)
                requires
                    plen == len as u16,
            ;
            let udp_len: u16 = 8 + plen;
            let total_len: u16 = 20 + udp_len;
            push_mac(&mut out, dst_mac);
            push_mac(&mut out, src_mac);
            push_be16(&mut out, ETHER_TYPE_IPV4);
            push_ipv4_header(&mut out, 17, total_len, src_ip, dst_ip);
            push_be16(&mut out, *src_port);
            push_be16(&mut out, *dst_port);
            push_be16(&mut out, udp_len);
            push_be16(&mut out, 0);
            push_all(&mut out, payload);
            assert(out@ =~= frame_bytes(dst_mac.0@, src_mac.0@, *packet));
        },
    }
    out
}

impl PacketBuilder {
    pub fn new(writer: VirtioPacketWriter, dst_mac: MacAddr, src_mac: MacAddr) -> (r: PacketBuilder)
        ensures
            r.writer == writer,
            r.dst_mac == dst_mac,
            r.src_mac == src_mac,
    {
        PacketBuilder { writer, dst_mac, src_mac }
    }

    /// Writes the frame for `packet` after what the writer holds and
    /// returns the number of bytes written in all.
    pub fn send(self, mem: &mut GuestMemory, packet: &TxPacket) -> (r: Result<usize, BuildError>)
        requires
            self.writer.inner.wf(),
            old(mem).wf(),
            lengths_fit(*packet),
            self.writer.inner.written_len + frame_bytes(self.dst_mac.0@, self.src_mac.0@, *packet).len()
                <= usize::MAX,
        ensures
            final(mem).base == old(mem).base,
            final(mem).wf(),
            match wr_bytes(
                old(mem).base as int,
                old(mem).ram@,
                self.writer.inner.regions(),
                frame_bytes(self.dst_mac.0@, self.src_mac.0@, *packet),
            ) {
                Some((ram, _)) => r == Ok::<usize, BuildError>(
                    (self.writer.inner.written_len + frame_bytes(
                        self.dst_mac.0@,
                        self.src_mac.0@,
                        *packet,
                    ).len()) as usize,
                ) && final(mem).ram@ == ram,
                None => r is Err,
            },
    {
        let frame = build_frame(&self.dst_mac, &self.src_mac, packet);
        let mut writer = self.writer;
        match writer.write_bytes(mem, frame.as_slice()) {
            Ok(()) => Ok(writer.written_len()),
            Err(e) => Err(BuildError::GuestMemory(e)),
        }
    }
}

} // verus!
