//! Link- and network-layer addresses and protocol numbers.

use vstd::prelude::*;
use crate::text::{decimal, hex_fixed, push_char, push_decimal, push_hex_fixed};

verus! {

/// A MAC address.
#[derive(Debug, Clone, Copy, PartialEq, Eq, Hash)]
pub struct MacAddr(pub [u8; 6]);

impl MacAddr {
    /// The broadcast address `ff:ff:ff:ff:ff:ff`.
    pub fn broadcast() -> (r: MacAddr)
        ensures
            r.0@ == seq![0xffu8, 0xff, 0xff, 0xff, 0xff, 0xff],
    {
        MacAddr([0xff, 0xff, 0xff, 0xff, 0xff, 0xff])
    }

    /// The zero address `00:00:00:00:00:00`.
    pub fn zero() -> (r: MacAddr)
        ensures
            r.0@ == seq![0u8, 0, 0, 0, 0, 0],
    {
        MacAddr([0, 0, 0, 0, 0, 0])
    }

    pub fn new(bytes: [u8; 6]) -> (r: MacAddr)
        ensures
            r.0 == bytes,
    {
        MacAddr(bytes)
    }

    pub fn octets(self) -> (r: [u8; 6])
        ensures
            r == self.0,
    {
        self.0
    }

    /// Whether two addresses are the same.
    pub fn equals(&self, other: &MacAddr) -> (r: bool)
        ensures
            r == (self.0@ == other.0@),
    {
        let r = self.0[0] == other.0[0] && self.0[1] == other.0[1] && self.0[2] == other.0[2]
            && self.0[3] == other.0[3] && self.0[4] == other.0[4] && self.0[5] == other.0[5];
        proof {
            if r {
                assert(self.0@ =~= other.0@);
            }
        }
        r
    }

    /// The address as six two-digit hexadecimal bytes joined by colons.
    pub fn to_string(&self) -> (s: String)
        ensures
            s@ == mac_text(self.0@),
    {
        let mut s = String::new();
        let mut i: usize = 0;
        while i < 6
            invariant
                0 <= i <= 6,
                s@ == mac_text_prefix(self.0@, i as int),
            decreases 6 - i,
        {
            if i > 0 {
                push_char(&mut s, ':');
            }
            push_hex_fixed(&mut s, self.0[i] as u64, 2);
            i += 1;
        }
        s
    }
}

/// The text of the first `n` bytes of a MAC address.
pub open spec fn mac_text_prefix(b: Seq<u8>, n: int) -> Seq<char>
    decreases n,
{
    if n <= 0 {
        Seq::empty()
    } else if n == 1 {
        hex_fixed(b[0] as nat, 2)
    } else {
        mac_text_prefix(b, n - 1).push(':') + hex_fixed(b[n - 1] as nat, 2)
    }
}

/// The text of a MAC address, e.g. `00:00:00:00:00:01`.
pub open spec fn mac_text(b: Seq<u8>) -> Seq<char> {
    mac_text_prefix(b, 6)
}

/// An IPv4 address.
#[derive(Debug, Clone, Copy, PartialEq, Eq, Hash)]
pub struct Ipv4Addr(pub [u8; 4]);

impl Ipv4Addr {
    /// `127.0.0.1`
    pub fn localhost() -> (r: Ipv4Addr)
        ensures
            r.0@ == seq![127u8, 0, 0, 1],
    {
        Ipv4Addr([127, 0, 0, 1])
    }

    /// `255.255.255.255`
    pub fn broadcast() -> (r: Ipv4Addr)
        ensures
            r.0@ == seq![255u8, 255, 255, 255],
    {
        Ipv4Addr([255, 255, 255, 255])
    }

    /// `0.0.0.0`
    pub fn unspecified() -> (r: Ipv4Addr)
        ensures
            r.0@ == seq![0u8, 0, 0, 0],
    {
        Ipv4Addr([0, 0, 0, 0])
    }

    pub fn new(a: u8, b: u8, c: u8, d: u8) -> (r: Ipv4Addr)
        ensures
            r.0@ == seq![a, b, c, d],
    {
        let r = Ipv4Addr([a, b, c, d]);
        assert(r.0@ =~= seq![a, b, c, d]);
        r
    }

    pub fn from_octets(bytes: [u8; 4]) -> (r: Ipv4Addr)
        ensures
            r.0 == bytes,
    {
        Ipv4Addr(bytes)
    }

    pub fn octets(self) -> (r: [u8; 4])
        ensures
            r == self.0,
    {
        self.0
    }

    /// Whether two addresses are the same.
    pub fn equals(&self, other: &Ipv4Addr) -> (r: bool)
        ensures
            r == (self.0@ == other.0@),
    {
        let r = self.0[0] == other.0[0] && self.0[1] == other.0[1] && self.0[2] == other.0[2]
            && self.0[3] == other.0[3];
        proof {
            if r {
                assert(self.0@ =~= other.0@);
            }
        }
        r
    }

    /// The address in dotted-decimal notation.
    pub fn to_string(&self) -> (s: String)
        ensures
            s@ == ipv4_text(self.0@),
    {
        let mut s = String::new();
        self.push_text(&mut s);
        s
    }

    /// Appends the dotted-decimal notation to `s`.
    pub fn push_text(&self, s: &mut String)
        ensures
            final(s)@ == old(s)@ + ipv4_text(self.0@),
    {
        let ghost start = s@;
        push_decimal(s, self.0[0] as u64);
        push_char(s, '.');
        push_decimal(s, self.0[1] as u64);
        push_char(s, '.');
        push_decimal(s, self.0[2] as u64);
        push_char(s, '.');
        push_decimal(s, self.0[3] as u64);
        proof {
            let b = self.0@;
            assert(s@ =~= start + ipv4_text(b));
        }
    }
}

/// The dotted-decimal text of an IPv4 address, e.g. `10.255.0.1`.
pub open spec fn ipv4_text(b: Seq<u8>) -> Seq<char> {
    decimal(b[0] as nat).push('.') + decimal(b[1] as nat).push('.') + decimal(b[2] as nat).push(
        '.',
    ) + decimal(b[3] as nat)
}

/// Ethernet frame types.
#[derive(Debug, Clone, Copy, PartialEq, Eq, Structural)]
pub enum EtherType {
    Ipv4,
    Arp,
}

pub const ETHER_TYPE_IPV4: u16 = 0x0800;
pub const ETHER_TYPE_ARP: u16 = 0x0806;

pub open spec fn ether_type_value(t: EtherType) -> u16 {
    match t {
        EtherType::Ipv4 => ETHER_TYPE_IPV4,
        EtherType::Arp => ETHER_TYPE_ARP,
    }
}

impl EtherType {
    pub fn as_u16(self) -> (r: u16)
        ensures
            r == ether_type_value(self),
    {
        match self {
            EtherType::Ipv4 => ETHER_TYPE_IPV4,
            EtherType::Arp => ETHER_TYPE_ARP,
        }
    }

    pub fn from_u16(value: u16) -> (r: Option<EtherType>)
        ensures
            value == ETHER_TYPE_IPV4 ==> r == Some(EtherType::Ipv4),
            value == ETHER_TYPE_ARP ==> r == Some(EtherType::Arp),
            value != ETHER_TYPE_IPV4 && value != ETHER_TYPE_ARP ==> r is None,
    {
        match value {
            0x0800 => Some(EtherType::Ipv4),
            0x0806 => Some(EtherType::Arp),
            _ => None,
        }
    }
}

/// ARP operations.
#[derive(Debug, Clone, Copy, PartialEq, Eq, Structural)]
pub enum ArpOp {
    Request,
    Reply,
}

pub open spec fn arp_op_value(op: ArpOp) -> u16 {
    match op {
        ArpOp::Request => 1,
        ArpOp::Reply => 2,
    }
}

impl ArpOp {
    pub fn as_u16(self) -> (r: u16)
        ensures
            r == arp_op_value(self),
    {
        match self {
            ArpOp::Request => 1,
            ArpOp::Reply => 2,
        }
    }

    pub fn from_u16(value: u16) -> (r: Option<ArpOp>)
        ensures
            value == 1 ==> r == Some(ArpOp::Request),
            value == 2 ==> r == Some(ArpOp::Reply),
            value != 1 && value != 2 ==> r is None,
    {
        match value {
            1 => Some(ArpOp::Request),
            2 => Some(ArpOp::Reply),
            _ => None,
        }
    }
}

/// IP protocol numbers.
#[derive(Debug, Clone, Copy, PartialEq, Eq, Structural, Hash)]
pub enum IpProto {
    Tcp,
    Udp,
}

pub open spec fn ip_proto_value(p: IpProto) -> u8 {
    match p {
        IpProto::Tcp => 6,
        IpProto::Udp => 17,
    }
}

impl IpProto {
    pub fn as_u8(self) -> (r: u8)
        ensures
            r == ip_proto_value(self),
    {
        match self {
            IpProto::Tcp => 6,
            IpProto::Udp => 17,
        }
    }

    pub fn from_u8(value: u8) -> (r: Option<IpProto>)
        ensures
            value == 6 ==> r == Some(IpProto::Tcp),
            value == 17 ==> r == Some(IpProto::Udp),
            value != 6 && value != 17 ==> r is None,
    {
        match value {
            6 => Some(IpProto::Tcp),
            17 => Some(IpProto::Udp),
            _ => None,
        }
    }
}

/// Each protocol number decodes back to the value it came from.
pub proof fn law_protocol_numbers_round_trip(t: EtherType, op: ArpOp, p: IpProto)
    ensures
        ether_type_value(t) == ETHER_TYPE_IPV4 ==> t == EtherType::Ipv4,
        ether_type_value(t) == ETHER_TYPE_ARP ==> t == EtherType::Arp,
        arp_op_value(op) == 1 ==> op == ArpOp::Request,
        arp_op_value(op) == 2 ==> op == ArpOp::Reply,
        ip_proto_value(p) == 6 ==> p == IpProto::Tcp,
        ip_proto_value(p) == 17 ==> p == IpProto::Udp,
{
}

} // verus!
