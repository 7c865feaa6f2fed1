use starina::address::GPAddr;
use starina::guest_memory::GuestMemory;
use starina::net::builder::{PacketBuilder, TxPacket};
use starina::net::packet::{Ipv4Addr, MacAddr};
use starina::net::parser::{PacketParser, RxPacket};
use starina::virtio::desc_chain::{DescChainReader, DescChainWriter, VirtqDesc};
use starina::virtio::net::VirtioPacketWriter;

const BASE: usize = 0x8000_0000;

#[test]
fn built_tcp_frame_parses_back() {
    let mut mem = GuestMemory::new(GPAddr::new(BASE), 0x1000).unwrap();
    let buf = VirtqDesc { addr: (BASE + 0x200) as u64, len: 0x400, flags: 2, next: 0 };
    let pw = VirtioPacketWriter::new(DescChainWriter::new(vec![buf]), &mut mem).unwrap();
    let dst = MacAddr::new([0, 0, 0, 0, 0, 1]);
    let src = MacAddr::new([0, 0, 0, 0, 0, 2]);
    let packet = TxPacket::Tcp {
        src_ip: Ipv4Addr::new(10, 123, 123, 123),
        dst_ip: Ipv4Addr::new(10, 255, 0, 100),
        src_port: 40000,
        dst_port: 80,
        seq_num: 0x0102_0304,
        ack_num: 0xa0b0_c0d0,
        flags: 0x18,
        window: 0xffff,
        payload: b"hello",
    };
    let written = PacketBuilder::new(pw, dst, src).send(&mut mem, &packet).unwrap();
    // The frame follows the 12-byte virtio-net header.
    assert_eq!(written, 12 + 14 + 20 + 20 + 5);
    let frame = VirtqDesc { addr: (BASE + 0x200 + 12) as u64, len: (written - 12) as u32, flags: 0, next: 0 };
    let mut reader = DescChainReader::new(vec![frame]);
    let parsed = PacketParser::parse(&mut reader, &mem).unwrap();
    assert_eq!(parsed.dst_mac.0, [0, 0, 0, 0, 0, 1]);
    assert_eq!(parsed.src_mac.0, [0, 0, 0, 0, 0, 2]);
    match parsed.packet {
        RxPacket::Tcp(t) => {
            assert_eq!(t.src_ip.0, [10, 123, 123, 123]);
            assert_eq!(t.dst_ip.0, [10, 255, 0, 100]);
            assert_eq!(t.src_port, 40000);
            assert_eq!(t.dst_port, 80);
            assert_eq!(t.seq_num, 0x0102_0304);
            assert_eq!(t.ack_num, 0xa0b0_c0d0);
            assert_eq!(t.flags, 0x18);
            assert_eq!(t.payload, b"hello".to_vec());
        },
        _ => panic!("not a TCP segment"),
    }
}
