use starina::address::GPAddr;
use starina::boot::guest_network;
use starina::guest_memory::GuestMemory;
use starina::net::RecvError;
use starina::virtio::desc_chain::{DescChainReader, VirtqDesc};

const BASE: usize = 0x8000_0000;

fn arp_request(dst_mac: [u8; 6], src_mac: [u8; 6], sender_ip: [u8; 4], target_ip: [u8; 4]) -> Vec<u8> {
    let mut f = Vec::new();
    f.extend_from_slice(&dst_mac);
    f.extend_from_slice(&src_mac);
    f.extend_from_slice(&[0x08, 0x06]);
    f.extend_from_slice(&[0, 1, 0x08, 0x00, 6, 4, 0, 1]);
    f.extend_from_slice(&src_mac);
    f.extend_from_slice(&sender_ip);
    f.extend_from_slice(&[0; 6]);
    f.extend_from_slice(&target_ip);
    f
}

fn receive(frame: &[u8]) -> (Result<bool, RecvError>, bool) {
    let mut net = guest_network();
    let mut mem = GuestMemory::new(GPAddr::new(BASE), 0x1000).unwrap();
    mem.write_bytes(GPAddr::new(BASE + 0x100), frame).unwrap();
    let desc = VirtqDesc { addr: (BASE + 0x100) as u64, len: frame.len() as u32, flags: 0, next: 0 };
    let mut reader = DescChainReader::new(vec![desc]);
    let r = net.recv_from_guest(&mut reader, &mem).map(|f| f.is_some());
    (r, net.has_pending_packets())
}

const GUEST_MAC: [u8; 6] = [0, 0, 0, 0, 0, 1];
const HOST_MAC: [u8; 6] = [0, 0, 0, 0, 0, 2];
const GUEST_IP: [u8; 4] = [10, 255, 0, 100];
const HOST_IP: [u8; 4] = [10, 255, 0, 1];

#[test]
fn arp_request_for_the_host_gets_a_reply() {
    let (r, pending) = receive(&arp_request([0xff; 6], GUEST_MAC, GUEST_IP, HOST_IP));
    assert_eq!(r, Ok(false));
    assert!(pending);
}

#[test]
fn arp_request_for_another_address_is_refused() {
    let (r, pending) = receive(&arp_request([0xff; 6], GUEST_MAC, GUEST_IP, [10, 255, 0, 7]));
    assert_eq!(r, Err(RecvError::InvalidArpTarget));
    assert!(!pending);
}

#[test]
fn frame_from_another_mac_is_dropped() {
    let (r, pending) = receive(&arp_request([0xff; 6], [0, 0, 0, 0, 0, 9], GUEST_IP, HOST_IP));
    assert_eq!(r, Ok(false));
    assert!(!pending);
    let (r, pending) = receive(&arp_request(HOST_MAC, GUEST_MAC, GUEST_IP, HOST_IP));
    assert_eq!(r, Ok(false));
    assert!(pending);
}

#[test]
fn truncated_frame_is_dropped() {
    let (r, pending) = receive(&[0xff; 10]);
    assert_eq!(r, Ok(false));
    assert!(!pending);
}
