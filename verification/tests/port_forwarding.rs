use starina::address::GPAddr;
use starina::boot::guest_network;
use starina::guest_memory::GuestMemory;
use starina::handle::HandleId;
use starina::net::packet::MacAddr;
use starina::poll::Readiness;
use starina::port_forward::{
    BuildError, Builder, ChannelRole, Flushed, ForwardError, Incoming, Port, PortForwarder, Processed,
};
use starina::virtio::desc_chain::{DescChainReader, VirtqDesc};
use starina::virtio::device::VirtioMmio;
use starina::virtio::net::VirtioNet;

fn forwarder() -> PortForwarder {
    let mut b = Builder::new(&[Port::Tcp { host: 8080, guest: 80 }, Port::Tcp { host: 2222, guest: 22 }]);
    b.on_open_reply(1, HandleId::from_raw(11)).unwrap();
    b.on_open_reply(0, HandleId::from_raw(10)).unwrap();
    assert!(b.is_done());
    b.build(HandleId::from_raw(1))
}

fn device() -> VirtioMmio<VirtioNet> {
    VirtioMmio::new(2, VirtioNet::new(MacAddr::new([0, 0, 0, 0, 0, 1]), guest_network()))
}

fn memory() -> GuestMemory {
    GuestMemory::new(GPAddr::new(0x8000_0000), 0x1000).unwrap()
}

#[test]
fn listen_requests_name_the_host_ports() {
    let b = Builder::new(&[Port::Tcp { host: 8080, guest: 80 }, Port::Tcp { host: 2222, guest: 22 }]);
    let reqs = b.open_requests();
    assert_eq!(reqs, vec![(0, "tcp-listen:0.0.0.0:8080".to_string()), (1, "tcp-listen:0.0.0.0:2222".to_string())]);
}

#[test]
fn unknown_reply_is_refused() {
    let mut b = Builder::new(&[Port::Tcp { host: 8080, guest: 80 }]);
    assert_eq!(b.on_open_reply(5, HandleId::from_raw(3)), Err(BuildError::UnknownCallId));
    assert!(!b.is_done());
    assert_eq!(b.on_open_reply(0, HandleId::from_raw(3)), Ok(()));
    assert_eq!(b.on_open_reply(0, HandleId::from_raw(3)), Err(BuildError::UnknownCallId));
}

#[test]
fn forwarder_knows_its_channels() {
    let f = forwarder();
    assert!(matches!(f.role_of(HandleId::from_raw(1)), Some(ChannelRole::Tcpip)));
    assert!(matches!(f.role_of(HandleId::from_raw(11)), Some(ChannelRole::Listen { guest_port: 22 })));
    assert!(matches!(f.role_of(HandleId::from_raw(10)), Some(ChannelRole::Listen { guest_port: 80 })));
    assert!(f.role_of(HandleId::from_raw(99)).is_none());
    assert!(f.wants_message(HandleId::from_raw(10), Readiness::from_raw(1)));
    assert!(!f.wants_message(HandleId::from_raw(10), Readiness::from_raw(4)));
    assert!(!f.wants_message(HandleId::from_raw(1), Readiness::from_raw(1)));
}

#[test]
fn handed_over_connection_is_opened_and_routes_back() {
    let mut f = forwarder();
    let mut net = device();
    let mut mem = memory();
    let r = f.process_event(
        &mut net,
        &mut mem,
        HandleId::from_raw(10),
        Readiness::from_raw(1),
        Incoming::Connect { ch: HandleId::from_raw(20) },
    );
    let key = match r {
        Ok(Processed::Connected { ch, conn_key }) => {
            assert_eq!(ch, HandleId::from_raw(20));
            conn_key
        },
        other => panic!("unexpected {:?}", other),
    };
    assert_eq!(key.guest_port, 80);
    assert_eq!(key.remote_port, 40000);
    assert_eq!(key.remote_ip.0, [10, 123, 123, 123]);
    assert_eq!(f.channel_for(&key), Some(HandleId::from_raw(20)));
    assert!(net.has_pending_packets());
}

#[test]
fn events_that_ask_nothing_are_ignored() {
    let mut f = forwarder();
    let mut net = device();
    let mut mem = memory();
    let r = f.process_event(&mut net, &mut mem, HandleId::from_raw(99), Readiness::from_raw(1), Incoming::Empty);
    assert!(matches!(r, Ok(Processed::Ignored)));
    let r = f.process_event(&mut net, &mut mem, HandleId::from_raw(10), Readiness::from_raw(1), Incoming::Other);
    assert!(matches!(r, Ok(Processed::Ignored)));
    let r = f.process_event(
        &mut net,
        &mut mem,
        HandleId::from_raw(10),
        Readiness::from_raw(4),
        Incoming::Connect { ch: HandleId::from_raw(20) },
    );
    assert!(matches!(r, Ok(Processed::Ignored)));
    assert_eq!(f.channels.len(), 3);
}

#[test]
fn tcpip_readiness_is_unexpected() {
    let mut f = forwarder();
    let mut net = device();
    let mut mem = memory();
    let r = f.process_event(&mut net, &mut mem, HandleId::from_raw(1), Readiness::from_raw(1), Incoming::Empty);
    assert!(matches!(r, Err(ForwardError::UnexpectedTcpipReadiness)));
}

#[test]
fn data_needs_a_receive_buffer_and_must_fit() {
    let mut f = forwarder();
    let mut net = device();
    let mut mem = memory();
    f.process_event(
        &mut net,
        &mut mem,
        HandleId::from_raw(10),
        Readiness::from_raw(1),
        Incoming::Connect { ch: HandleId::from_raw(20) },
    )
    .unwrap();
    let r = f.process_event(
        &mut net,
        &mut mem,
        HandleId::from_raw(20),
        Readiness::from_raw(1),
        Incoming::Data { data: vec![0; 70000] },
    );
    assert!(matches!(r, Err(ForwardError::DataTooLong)));
    let r = f.process_event(
        &mut net,
        &mut mem,
        HandleId::from_raw(20),
        Readiness::from_raw(1),
        Incoming::Data { data: b"hello".to_vec() },
    );
    assert!(matches!(r, Err(ForwardError::Deliver(_))));
    assert!(f.flush_pending_packets(&mut net, &mut mem).is_err());
}

#[test]
fn flush_puts_the_arp_reply_into_the_receive_buffer_and_raises_the_irq() {
    let f = forwarder();
    let mut net = device();
    let mut mem = memory();
    let base: usize = 0x8000_0000;
    // Queue 0: one descriptor at `base`, the avail ring at +0x100 and the
    // used ring at +0x200; the buffer is 0x200 bytes at +0x400.
    for (offset, value) in [
        (0x30u64, 0u32),
        (0x38, 1),
        (0x80, base as u32),
        (0x84, 0),
        (0x90, (base + 0x100) as u32),
        (0x94, 0),
        (0xa0, (base + 0x200) as u32),
        (0xa4, 0),
    ] {
        net.mmio_write(&mut mem, offset, &value.to_le_bytes()).unwrap();
    }
    let mut desc = Vec::new();
    desc.extend_from_slice(&((base + 0x400) as u64).to_le_bytes());
    desc.extend_from_slice(&0x200u32.to_le_bytes());
    desc.extend_from_slice(&2u16.to_le_bytes());
    desc.extend_from_slice(&0u16.to_le_bytes());
    mem.write_bytes(GPAddr::new(base), &desc).unwrap();
    mem.write_bytes(GPAddr::new(base + 0x100), &[0, 0, 1, 0, 0, 0]).unwrap();
    // An ARP request from the guest for the host's address.
    let mut req = Vec::new();
    req.extend_from_slice(&[0xff; 6]);
    req.extend_from_slice(&[0, 0, 0, 0, 0, 1]);
    req.extend_from_slice(&[0x08, 0x06, 0, 1, 0x08, 0x00, 6, 4, 0, 1]);
    req.extend_from_slice(&[0, 0, 0, 0, 0, 1]);
    req.extend_from_slice(&[10, 255, 0, 100]);
    req.extend_from_slice(&[0; 6]);
    req.extend_from_slice(&[10, 255, 0, 1]);
    mem.write_bytes(GPAddr::new(base + 0x800), &req).unwrap();
    let frame = VirtqDesc { addr: (base + 0x800) as u64, len: req.len() as u32, flags: 0, next: 0 };
    let mut reader = DescChainReader::new(vec![frame]);
    net.device.guest_net.recv_from_guest(&mut reader, &mem).unwrap();
    assert!(net.has_pending_packets());
    assert_eq!(f.flush_pending_packets(&mut net, &mut mem), Ok(Flushed { done: true, irq: true }));
    // The used ring holds the chain with the header and the 42-byte reply.
    assert_eq!(mem.read_bytes(GPAddr::new(base + 0x202), 2).unwrap(), vec![1, 0]);
    assert_eq!(mem.read_bytes(GPAddr::new(base + 0x208), 4).unwrap(), vec![54, 0, 0, 0]);
}
