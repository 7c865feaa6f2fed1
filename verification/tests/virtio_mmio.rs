use starina::address::GPAddr;
use starina::boot::guest_network;
use starina::guest_memory::{GuestMemory, GuestMemoryError};
use starina::net::packet::MacAddr;
use starina::virtio::desc_chain::{DescChainWriter, VirtqDesc};
use starina::virtio::device::{DeviceError, VirtioMmio};
use starina::virtio::net::VirtioNet;

fn device() -> VirtioMmio<VirtioNet> {
    VirtioMmio::new(2, VirtioNet::new(MacAddr::new([0, 0, 0, 0, 0, 1]), guest_network()))
}

fn memory() -> GuestMemory {
    GuestMemory::new(GPAddr::new(0x8000_0000), 0x1000).unwrap()
}

#[test]
fn notify_serves_the_queue_it_names() {
    let mut d = device();
    let mut m = memory();
    // The queue selector stays at 0: the value written names the queue.
    let r = d.mmio_write(&mut m, 0x50, &7u32.to_le_bytes());
    assert_eq!(r.err(), Some(DeviceError::QueueIndexOutOfRange(7)));
    // A selector naming no queue does not matter to a notification.
    d.mmio_write(&mut m, 0x30, &9u32.to_le_bytes()).unwrap();
    let (raise, events) = d.mmio_write(&mut m, 0x50, &1u32.to_le_bytes()).unwrap();
    assert!(!raise);
    assert!(events.is_empty());
}

#[test]
fn queue_size_zero_is_taken_and_offers_nothing() {
    let mut d = device();
    let mut m = memory();
    d.mmio_write(&mut m, 0x30, &1u32.to_le_bytes()).unwrap();
    d.mmio_write(&mut m, 0x38, &0u32.to_le_bytes()).unwrap();
    assert_eq!(d.queues[1].num_descs, 0);
    let (_, events) = d.mmio_write(&mut m, 0x50, &1u32.to_le_bytes()).unwrap();
    assert!(events.is_empty());
    let r = d.mmio_write(&mut m, 0x38, &33u32.to_le_bytes());
    assert_eq!(r.err(), Some(DeviceError::InvalidQueueSize(33)));
}

#[test]
fn write_past_the_buffers_stores_what_fits() {
    let mut m = memory();
    let descs = vec![
        VirtqDesc { addr: 0x8000_0010, len: 3, flags: 2, next: 0 },
        VirtqDesc { addr: 0x8000_0020, len: 2, flags: 2, next: 0 },
    ];
    let mut w = DescChainWriter::new(descs);
    assert_eq!(w.write_bytes(&mut m, &[1, 2, 3, 4, 5, 6, 7]), Err(GuestMemoryError::OutOfRange));
    assert_eq!(w.written_len(), 5);
    assert_eq!(m.read_bytes(GPAddr::new(0x8000_0010), 3).unwrap(), vec![1, 2, 3]);
    assert_eq!(m.read_bytes(GPAddr::new(0x8000_0020), 2).unwrap(), vec![4, 5]);
}
