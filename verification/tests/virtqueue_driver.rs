use starina::address::PAddr;
use starina::virtio::driver::{align_up, queue_layout, QueueError, VirtQueue, VirtqDescBuffer, VirtqUsedElem};
use starina::virtio::transport::{
    device_type, driver_features_writes, features_from_words, paddr_writes, probe, queue_setup_writes, split_words,
    DeviceType, MmioWrite,
};

fn ro(addr: usize, len: usize) -> VirtqDescBuffer {
    VirtqDescBuffer::ReadOnlyFromDevice { paddr: PAddr::new(addr), len }
}

fn wr(addr: usize, len: usize) -> VirtqDescBuffer {
    VirtqDescBuffer::WritableFromDevice { paddr: PAddr::new(addr), len }
}

/// The device hands the chain with head `id` back, having written `len`
/// bytes.
fn device_uses(q: &mut VirtQueue, id: u32, len: u32) {
    let slot = (q.used_index % q.num_descs) as usize;
    q.used_ring[slot] = VirtqUsedElem { id, len };
    q.used_index = q.used_index.wrapping_add(1);
}

#[test]
fn align_up_rounds_to_multiples() {
    assert_eq!(align_up(0, 4096), 0);
    assert_eq!(align_up(1, 4096), 4096);
    assert_eq!(align_up(4096, 4096), 4096);
    assert_eq!(align_up(4097, 4096), 8192);
}

#[test]
fn layout_of_a_queue_of_eight() {
    let l = queue_layout(8, 4096);
    assert_eq!(l.avail_ring_off, 128);
    // 128 + 2 * (3 + 8) = 150, rounded up to a page.
    assert_eq!(l.used_ring_off, 4096);
    // 6 + 8 * 8 = 70 bytes of used ring, rounded up to a page.
    assert_eq!(l.size, 8192);
}

#[test]
fn new_queue_links_every_descriptor() {
    let q = VirtQueue::new(3, 4, 4096);
    assert_eq!(q.num_descs(), 4);
    assert_eq!(q.num_free_descs, 4);
    assert_eq!(q.free_head, 0);
    let nexts: Vec<u16> = q.descs.iter().map(|d| d.next).collect();
    assert_eq!(nexts, vec![1, 2, 3, 0]);
}

#[test]
fn enqueue_then_pop_gives_the_request_back() {
    let mut q = VirtQueue::new(0, 4, 4096);
    let chain = [ro(0x1000, 16), wr(0x2000, 64)];
    assert_eq!(q.enqueue(&chain), Ok(()));
    assert_eq!(q.num_free_descs, 2);
    assert_eq!(q.avail_index, 1);
    assert_eq!(q.avail_ring[0], 0);
    assert_eq!(q.free_head, 2);
    // Nothing used yet.
    assert!(matches!(q.pop_used(), Ok(None)));
    device_uses(&mut q, 0, 48);
    let used = q.pop_used().unwrap().unwrap();
    assert_eq!(used.total_len, 48);
    assert_eq!(used.descs, chain.to_vec());
    assert_eq!(q.num_free_descs, 4);
    assert_eq!(q.free_head, 0);
}

#[test]
fn descriptors_carry_the_buffers() {
    let mut q = VirtQueue::new(0, 4, 4096);
    q.enqueue(&[ro(0x1000, 16), wr(0x2000, 64)]).unwrap();
    assert_eq!((q.descs[0].addr, q.descs[0].len, q.descs[0].flags, q.descs[0].next), (0x1000, 16, 1, 1));
    assert_eq!((q.descs[1].addr, q.descs[1].len, q.descs[1].flags, q.descs[1].next), (0x2000, 64, 2, 0));
    assert!(q.descs[1].is_writable());
    assert!(!q.descs[0].is_writable());
}

#[test]
fn enqueue_without_room_fails() {
    let mut q = VirtQueue::new(0, 2, 4096);
    q.enqueue(&[ro(0x1000, 1), ro(0x2000, 1)]).unwrap();
    assert_eq!(q.enqueue(&[ro(0x3000, 1)]), Err(QueueError::NotEnoughDescs));
}

#[test]
fn enqueue_takes_used_chains_back_first() {
    let mut q = VirtQueue::new(0, 2, 4096);
    q.enqueue(&[ro(0x1000, 1), ro(0x2000, 1)]).unwrap();
    device_uses(&mut q, 0, 0);
    assert_eq!(q.enqueue(&[ro(0x3000, 1)]), Ok(()));
    assert_eq!(q.num_free_descs, 1);
    assert_eq!(q.descs[0].addr, 0x3000);
}

#[test]
fn endless_chain_is_refused() {
    let mut q = VirtQueue::new(0, 2, 4096);
    q.enqueue(&[ro(0x1000, 1), ro(0x2000, 1)]).unwrap();
    // The device corrupts the chain into a cycle.
    q.descs[1].flags = 1;
    q.descs[1].next = 0;
    device_uses(&mut q, 0, 0);
    assert!(matches!(q.pop_used(), Err(QueueError::EndlessChain)));
}

#[test]
fn notify_writes_the_queue_index() {
    let q = VirtQueue::new(5, 2, 4096);
    assert_eq!(q.notify(), MmioWrite { offset: 0x50, value: 5 });
}

#[test]
fn probe_reads_magic_version_and_id() {
    assert_eq!(probe(0x74726976, 2, 1), Some(DeviceType::Net));
    assert_eq!(probe(0x74726976, 2, 2), Some(DeviceType::Blk));
    assert_eq!(probe(0x74726976, 2, 3), Some(DeviceType::Console));
    assert_eq!(probe(0x74726976, 2, 26), Some(DeviceType::Unknown(26)));
    assert_eq!(probe(0x12345678, 2, 1), None);
    assert_eq!(probe(0x74726976, 1, 1), None);
    assert_eq!(device_type(9), DeviceType::Unknown(9));
}

#[test]
fn features_split_and_combine() {
    assert_eq!(features_from_words(0x20, 0x1), 0x1_0000_0020);
    assert_eq!(split_words(0x1_0000_0020), (0x20, 0x1));
    let w = driver_features_writes(0xdead_beef_0000_0001);
    assert_eq!(
        w,
        vec![
            MmioWrite { offset: 0x24, value: 0 },
            MmioWrite { offset: 0x20, value: 1 },
            MmioWrite { offset: 0x24, value: 1 },
            MmioWrite { offset: 0x20, value: 0xdead_beef },
        ]
    );
}

#[test]
fn queue_setup_writes_addresses_in_halves() {
    let w = paddr_writes(0x80, PAddr::new(0x1234_5678));
    assert_eq!(w, vec![MmioWrite { offset: 0x80, value: 0x1234_5678 }, MmioWrite { offset: 0x84, value: 0 }]);
    let s = queue_setup_writes(1, 8, PAddr::new(0x1000), PAddr::new(0x2000), PAddr::new(0x3000));
    assert_eq!(s.len(), 9);
    assert_eq!(s[0], MmioWrite { offset: 0x30, value: 1 });
    assert_eq!(s[1], MmioWrite { offset: 0x38, value: 8 });
    assert_eq!(s[2], MmioWrite { offset: 0x80, value: 0x1000 });
    assert_eq!(s[4], MmioWrite { offset: 0x90, value: 0x2000 });
    assert_eq!(s[6], MmioWrite { offset: 0xa0, value: 0x3000 });
    assert_eq!(s[8], MmioWrite { offset: 0x44, value: 1 });
}

#[test]
fn each_used_chain_is_taken_once() {
    let mut q = VirtQueue::new(0, 2, 4096);
    for round in 0..5u32 {
        let head = q.free_head;
        q.enqueue(&[ro(0x1000, 1)]).unwrap();
        device_uses(&mut q, head as u32, round);
        let used = q.pop_used().unwrap().unwrap();
        assert_eq!(used.total_len, round as usize);
        assert!(matches!(q.pop_used(), Ok(None)));
    }
}
