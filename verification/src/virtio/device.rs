//! A virtio device over memory-mapped I/O: the register interface through
//! which the guest's driver configures the device and its queues.

use vstd::prelude::*;
use crate::bytes::{law_encodings_round_trip, le32, le32_bytes, u32_from_le};
use crate::guest_memory::{GuestMemory, GuestMemoryError};
use crate::net::{ConnKey, RecvError};
use crate::virtio::desc_chain::DescChain;
use crate::virtio::virtqueue::{next_ring_index, with_half, Virtqueue, VIRTQUEUE_NUM_DESCS_MAX};

verus! {

/// The size of a device's register window.
pub const VIRTIO_MMIO_SIZE: usize = 4096;

pub const REG_MAGIC: u64 = 0x00;
pub const REG_VERSION: u64 = 0x04;
pub const REG_DEVICE_ID: u64 = 0x08;
pub const REG_VENDOR_ID: u64 = 0x0c;
pub const REG_DEVICE_FEATURES: u64 = 0x10;
pub const REG_DEVICE_FEATURES_SEL: u64 = 0x14;
pub const REG_DRIVER_FEATURES: u64 = 0x20;
pub const REG_DRIVER_FEATURES_SEL: u64 = 0x24;
pub const REG_QUEUE_SELECT: u64 = 0x30;
pub const REG_QUEUE_SIZE_MAX: u64 = 0x34;
pub const REG_QUEUE_SIZE: u64 = 0x38;
pub const REG_QUEUE_READY: u64 = 0x44;
pub const REG_QUEUE_NOTIFY: u64 = 0x50;
pub const REG_INTERRUPT_STATUS: u64 = 0x60;
pub const REG_INTERRUPT_ACK: u64 = 0x64;
pub const REG_DEVICE_STATUS: u64 = 0x70;
pub const REG_QUEUE_DESC_LOW: u64 = 0x80;
pub const REG_QUEUE_DESC_HIGH: u64 = 0x84;
pub const REG_QUEUE_DRIVER_LOW: u64 = 0x90;
pub const REG_QUEUE_DRIVER_HIGH: u64 = 0x94;
pub const REG_QUEUE_DEVICE_LOW: u64 = 0xa0;
pub const REG_QUEUE_DEVICE_HIGH: u64 = 0xa4;
pub const REG_QUEUE_CONFIG_GEN: u64 = 0xfc;
pub const REG_CONFIG_START: u64 = 0x100;

/// The magic value, "virt" in little-endian.
pub const VIRTIO_MMIO_MAGIC: u32 = 0x74726976;

/// The device speaks the virtio 1.x interface.
pub const VIRTIO_F_VERSION_1: u64 = 0x1_0000_0000;

/// An access the device model does not support, or a request of the guest
/// that it cannot serve.
#[derive(Debug, Clone, Copy, PartialEq, Eq)]
pub enum DeviceError {
    UnsupportedReadWidth(usize),
    UnsupportedWriteWidth(usize),
    UnknownRegisterRead(u64),
    UnknownRegisterWrite(u64),
    QueueIndexOutOfRange(u32),
    InvalidQueueSize(u32),
    QueueAddressOverflow(u32),
    UnknownConfigOffset(u64),
    UnexpectedQueueIndex(u32),
    DescChain(GuestMemoryError),
    UnsupportedNetHeaderFlags(u8),
    Recv(RecvError),
    /// The guest asked for a file-system operation that is not implemented
    /// for the node it names.
    Unimplemented,
}

/// Something a device hands to the host side while it processes a chain.
#[derive(Debug)]
pub enum DeviceEvent {
    /// Data the guest sent on a TCP connection, to forward to the host's end.
    Forward(ConnKey, Vec<u8>),
}

/// The host side of a virtio device, which the guest drives through its
/// virtio driver.
pub trait VirtioDevice: Sized {
    /// The device's own consistency.
    spec fn inv(&self) -> bool;

    spec fn spec_num_queues(&self) -> u32;

    spec fn spec_device_features(&self) -> u64;

    spec fn spec_device_id(&self) -> u32;

    spec fn spec_vendor_id(&self) -> u32;

    /// The buffer after reading the configuration space at `offset` into
    /// `dst`; `None` for an offset the device does not know.
    spec fn spec_config(&self, offset: u64, dst: Seq<u8>) -> Option<Seq<u8>>;

    fn num_queues(&self) -> (r: u32)
        ensures
            r == self.spec_num_queues(),
    ;

    fn device_features(&self) -> (r: u64)
        ensures
            r == self.spec_device_features(),
    ;

    fn device_id(&self) -> (r: u32)
        ensures
            r == self.spec_device_id(),
    ;

    fn vendor_id(&self) -> (r: u32)
        ensures
            r == self.spec_vendor_id(),
    ;

    fn config_read(&self, offset: u64, dst: &mut Vec<u8>) -> (r: Result<(), DeviceError>)
        ensures
            match self.spec_config(offset, old(dst)@) {
                Some(b) => r is Ok && final(dst)@ == b,
                None => r == Err::<(), DeviceError>(DeviceError::UnknownConfigOffset(offset))
                    && final(dst)@ == old(dst)@,
            },
    ;

    /// Serving `chain` took the device from `self` to `new`, the RAM from
    /// `m0` to `m1` and the queue from `q0` to `q1`, with result `r`.
    spec fn chain_served(
        &self,
        new: &Self,
        m0: GuestMemory,
        m1: GuestMemory,
        q0: Virtqueue,
        q1: Virtqueue,
        chain: DescChain,
        r: Result<Vec<DeviceEvent>, DeviceError>,
    ) -> bool;

    /// Serves one chain that the guest made available on `vq`.
    fn process(&mut self, mem: &mut GuestMemory, vq: &mut Virtqueue, chain: DescChain) -> (r: Result<
        Vec<DeviceEvent>,
        DeviceError,
    >)
        requires
            old(self).inv(),
            old(mem).wf(),
            old(vq).wf(),
            old(vq).fits(),
        ensures
            final(self).inv(),
            final(self).spec_num_queues() == old(self).spec_num_queues(),
            final(self).spec_device_features() == old(self).spec_device_features(),
            final(self).spec_device_id() == old(self).spec_device_id(),
            final(self).spec_vendor_id() == old(self).spec_vendor_id(),
            final(mem).wf(),
            final(mem).base == old(mem).base,
            final(vq).wf(),
            final(vq).index == old(vq).index,
            final(vq).num_descs == old(vq).num_descs,
            final(vq).desc_gpaddr == old(vq).desc_gpaddr,
            final(vq).avail_gpaddr == old(vq).avail_gpaddr,
            final(vq).used_gpaddr == old(vq).used_gpaddr,
            old(self).chain_served(&*final(self), *old(mem), *final(mem), *old(vq), *final(vq), chain, r),
    ;
}

/// The registers of a device as values.
pub struct MmioState {
    pub irq_status: u32,
    pub device_features_select: u32,
    pub driver_features_select: u32,
    pub device_status: u32,
    pub driver_features: u64,
    pub queue_select: u32,
    pub queues: Seq<Virtqueue>,
}

/// A virtio device over memory-mapped I/O.
pub struct VirtioMmio<D> {
    pub irq: u8,
    /// Pending interrupt status bits of the device and its queues.
    pub irq_status: u32,
    pub device: D,
    pub device_features_select: u32,
    pub driver_features_select: u32,
    pub device_status: u32,
    pub driver_features: u64,
    pub queue_select: u32,
    pub queues: Vec<Virtqueue>,
}

/// The features the device offers: its own and `VIRTIO_F_VERSION_1`, of
/// which the selector chooses the low (0) or the high (other) 32 bits.
pub open spec fn offered_features(device_features: u64, select: u32) -> u32 {
    let features = device_features | VIRTIO_F_VERSION_1;
    if select == 0 {
        (features & 0xffff_ffff) as u32
    } else {
        (features >> 32) as u32
    }
}

/// The driver's features after it writes `value` to the half that the
/// selector chooses.
pub open spec fn accepted_features(driver_features: u64, select: u32, value: u32) -> u64 {
    if select == 0 {
        value as u64
    } else {
        (driver_features & 0xffff_ffff) | ((value as u64) << 32)
    }
}

/// A queue as the device sets it up: index `i`, every table at 0, the
/// largest size, nothing taken or returned.
pub open spec fn fresh_queue(i: int) -> Virtqueue {
    Virtqueue {
        index: i as u32,
        desc_gpaddr: crate::address::GPAddr(0),
        avail_gpaddr: crate::address::GPAddr(0),
        used_gpaddr: crate::address::GPAddr(0),
        avail_index: 0,
        used_index: 0,
        num_descs: VIRTQUEUE_NUM_DESCS_MAX,
        irq_status: 0,
    }
}

/// What a register write other than a queue notification does to the
/// registers: `None` for an offset that takes no write.
pub open spec fn write_effect(s: MmioState, offset: u64, value: u32) -> Option<
    Result<MmioState, DeviceError>,
> {
    let sel = s.queue_select as int;
    let in_range = sel < s.queues.len();
    let q = s.queues[sel];
    if offset == REG_DEVICE_FEATURES_SEL {
        Some(Ok(MmioState { device_features_select: value, ..s }))
    } else if offset == REG_DEVICE_STATUS {
        Some(Ok(MmioState { device_status: value, ..s }))
    } else if offset == REG_DRIVER_FEATURES_SEL {
        Some(Ok(MmioState { driver_features_select: value, ..s }))
    } else if offset == REG_DRIVER_FEATURES {
        Some(
            Ok(
                MmioState {
                    driver_features: accepted_features(s.driver_features, s.driver_features_select, value),
                    ..s
                },
            ),
        )
    } else if offset == REG_QUEUE_SELECT {
        Some(Ok(MmioState { queue_select: value, ..s }))
    } else if offset == REG_QUEUE_READY {
        Some(Ok(s))
    } else if offset == REG_INTERRUPT_ACK {
        Some(Ok(MmioState { irq_status: 0, ..s }))
    } else if offset == REG_QUEUE_SIZE || offset == REG_QUEUE_DESC_LOW || offset
        == REG_QUEUE_DESC_HIGH || offset == REG_QUEUE_DRIVER_LOW || offset == REG_QUEUE_DRIVER_HIGH
        || offset == REG_QUEUE_DEVICE_LOW || offset == REG_QUEUE_DEVICE_HIGH {
        if !in_range {
            Some(Err(DeviceError::QueueIndexOutOfRange(s.queue_select)))
        } else if offset == REG_QUEUE_SIZE {
            if value <= VIRTQUEUE_NUM_DESCS_MAX {
                Some(Ok(MmioState { queues: s.queues.update(sel, Virtqueue { num_descs: value, ..q }), ..s }))
            } else {
                Some(Err(DeviceError::InvalidQueueSize(value)))
            }
        } else if offset == REG_QUEUE_DESC_LOW || offset == REG_QUEUE_DESC_HIGH {
            let a = with_half(q.desc_gpaddr.0 as u64, value, offset == REG_QUEUE_DESC_HIGH) as usize;
            Some(
                Ok(
                    MmioState {
                        queues: s.queues.update(
                            sel,
                            Virtqueue { desc_gpaddr: crate::address::GPAddr(a), ..q },
                        ),
                        ..s
                    },
                ),
            )
        } else if offset == REG_QUEUE_DRIVER_LOW || offset == REG_QUEUE_DRIVER_HIGH {
            let a = with_half(q.avail_gpaddr.0 as u64, value, offset == REG_QUEUE_DRIVER_HIGH) as usize;
            Some(
                Ok(
                    MmioState {
                        queues: s.queues.update(
                            sel,
                            Virtqueue { avail_gpaddr: crate::address::GPAddr(a), ..q },
                        ),
                        ..s
                    },
                ),
            )
        } else {
            let a = with_half(q.used_gpaddr.0 as u64, value, offset == REG_QUEUE_DEVICE_HIGH) as usize;
            Some(
                Ok(
                    MmioState {
                        queues: s.queues.update(
                            sel,
                            Virtqueue { used_gpaddr: crate::address::GPAddr(a), ..q },
                        ),
                        ..s
                    },
                ),
            )
        }
    } else {
        None
    }
}

/// The queue `q` after the driver's next available chain was taken from it.
pub open spec fn taken(q: Virtqueue) -> Virtqueue {
    Virtqueue { avail_index: next_ring_index(q.avail_index), ..q }
}

/// One chain served: the next chain available on `q0` in `m0` went to the
/// device, which took it from `d0` to `d1`, the RAM to `m1` and the queue
/// to `q1`, with result `r`.
pub open spec fn served_step<D: VirtioDevice>(
    d0: D,
    d1: D,
    m0: GuestMemory,
    m1: GuestMemory,
    q0: Virtqueue,
    q1: Virtqueue,
    r: Result<Vec<DeviceEvent>, DeviceError>,
) -> bool {
    match q0.next_avail(&m0) {
        Some(head) => d0.chain_served(&d1, m0, m1, taken(q0), q1, DescChain { head }, r),
        None => false,
    }
}

/// Chains served one after another, in the order the ring offers them:
/// step `i` goes from the device, RAM and queue at `i` to those at
/// `i + 1` with result `rs[i]`; every step but the last succeeded.
pub open spec fn serve_trace<D: VirtioDevice>(
    devs: Seq<D>,
    mems: Seq<GuestMemory>,
    vqs: Seq<Virtqueue>,
    rs: Seq<Result<Vec<DeviceEvent>, DeviceError>>,
) -> bool {
    &&& devs.len() == rs.len() + 1
    &&& mems.len() == rs.len() + 1
    &&& vqs.len() == rs.len() + 1
    &&& forall|i: int|
        0 <= i < rs.len() ==> #[trigger] served_step(devs[i], devs[i + 1], mems[i], mems[i + 1], vqs[i], vqs[i + 1], rs[i])
    &&& forall|i: int| #![trigger rs[i]] 0 <= i < rs.len() - 1 ==> rs[i] is Ok
}

/// The events of the successful steps of a run, in order.
pub open spec fn trace_events(rs: Seq<Result<Vec<DeviceEvent>, DeviceError>>) -> Seq<DeviceEvent>
    decreases rs.len(),
{
    if rs.len() == 0 {
        Seq::empty()
    } else {
        trace_events(rs.drop_last()) + match rs.last() {
            Ok(v) => v@,
            Err(_) => Seq::empty(),
        }
    }
}

/// The most chains one notification serves.
pub const NOTIFY_LIMIT: u32 = 0x1_0000;

impl<D: VirtioDevice> VirtioMmio<D> {
    pub open spec fn state(&self) -> MmioState {
        MmioState {
            irq_status: self.irq_status,
            device_features_select: self.device_features_select,
            driver_features_select: self.driver_features_select,
            device_status: self.device_status,
            driver_features: self.driver_features,
            queue_select: self.queue_select,
            queues: self.queues@,
        }
    }

    /// The device is consistent, and queue `i` is at most the largest size
    /// (0 where the driver set none), has index `i` and keeps no interrupt
    /// status of its own.
    pub open spec fn wf(&self) -> bool {
        &&& self.device.inv()
        &&& self.queues@.len() == self.device.spec_num_queues()
        &&& forall|i: int|
            0 <= i < self.queues@.len() ==> (#[trigger] self.queues@[i]).num_descs <= VIRTQUEUE_NUM_DESCS_MAX
                && self.queues@[i].index == i && self.queues@[i].irq_status == 0
    }

    /// The value of the 32-bit register at `offset`; `None` for an offset
    /// that is not readable.
    pub open spec fn register(&self, offset: u64) -> Option<u32> {
        if offset == REG_MAGIC {
            Some(VIRTIO_MMIO_MAGIC)
        } else if offset == REG_VERSION {
            Some(2)
        } else if offset == REG_DEVICE_ID {
            Some(self.device.spec_device_id())
        } else if offset == REG_VENDOR_ID {
            Some(self.device.spec_vendor_id())
        } else if offset == REG_DEVICE_FEATURES {
            Some(offered_features(self.device.spec_device_features(), self.device_features_select))
        } else if offset == REG_DEVICE_FEATURES_SEL {
            Some(self.device_features_select)
        } else if offset == REG_DEVICE_STATUS {
            Some(self.device_status)
        } else if offset == REG_QUEUE_READY {
            Some(0)
        } else if offset == REG_QUEUE_SIZE_MAX {
            Some(VIRTQUEUE_NUM_DESCS_MAX)
        } else if offset == REG_QUEUE_CONFIG_GEN {
            Some(0)
        } else if offset == REG_INTERRUPT_STATUS {
            Some(self.irq_status)
        } else {
            None
        }
    }

    /// A device on interrupt line `irq` with its queues set up, every
    /// register zero.
    pub fn new(irq: u8, device: D) -> (r: VirtioMmio<D>)
        requires
            device.inv(),
        ensures
            r.wf(),
            r.irq == irq,
            r.device == device,
            r.state() == (MmioState {
                irq_status: 0,
                device_features_select: 0,
                driver_features_select: 0,
                device_status: 0,
                driver_features: 0,
                queue_select: 0,
                queues: Seq::new(device.spec_num_queues() as nat, |i: int| fresh_queue(i)),
            }),
    {
        let num_queues = device.num_queues();
        let mut queues: Vec<Virtqueue> = Vec::new();
        let mut i: u32 = 0;
        while i < num_queues
            invariant
                i <= num_queues,
                num_queues == device.spec_num_queues(),
                queues@ == Seq::new(i as nat, |j: int| fresh_queue(j)),
            decreases num_queues - i,
        {
            let q = Virtqueue::new(i);
            proof {
                assert(q == fresh_queue(i as int));
            }
            queues.push(q);
            proof {
                assert(queues@ =~= Seq::new((i + 1) as nat, |j: int| fresh_queue(j)));
            }
            i += 1;
        }
        let r = VirtioMmio {
            irq,
            irq_status: 0,
            device,
            device_features_select: 0,
            driver_features_select: 0,
            device_status: 0,
            driver_features: 0,
            queue_select: 0,
            queues,
        };
        proof {
            assert forall|j: int| 0 <= j < r.queues@.len() implies (#[trigger] r.queues@[j]).wf()
                && r.queues@[j].index == j && r.queues@[j].irq_status == 0 by {
                assert(r.queues@[j] == fresh_queue(j));
            }
        }
        r
    }

    /// What reading `offset` into a buffer holding `dst` gives: the result
    /// and the buffer after, as `mmio_read` says.
    pub open spec fn read_outcome(&self, offset: u64, dst: Seq<u8>) -> (Result<bool, DeviceError>, Seq<u8>) {
        if offset >= REG_CONFIG_START {
            match self.device.spec_config((offset - REG_CONFIG_START) as u64, dst) {
                Some(b) => (Ok(false), b),
                None => (Err(DeviceError::UnknownConfigOffset((offset - REG_CONFIG_START) as u64)), dst),
            }
        } else if dst.len() != 4 {
            (Err(DeviceError::UnsupportedReadWidth(dst.len() as usize)), dst)
        } else {
            match self.register(offset) {
                Some(v) => (Ok(self.irq_status != 0), le32_bytes(v as int)),
                None => (Err(DeviceError::UnknownRegisterRead(offset)), dst),
            }
        }
    }

    /// Writing `src` to `offset` took the device from `self` to `new` and
    /// the RAM from `m0` to `m1`, with result `r`, as `mmio_write` says.
    pub open spec fn written(
        &self,
        new: &Self,
        m0: GuestMemory,
        m1: GuestMemory,
        offset: u64,
        src: Seq<u8>,
        r: Result<(bool, Vec<DeviceEvent>), DeviceError>,
    ) -> bool {
        &&& new.irq == self.irq
        &&& src.len() != 4 ==> r == Err::<(bool, Vec<DeviceEvent>), DeviceError>(
            DeviceError::UnsupportedWriteWidth(src.len() as usize),
        ) && new.state() == self.state() && new.device == self.device && m1.ram@ == m0.ram@
        &&& src.len() == 4 && offset != REG_QUEUE_NOTIFY ==> new.device == self.device && m1.ram@ == m0.ram@
            && match write_effect(self.state(), offset, le32(src) as u32) {
            None => r == Err::<(bool, Vec<DeviceEvent>), DeviceError>(DeviceError::UnknownRegisterWrite(offset))
                && new.state() == self.state(),
            Some(Err(e)) => r == Err::<(bool, Vec<DeviceEvent>), DeviceError>(e) && new.state() == self.state(),
            Some(Ok(st)) => new.state() == st && r is Ok && r->Ok_0.0 == (st.irq_status != 0) && r->Ok_0.1@.len()
                == 0,
        }
        &&& src.len() == 4 && offset == REG_QUEUE_NOTIFY && le32(src) >= self.queues@.len() ==> r
            == Err::<(bool, Vec<DeviceEvent>), DeviceError>(DeviceError::QueueIndexOutOfRange(le32(src) as u32))
            && new.state() == self.state() && new.device == self.device && m1.ram@ == m0.ram@
        &&& src.len() == 4 && offset == REG_QUEUE_NOTIFY && le32(src) < self.queues@.len()
            && !self.queues@[le32(src)].fits() ==> r == Err::<(bool, Vec<DeviceEvent>), DeviceError>(
            DeviceError::QueueAddressOverflow(le32(src) as u32),
        ) && new.state() == self.state() && new.device == self.device && m1.ram@ == m0.ram@
        &&& src.len() == 4 && offset == REG_QUEUE_NOTIFY && le32(src) < self.queues@.len()
            && self.queues@[le32(src)].fits() ==> new.notified(self, le32(src))
            && (r matches Ok((raise, _)) ==> raise == (new.irq_status != 0)) && self.drained(
            new,
            m0,
            m1,
            le32(src),
            match r {
                Ok((_, ev)) => Ok::<Vec<DeviceEvent>, DeviceError>(ev),
                Err(e) => Err::<Vec<DeviceEvent>, DeviceError>(e),
            },
        )
    }

    /// Reads a register, or the device's configuration space from offset
    /// `0x100` on, into `dst`. Returns whether the interrupt line is to be
    /// raised.
    pub fn mmio_read(&self, _memory: &mut GuestMemory, offset: u64, dst: &mut Vec<u8>) -> (r: Result<
        bool,
        DeviceError,
    >)
        requires
            self.wf(),
        ensures
            *final(_memory) == *old(_memory),
            offset >= REG_CONFIG_START ==> match self.device.spec_config(
                (offset - REG_CONFIG_START) as u64,
                old(dst)@,
            ) {
                Some(b) => r == Ok::<bool, DeviceError>(false) && final(dst)@ == b,
                None => r == Err::<bool, DeviceError>(
                    DeviceError::UnknownConfigOffset((offset - REG_CONFIG_START) as u64),
                ) && final(dst)@ == old(dst)@,
            },
            offset < REG_CONFIG_START && old(dst)@.len() != 4 ==> r == Err::<bool, DeviceError>(
                DeviceError::UnsupportedReadWidth(old(dst)@.len() as usize),
            ) && final(dst)@ == old(dst)@,
            offset < REG_CONFIG_START && old(dst)@.len() == 4 ==> match self.register(offset) {
                Some(v) => r == Ok::<bool, DeviceError>(self.irq_status != 0) && final(dst)@
                    == le32_bytes(v as int),
                None => r == Err::<bool, DeviceError>(DeviceError::UnknownRegisterRead(offset))
                    && final(dst)@ == old(dst)@,
            },
    {
        if offset >= REG_CONFIG_START {
            let config_offset = offset - REG_CONFIG_START;
            return match self.device.config_read(config_offset, dst) {
                Ok(()) => Ok(false),
                Err(e) => Err(e),
            };
        }
        let width = dst.len();
        if width != 4 {
            return Err(DeviceError::UnsupportedReadWidth(width));
        }
        let value: u32 = if offset == REG_MAGIC {
            VIRTIO_MMIO_MAGIC
        } else if offset == REG_VERSION {
            2
        } else if offset == REG_DEVICE_ID {
            self.device.device_id()
        } else if offset == REG_VENDOR_ID {
            self.device.vendor_id()
        } else if offset == REG_DEVICE_FEATURES {
            let features = self.device.device_features() | VIRTIO_F_VERSION_1;
            if self.device_features_select == 0 {
                (features & 0xffff_ffff) as u32
            } else {
                (features >> 32) as u32
            }
        } else if offset == REG_DEVICE_FEATURES_SEL {
            self.device_features_select
        } else if offset == REG_DEVICE_STATUS {
            self.device_status
        } else if offset == REG_QUEUE_READY {
            0
        } else if offset == REG_QUEUE_SIZE_MAX {
            VIRTQUEUE_NUM_DESCS_MAX
        } else if offset == REG_QUEUE_CONFIG_GEN {
            0
        } else if offset == REG_INTERRUPT_STATUS {
            self.irq_status
        } else {
            return Err(DeviceError::UnknownRegisterRead(offset));
        };
        *dst = Vec::new();
        crate::bytes::push_le32(dst, value);
        Ok(self.irq_status != 0)
    }

    /// The registers are as before, but for the interrupt status and the
    /// progress of queue `qi`, whose configuration stays.
    pub open spec fn notified(&self, old: &Self, qi: int) -> bool {
        &&& self.irq == old.irq
        &&& self.device_features_select == old.device_features_select
        &&& self.driver_features_select == old.driver_features_select
        &&& self.device_status == old.device_status
        &&& self.driver_features == old.driver_features
        &&& self.queue_select == old.queue_select
        &&& self.irq_status & old.irq_status == old.irq_status
        &&& self.queues@.len() == old.queues@.len()
        &&& forall|j: int| 0 <= j < self.queues@.len() && j != qi ==> #[trigger] self.queues@[j] == old.queues@[j]
        &&& self.queues@[qi].num_descs == old.queues@[qi].num_descs
        &&& self.queues@[qi].desc_gpaddr == old.queues@[qi].desc_gpaddr
        &&& self.queues@[qi].avail_gpaddr == old.queues@[qi].avail_gpaddr
        &&& self.queues@[qi].used_gpaddr == old.queues@[qi].used_gpaddr
        &&& self.device.spec_num_queues() == old.device.spec_num_queues()
        &&& self.device.spec_device_features() == old.device.spec_device_features()
        &&& self.device.spec_device_id() == old.device.spec_device_id()
        &&& self.device.spec_vendor_id() == old.device.spec_vendor_id()
    }

    /// Queue `qi` was served from `self` to `new`, the RAM going from `m0`
    /// to `m1`: the chains the ring offered went to the device one after
    /// another, until none was left, the device failed, or `NOTIFY_LIMIT`
    /// of them were served; the queue's interrupt status went to the
    /// device's, and `r` holds the events of the chains, or the failure.
    pub open spec fn drained(
        &self,
        new: &Self,
        m0: GuestMemory,
        m1: GuestMemory,
        qi: int,
        r: Result<Vec<DeviceEvent>, DeviceError>,
    ) -> bool {
        exists|devs: Seq<D>, mems: Seq<GuestMemory>, vqs: Seq<Virtqueue>, rs: Seq<Result<Vec<DeviceEvent>, DeviceError>>|
            #[trigger] serve_trace(devs, mems, vqs, rs) && devs[0] == self.device && mems[0] == m0 && vqs[0]
                == self.queues@[qi] && devs.last() == new.device && mems.last() == m1 && new.queues@[qi] == (
            Virtqueue { irq_status: 0, ..vqs.last() }) && new.irq_status == self.irq_status | vqs.last().irq_status
                && rs.len() <= NOTIFY_LIMIT && match r {
                Ok(ev) => (rs.len() == 0 || rs.last() is Ok) && ev@ == trace_events(rs) && (vqs.last().next_avail(
                    &m1,
                ) is None || rs.len() == NOTIFY_LIMIT),
                Err(e) => rs.len() > 0 && rs.last() == Err::<Vec<DeviceEvent>, DeviceError>(e),
            }
    }

    /// Serves the chains the guest made available on queue `qi`, one after
    /// another, until none is left or the device fails; at most
    /// `NOTIFY_LIMIT` of them.
    fn queue_notify(&mut self, mem: &mut GuestMemory, qi: usize) -> (r: Result<Vec<DeviceEvent>, DeviceError>)
        requires
            old(self).wf(),
            qi < old(self).queues@.len(),
            old(self).queues@[qi as int].fits(),
            old(mem).wf(),
        ensures
            final(self).wf(),
            final(mem).wf(),
            final(mem).base == old(mem).base,
            final(self).notified(old(self), qi as int),
            old(self).drained(&*final(self), *old(mem), *final(mem), qi as int, r),
    {
        let ghost old_queues = self.queues@;
        let mut vq = self.queues.remove(qi);
        let ghost q0 = vq;
        let ghost dev0 = self.device;
        let ghost mut devs: Seq<D> = seq![self.device];
        let ghost mut mems: Seq<GuestMemory> = seq![*mem];
        let ghost mut vqs: Seq<Virtqueue> = seq![vq];
        let ghost mut rs: Seq<Result<Vec<DeviceEvent>, DeviceError>> = Seq::empty();
        let mut events: Vec<DeviceEvent> = Vec::new();
        let mut err: Option<DeviceError> = None;
        let mut done = false;
        let mut n: u32 = 0;
        while !done && n < NOTIFY_LIMIT && err.is_none()
            invariant
                self.device.inv(),
                self.device.spec_num_queues() == dev0.spec_num_queues(),
                self.device.spec_device_features() == dev0.spec_device_features(),
                self.device.spec_device_id() == dev0.spec_device_id(),
                self.device.spec_vendor_id() == dev0.spec_vendor_id(),
                vq.num_descs <= VIRTQUEUE_NUM_DESCS_MAX,
                vq.fits(),
                vq.index == q0.index,
                vq.num_descs == q0.num_descs,
                vq.desc_gpaddr == q0.desc_gpaddr,
                vq.avail_gpaddr == q0.avail_gpaddr,
                vq.used_gpaddr == q0.used_gpaddr,
                mem.wf(),
                mem.base == old(mem).base,
                self.queues@ == old_queues.remove(qi as int),
                self.irq == old(self).irq,
                self.irq_status == old(self).irq_status,
                self.device_features_select == old(self).device_features_select,
                self.driver_features_select == old(self).driver_features_select,
                self.device_status == old(self).device_status,
                self.driver_features == old(self).driver_features,
                self.queue_select == old(self).queue_select,
                q0 == old_queues[qi as int],
                serve_trace(devs, mems, vqs, rs),
                rs.len() == n,
                n <= NOTIFY_LIMIT,
                devs[0] == dev0,
                dev0 == old(self).device,
                mems[0] == *old(mem),
                vqs[0] == q0,
                devs.last() == self.device,
                mems.last() == *mem,
                vqs.last() == vq,
                events@ == trace_events(rs),
                done ==> vq.next_avail(&*mem) is None,
                match err {
                    Some(e) => n > 0 && rs.last() == Err::<Vec<DeviceEvent>, DeviceError>(e),
                    None => n == 0 || rs.last() is Ok,
                },
            decreases NOTIFY_LIMIT - n, if done { 0int } else { 1int },
        {
            let ghost q_before = vq;
            match vq.pop_avail(mem) {
                None => {
                    done = true;
                },
                Some(chain) => {
                    let ghost d_before = self.device;
                    let ghost m_before = *mem;
                    let res = self.device.process(mem, &mut vq, chain);
                    let ghost res_g = res;
                    proof {
                        assert(served_step(d_before, self.device, m_before, *mem, q_before, vq, res_g));
                        let devs2 = devs.push(self.device);
                        let mems2 = mems.push(*mem);
                        let vqs2 = vqs.push(vq);
                        let rs2 = rs.push(res_g);
                        assert forall|i: int| 0 <= i < rs2.len() implies #[trigger] served_step(
                            devs2[i],
                            devs2[i + 1],
                            mems2[i],
                            mems2[i + 1],
                            vqs2[i],
                            vqs2[i + 1],
                            rs2[i],
                        ) by {
                            if i < rs.len() {
                                assert(devs2[i] == devs[i] && devs2[i + 1] == devs[i + 1]);
                                assert(mems2[i] == mems[i] && mems2[i + 1] == mems[i + 1]);
                                assert(vqs2[i] == vqs[i] && vqs2[i + 1] == vqs[i + 1]);
                                assert(rs2[i] == rs[i]);
                            }
                        }
                        assert forall|i: int| #![trigger rs2[i]] 0 <= i < rs2.len() - 1 implies rs2[i] is Ok by {
                            assert(rs2[i] == rs[i]);
                        }
                        assert(rs2.drop_last() =~= rs);
                        devs = devs2;
                        mems = mems2;
                        vqs = vqs2;
                        rs = rs2;
                    }
                    match res {
                        Ok(mut evs) => {
                            events.append(&mut evs);
                        },
                        Err(e) => {
                            err = Some(e);
                        },
                    }
                    n += 1;
                },
            }
        }
        let before = self.irq_status;
        let added = vq.irq_status;
        let status = before | added;
        assert(status & before == before) by (bit_vector)
            requires
                status == before | added,
        ;
        self.irq_status = status;
        vq.irq_status = 0;
        self.queues.insert(qi, vq);
        proof {
            assert forall|j: int| 0 <= j < self.queues@.len() && j != qi implies #[trigger] self.queues@[j]
                == old_queues[j] by {
                if j < qi {
                    assert(self.queues@[j] == old_queues.remove(qi as int)[j]);
                } else {
                    assert(self.queues@[j] == old_queues.remove(qi as int)[j - 1]);
                }
            }
            assert forall|j: int| 0 <= j < self.queues@.len() implies (#[trigger] self.queues@[j]).num_descs
                <= VIRTQUEUE_NUM_DESCS_MAX && self.queues@[j].index == j && self.queues@[j].irq_status == 0 by {
                if j != qi {
                    assert(self.queues@[j] == old_queues[j]);
                }
            }
        }
        let r = match err {
            Some(e) => Err(e),
            None => Ok(events),
        };
        proof {
            assert(self.queues@[qi as int] == (Virtqueue { irq_status: 0, ..vqs.last() }));
            assert(serve_trace(devs, mems, vqs, rs));
        }
        r
    }

    /// Writes a 32-bit register. Returns whether the interrupt line is to
    /// be raised, and what the device handed on while it served the chains
    /// of a notified queue.
    pub fn mmio_write(&mut self, memory: &mut GuestMemory, offset: u64, src: &[u8]) -> (r: Result<
        (bool, Vec<DeviceEvent>),
        DeviceError,
    >)
        requires
            old(self).wf(),
            old(memory).wf(),
        ensures
            final(self).wf(),
            final(memory).wf(),
            final(memory).base == old(memory).base,
            old(self).written(&*final(self), *old(memory), *final(memory), offset, src@, r),
    {
        let width = src.len();
        if width != 4 {
            return Err(DeviceError::UnsupportedWriteWidth(width));
        }
        let value = u32_from_le(src[0], src[1], src[2], src[3]);
        proof {
            assert(seq![src@[0], src@[1], src@[2], src@[3]] =~= src@);
        }
        let ghost st = self.state();
        if offset == REG_QUEUE_NOTIFY {
            let qi = value as usize;
            if qi >= self.queues.len() {
                return Err(DeviceError::QueueIndexOutOfRange(value));
            }
            if !self.queues[qi].check_fits() {
                return Err(DeviceError::QueueAddressOverflow(value));
            }
            let events = self.queue_notify(memory, qi)?;
            return Ok((self.irq_status != 0, events));
        }
        if offset == REG_DEVICE_FEATURES_SEL {
            self.device_features_select = value;
        } else if offset == REG_DEVICE_STATUS {
            self.device_status = value;
        } else if offset == REG_DRIVER_FEATURES_SEL {
            self.driver_features_select = value;
        } else if offset == REG_DRIVER_FEATURES {
            if self.driver_features_select == 0 {
                self.driver_features = value as u64;
            } else {
                self.driver_features = (self.driver_features & 0xffff_ffff) | ((value as u64) << 32u64);
            }
        } else if offset == REG_QUEUE_SELECT {
            self.queue_select = value;
        } else if offset == REG_QUEUE_READY {
        } else if offset == REG_INTERRUPT_ACK {
            self.irq_status = 0;
        } else if offset == REG_QUEUE_SIZE || offset == REG_QUEUE_DESC_LOW || offset
            == REG_QUEUE_DESC_HIGH || offset == REG_QUEUE_DRIVER_LOW || offset
            == REG_QUEUE_DRIVER_HIGH || offset == REG_QUEUE_DEVICE_LOW || offset
            == REG_QUEUE_DEVICE_HIGH {
            let qi = self.queue_select as usize;
            if qi >= self.queues.len() {
                return Err(DeviceError::QueueIndexOutOfRange(self.queue_select));
            }
            if offset == REG_QUEUE_SIZE && value > VIRTQUEUE_NUM_DESCS_MAX {
                return Err(DeviceError::InvalidQueueSize(value));
            }
            let ghost old_queues = self.queues@;
            let mut q = self.queues.remove(qi);
            if offset == REG_QUEUE_SIZE {
                q.set_queue_size(value);
            } else if offset == REG_QUEUE_DESC_LOW || offset == REG_QUEUE_DESC_HIGH {
                q.set_desc_addr(value, offset == REG_QUEUE_DESC_HIGH);
            } else if offset == REG_QUEUE_DRIVER_LOW || offset == REG_QUEUE_DRIVER_HIGH {
                q.set_driver_addr(value, offset == REG_QUEUE_DRIVER_HIGH);
            } else {
                q.set_device_addr(value, offset == REG_QUEUE_DEVICE_HIGH);
            }
            self.queues.insert(qi, q);
            proof {
                assert(self.queues@ =~= old_queues.update(qi as int, q));
                assert forall|j: int| 0 <= j < self.queues@.len() implies (#[trigger] self.queues@[j]).num_descs
                    <= VIRTQUEUE_NUM_DESCS_MAX && self.queues@[j].index == j && self.queues@[j].irq_status == 0 by {
                    if j != qi {
                        assert(self.queues@[j] == old_queues[j]);
                    }
                }
            }
        } else {
            return Err(DeviceError::UnknownRegisterWrite(offset));
        }
        Ok((self.irq_status != 0, Vec::new()))
    }
}

/// A device whose registers did not change counts as notified on any of
/// its queues.
pub proof fn lemma_notified_unchanged<D: VirtioDevice>(m: VirtioMmio<D>, qi: int)
    requires
        0 <= qi < m.queues@.len(),
    ensures
        m.notified(&m, qi),
{
    let s = m.irq_status;
    assert(s & s == s) by (bit_vector);
}

/// What the driver writes to the status register it reads back.
pub proof fn law_status_read_back<D: VirtioDevice>(m: VirtioMmio<D>, m2: VirtioMmio<D>, v: u32)
    requires
        write_effect(m.state(), REG_DEVICE_STATUS, v) == Some(Ok::<MmioState, DeviceError>(m2.state())),
    ensures
        m2.register(REG_DEVICE_STATUS) == Some(v),
{
}

/// Acknowledging interrupts clears the interrupt status the driver reads.
pub proof fn law_ack_clears_interrupt_status<D: VirtioDevice>(m: VirtioMmio<D>, m2: VirtioMmio<D>, v: u32)
    requires
        write_effect(m.state(), REG_INTERRUPT_ACK, v) == Some(Ok::<MmioState, DeviceError>(m2.state())),
    ensures
        m2.register(REG_INTERRUPT_STATUS) == Some(0u32),
{
}

/// After the driver selects a half of the device's features, reading the
/// features gives that half of what the device offers.
pub proof fn law_feature_select<D: VirtioDevice>(m: VirtioMmio<D>, m2: VirtioMmio<D>, v: u32)
    requires
        write_effect(m.state(), REG_DEVICE_FEATURES_SEL, v) == Some(Ok::<MmioState, DeviceError>(m2.state())),
        m2.device == m.device,
    ensures
        m2.register(REG_DEVICE_FEATURES) == Some(offered_features(m.device.spec_device_features(), v)),
{
}

/// After the driver writes `s` to the feature selector, reading the
/// feature register gives the low (`s == 0`) or high half of the device's
/// features with `VIRTIO_F_VERSION_1`, which the high half always offers.
pub proof fn law_feature_select_read_back<D: VirtioDevice>(
    m: VirtioMmio<D>,
    m2: VirtioMmio<D>,
    mem0: GuestMemory,
    mem1: GuestMemory,
    s: u32,
    r: Result<(bool, Vec<DeviceEvent>), DeviceError>,
    dst: Seq<u8>,
)
    requires
        m.written(&m2, mem0, mem1, REG_DEVICE_FEATURES_SEL, le32_bytes(s as int), r),
        dst.len() == 4,
    ensures
        r is Ok,
        m2.read_outcome(REG_DEVICE_FEATURES, dst) == (
            Ok::<bool, DeviceError>(m2.irq_status != 0),
            le32_bytes(offered_features(m.device.spec_device_features(), s) as int),
        ),
        s != 0 ==> offered_features(m.device.spec_device_features(), s) & 1 == 1,
{
    law_encodings_round_trip(0, s);
    let f = m.device.spec_device_features();
    let v = f | VIRTIO_F_VERSION_1;
    assert(((v >> 32) as u32) & 1 == 1) by (bit_vector)
        requires
            v == f | 0x1_0000_0000u64,
    ;
}

} // verus!
