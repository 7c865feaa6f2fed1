//! The driver side of the virtio-mmio transport: what the driver reads out
//! of the device's registers, and the register writes it makes. All
//! register values are little-endian 32-bit words.

use vstd::prelude::*;
use crate::address::PAddr;
use crate::virtio::device::{
    REG_DRIVER_FEATURES, REG_DRIVER_FEATURES_SEL, REG_QUEUE_DESC_LOW, REG_QUEUE_DEVICE_LOW,
    REG_QUEUE_DRIVER_LOW, REG_QUEUE_NOTIFY, REG_QUEUE_READY, REG_QUEUE_SELECT, REG_QUEUE_SIZE,
    VIRTIO_MMIO_MAGIC,
};
use crate::virtio::driver::VirtQueue;

verus! {

/// The kind of a virtio device, by its device ID.
#[derive(Debug, Clone, Copy, PartialEq, Eq, Structural)]
pub enum DeviceType {
    Net,
    Blk,
    Console,
    Unknown(u32),
}

/// Why a driver could not attach to a device.
#[derive(Debug, Clone, Copy, PartialEq, Eq, Structural)]
pub enum VirtioAttachError {
    UnexpectedDeviceType(DeviceType),
    MissingFeatures,
    MissingPciCommonCfg,
    MissingPciDeviceCfg,
    MissingPciIsrCfg,
    MissingPciNotifyCfg,
    FeatureNegotiationFailure,
    NotSupportedBarType,
}

/// The only transport version the driver speaks.
pub const VIRTIO_MMIO_VERSION: u32 = 2;

pub open spec fn device_type_spec(id: u32) -> DeviceType {
    if id == 1 {
        DeviceType::Net
    } else if id == 2 {
        DeviceType::Blk
    } else if id == 3 {
        DeviceType::Console
    } else {
        DeviceType::Unknown(id)
    }
}

/// The kind of device a device ID names.
pub fn device_type(id: u32) -> (r: DeviceType)
    ensures
        r == device_type_spec(id),
{
    match id {
        1 => DeviceType::Net,
        2 => DeviceType::Blk,
        3 => DeviceType::Console,
        _ => DeviceType::Unknown(id),
    }
}

/// What the magic, version and device-ID registers say: no device unless
/// the magic value reads "virt" and the version is 2; else its kind.
pub fn probe(magic: u32, version: u32, device_id: u32) -> (r: Option<DeviceType>)
    ensures
        r == (if magic == VIRTIO_MMIO_MAGIC && version == VIRTIO_MMIO_VERSION {
            Some(device_type_spec(device_id))
        } else {
            None
        }),
{
    if magic != VIRTIO_MMIO_MAGIC {
        return None;
    }
    if version != VIRTIO_MMIO_VERSION {
        return None;
    }
    Some(device_type(device_id))
}

/// The 64 feature bits from the low and the high word the device offers.
pub fn features_from_words(low: u32, high: u32) -> (r: u64)
    ensures
        r == high as int * 0x1_0000_0000 + low as int,
{
    let r = ((high as u64) << 32u64) | (low as u64);
    assert(((high as u64) << 32u64) | (low as u64) == high as u64 * 0x1_0000_0000 + low as u64) by (bit_vector);
    r
}

/// A write of `value` to the register at `offset`.
#[derive(Debug, Clone, Copy, PartialEq, Eq, Structural)]
pub struct MmioWrite {
    pub offset: u64,
    pub value: u32,
}

/// The low and the high word of `value`.
pub fn split_words(value: u64) -> (r: (u32, u32))
    ensures
        r.1 as int * 0x1_0000_0000 + r.0 as int == value,
{
    let low = (value & 0xffff_ffff) as u32;
    let high = (value >> 32u64) as u32;
    assert((value >> 32u64) as u32 as u64 * 0x1_0000_0000 + (value & 0xffff_ffff) as u32 as u64 == value)
        by (bit_vector);
    (low, high)
}

/// The writes that offer the driver's feature bits: select the low word,
/// write it, select the high word, write it.
pub fn driver_features_writes(value: u64) -> (r: Vec<MmioWrite>)
    ensures
        r@.len() == 4,
        r@[0] == (MmioWrite { offset: REG_DRIVER_FEATURES_SEL, value: 0 }),
        r@[1].offset == REG_DRIVER_FEATURES,
        r@[2] == (MmioWrite { offset: REG_DRIVER_FEATURES_SEL, value: 1 }),
        r@[3].offset == REG_DRIVER_FEATURES,
        r@[3].value as int * 0x1_0000_0000 + r@[1].value as int == value,
{
    let (low, high) = split_words(value);
    let mut r: Vec<MmioWrite> = Vec::new();
    r.push(MmioWrite { offset: REG_DRIVER_FEATURES_SEL, value: 0 });
    r.push(MmioWrite { offset: REG_DRIVER_FEATURES, value: low });
    r.push(MmioWrite { offset: REG_DRIVER_FEATURES_SEL, value: 1 });
    r.push(MmioWrite { offset: REG_DRIVER_FEATURES, value: high });
    r
}

/// The writes that give a 64-bit physical address to the register pair at
/// `low_reg` (low word) and `low_reg + 4` (high word).
pub fn paddr_writes(low_reg: u64, paddr: PAddr) -> (r: Vec<MmioWrite>)
    requires
        low_reg + 4 <= u64::MAX,
    ensures
        r@.len() == 2,
        r@[0].offset == low_reg,
        r@[1].offset == low_reg + 4,
        r@[1].value as int * 0x1_0000_0000 + r@[0].value as int == paddr.0,
{
    let (low, high) = split_words(paddr.0 as u64);
    let mut r: Vec<MmioWrite> = Vec::new();
    r.push(MmioWrite { offset: low_reg, value: low });
    r.push(MmioWrite { offset: low_reg + 4, value: high });
    r
}

/// The writes that set a queue up: select it, set its size, give the
/// addresses of its descriptor table, available ring and used ring, and
/// mark it ready.
pub fn queue_setup_writes(index: u16, num_descs: u16, descs: PAddr, avail: PAddr, used: PAddr) -> (r: Vec<
    MmioWrite,
>)
    ensures
        r@.len() == 9,
        r@[0] == (MmioWrite { offset: REG_QUEUE_SELECT, value: index as u32 }),
        r@[1] == (MmioWrite { offset: REG_QUEUE_SIZE, value: num_descs as u32 }),
        r@[2].offset == REG_QUEUE_DESC_LOW,
        r@[3].offset == REG_QUEUE_DESC_LOW + 4,
        r@[3].value as int * 0x1_0000_0000 + r@[2].value as int == descs.0,
        r@[4].offset == REG_QUEUE_DRIVER_LOW,
        r@[5].offset == REG_QUEUE_DRIVER_LOW + 4,
        r@[5].value as int * 0x1_0000_0000 + r@[4].value as int == avail.0,
        r@[6].offset == REG_QUEUE_DEVICE_LOW,
        r@[7].offset == REG_QUEUE_DEVICE_LOW + 4,
        r@[7].value as int * 0x1_0000_0000 + r@[6].value as int == used.0,
        r@[8] == (MmioWrite { offset: REG_QUEUE_READY, value: 1 }),
{
    let mut r: Vec<MmioWrite> = Vec::new();
    r.push(MmioWrite { offset: REG_QUEUE_SELECT, value: index as u32 });
    r.push(MmioWrite { offset: REG_QUEUE_SIZE, value: num_descs as u32 });
    let d = paddr_writes(REG_QUEUE_DESC_LOW, descs);
    r.push(d[0]);
    r.push(d[1]);
    let a = paddr_writes(REG_QUEUE_DRIVER_LOW, avail);
    r.push(a[0]);
    r.push(a[1]);
    let u = paddr_writes(REG_QUEUE_DEVICE_LOW, used);
    r.push(u[0]);
    r.push(u[1]);
    r.push(MmioWrite { offset: REG_QUEUE_READY, value: 1 });
    r
}

impl VirtQueue {
    /// The write that tells the device this queue has new requests.
    pub fn notify(&self) -> (r: MmioWrite)
        ensures
            r == (MmioWrite { offset: REG_QUEUE_NOTIFY, value: self.index as u32 }),
    {
        MmioWrite { offset: REG_QUEUE_NOTIFY, value: self.index as u32 }
    }
}

} // verus!
