//! The bus of memory-mapped devices: guest-physical address ranges, each
//! served by one device.

use vstd::prelude::*;
use crate::address::GPAddr;
use crate::guest_memory::GuestMemory;
use crate::virtio::device::{DeviceError, DeviceEvent, VirtioDevice, VirtioMmio};

verus! {

/// Why a memory-mapped access failed.
#[derive(Debug, Clone, Copy, PartialEq, Eq)]
pub enum Error {
    /// No device is mapped at the address.
    NotMapped,
    /// The device refused the access.
    Device(DeviceError),
}

/// A device on the bus.
pub trait Device: Sized {
    /// The device's own consistency.
    spec fn inv(&self) -> bool;

    /// Whether `self` is still the kind of device `other` was.
    spec fn same_kind(&self, other: &Self) -> bool;

    /// What reading the register at `offset` into a buffer holding `dst`
    /// gives: the result, and the buffer after.
    spec fn read_outcome(&self, offset: u64, dst: Seq<u8>) -> (Result<bool, Error>, Seq<u8>);

    /// Whether writing `src` to the register at `offset` takes the device
    /// from `self` to `new` and the RAM from `m0` to `m1`, with result `r`.
    spec fn write_done(
        &self,
        new: &Self,
        m0: GuestMemory,
        m1: GuestMemory,
        offset: u64,
        src: Seq<u8>,
        r: Result<(bool, Vec<DeviceEvent>), Error>,
    ) -> bool;

    /// Reads the register at `offset` into `value`; returns whether the
    /// device's interrupt line is to be raised.
    fn mmio_read(&mut self, memory: &mut GuestMemory, offset: u64, value: &mut Vec<u8>) -> (r: Result<
        bool,
        Error,
    >)
        requires
            old(self).inv(),
            old(memory).wf(),
        ensures
            final(self).inv(),
            final(self).same_kind(&*old(self)),
            final(memory).wf(),
            final(memory).base == old(memory).base,
            *final(self) == *old(self),
            *final(memory) == *old(memory),
            (r, final(value)@) == old(self).read_outcome(offset, old(value)@),
    ;

    /// Writes `value` to the register at `offset`; returns whether the
    /// device's interrupt line is to be raised, and what the device hands
    /// on.
    fn mmio_write(&mut self, memory: &mut GuestMemory, offset: u64, value: &[u8]) -> (r: Result<
        (bool, Vec<DeviceEvent>),
        Error,
    >)
        requires
            old(self).inv(),
            old(memory).wf(),
        ensures
            final(self).inv(),
            final(self).same_kind(&*old(self)),
            final(memory).wf(),
            final(memory).base == old(memory).base,
            old(self).write_done(&*final(self), *old(memory), *final(memory), offset, value@, r),
    ;
}

impl<D: VirtioDevice> Device for VirtioMmio<D> {
    open spec fn inv(&self) -> bool {
        self.wf()
    }

    open spec fn same_kind(&self, other: &Self) -> bool {
        true
    }

    open spec fn write_done(
        &self,
        new: &Self,
        m0: GuestMemory,
        m1: GuestMemory,
        offset: u64,
        src: Seq<u8>,
        r: Result<(bool, Vec<DeviceEvent>), Error>,
    ) -> bool {
        match r {
            Ok(out) => self.written(new, m0, m1, offset, src, Ok(out)),
            Err(Error::Device(e)) => self.written(new, m0, m1, offset, src, Err(e)),
            Err(Error::NotMapped) => false,
        }
    }

    open spec fn read_outcome(&self, offset: u64, dst: Seq<u8>) -> (Result<bool, Error>, Seq<u8>) {
        let (r, b) = VirtioMmio::read_outcome(self, offset, dst);
        (
            match r {
                Ok(raise) => Ok(raise),
                Err(e) => Err(Error::Device(e)),
            },
            b,
        )
    }

    fn mmio_read(&mut self, memory: &mut GuestMemory, offset: u64, value: &mut Vec<u8>) -> (r: Result<
        bool,
        Error,
    >) {
        match VirtioMmio::mmio_read(&*self, memory, offset, value) {
            Ok(raise) => Ok(raise),
            Err(e) => Err(Error::Device(e)),
        }
    }

    fn mmio_write(&mut self, memory: &mut GuestMemory, offset: u64, value: &[u8]) -> (r: Result<
        (bool, Vec<DeviceEvent>),
        Error,
    >) {
        match VirtioMmio::mmio_write(self, memory, offset, value) {
            Ok(out) => Ok(out),
            Err(e) => Err(Error::Device(e)),
        }
    }
}

/// The address range `[start, end)` of one device.
pub struct Region<D> {
    pub start: GPAddr,
    pub end: GPAddr,
    pub device: D,
}

impl<D> Region<D> {
    /// Whether `gpaddr` lies in the region.
    pub fn contains(&self, gpaddr: GPAddr) -> (r: bool)
        ensures
            r == (self.start.0 <= gpaddr.0 && gpaddr.0 < self.end.0),
    {
        self.start.0 <= gpaddr.0 && gpaddr.0 < self.end.0
    }

    /// Whether `[start, end)` shares an address with the region.
    pub fn overlaps(&self, start: GPAddr, end: GPAddr) -> (r: bool)
        ensures
            r == (self.start.0 < end.0 && start.0 < self.end.0),
    {
        self.start.0 < end.0 && start.0 < self.end.0
    }
}

/// The index of the first region from `from` on that holds `addr`, or -1.
pub open spec fn region_from<D>(regions: Seq<Region<D>>, addr: int, from: int) -> int
    decreases regions.len() - from,
{
    if from < 0 || from >= regions.len() {
        -1
    } else if regions[from].start.0 <= addr < regions[from].end.0 {
        from
    } else {
        region_from(regions, addr, from + 1)
    }
}

/// The index of the region that holds `addr`, or -1.
pub open spec fn region_of<D>(regions: Seq<Region<D>>, addr: int) -> int {
    region_from(regions, addr, 0)
}

pub proof fn lemma_region_from<D>(regions: Seq<Region<D>>, addr: int, from: int)
    requires
        0 <= from,
    ensures
        region_from(regions, addr, from) == -1 || (from <= region_from(regions, addr, from)
            < regions.len() && regions[region_from(regions, addr, from)].start.0 <= addr
            < regions[region_from(regions, addr, from)].end.0),
        region_from(regions, addr, from) == -1 ==> forall|i: int|
            from <= i < regions.len() ==> !((#[trigger] regions[i]).start.0 <= addr < regions[i].end.0),
    decreases regions.len() - from,
{
    if from < regions.len() && !(regions[from].start.0 <= addr < regions[from].end.0) {
        lemma_region_from(regions, addr, from + 1);
    }
}

/// The devices on the bus and where they are mapped.
pub struct Bus<D> {
    pub regions: Vec<Region<D>>,
}

impl<D: Device> Bus<D> {
    /// Every region is a nonempty range, no two share an address, and
    /// every device is consistent.
    pub open spec fn wf(&self) -> bool {
        &&& forall|i: int|
            0 <= i < self.regions@.len() ==> (#[trigger] self.regions@[i]).start.0 <= self.regions@[i].end.0
                && self.regions@[i].device.inv()
        &&& forall|i: int, j: int|
            0 <= i < self.regions@.len() && 0 <= j < self.regions@.len() && i != j ==> !(
            #[trigger] self.regions@[i].start.0 < #[trigger] self.regions@[j].end.0
                && self.regions@[j].start.0 < self.regions@[i].end.0)
    }

    pub fn new() -> (r: Bus<D>)
        ensures
            r.wf(),
            r.regions@.len() == 0,
    {
        Bus { regions: Vec::new() }
    }

    /// Maps `device` at `[start, start + size)`, which must not overlap a
    /// region already mapped.
    pub fn add_device(&mut self, start: GPAddr, size: usize, device: D)
        requires
            old(self).wf(),
            device.inv(),
            start.0 + size <= usize::MAX,
            forall|i: int|
                0 <= i < old(self).regions@.len() ==> !((#[trigger] old(self).regions@[i]).start.0
                    < start.0 + size && start.0 < old(self).regions@[i].end.0),
        ensures
            final(self).wf(),
            final(self).regions@ == old(self).regions@.push(
                Region { start, end: GPAddr((start.0 + size) as usize), device },
            ),
    {
        let end = GPAddr::new(start.0 + size);
        self.regions.push(Region { start, end, device });
    }

    /// The index of the region that holds `gpaddr`, and the offset of
    /// `gpaddr` in it.
    fn find_mmio_device(&self, gpaddr: GPAddr) -> (r: Result<(usize, u64), Error>)
        requires
            self.wf(),
        ensures
            region_of(self.regions@, gpaddr.0 as int) == -1 ==> r == Err::<(usize, u64), Error>(
                Error::NotMapped,
            ),
            region_of(self.regions@, gpaddr.0 as int) != -1 ==> (r matches Ok((i, offset)) && i
                == region_of(self.regions@, gpaddr.0 as int) && offset == gpaddr.0
                - self.regions@[i as int].start.0),
    {
        proof {
            lemma_region_from(self.regions@, gpaddr.0 as int, 0);
        }
        let mut i: usize = 0;
        while i < self.regions.len()
            invariant
                i <= self.regions@.len(),
                region_of(self.regions@, gpaddr.0 as int) == region_from(
                    self.regions@,
                    gpaddr.0 as int,
                    i as int,
                ),
            decreases self.regions@.len() - i,
        {
            if self.regions[i].contains(gpaddr) {
                let offset = gpaddr.0 - self.regions[i].start.0;
                return Ok((i, offset as u64));
            }
            i += 1;
        }
        Err(Error::NotMapped)
    }

    /// Reads from the device mapped at `gpaddr`, at the offset of `gpaddr`
    /// in its region. Returns whether that device's interrupt line is to be
    /// raised.
    pub fn read(&mut self, memory: &mut GuestMemory, gpaddr: GPAddr, value: &mut Vec<u8>) -> (r: Result<
        bool,
        Error,
    >)
        requires
            old(self).wf(),
            old(memory).wf(),
        ensures
            *final(memory) == *old(memory),
            final(self).regions@ == old(self).regions@,
            region_of(old(self).regions@, gpaddr.0 as int) != -1 ==> (r, final(value)@) == old(self).regions@[region_of(
                old(self).regions@,
                gpaddr.0 as int,
            )].device.read_outcome(
                (gpaddr.0 - old(self).regions@[region_of(old(self).regions@, gpaddr.0 as int)].start.0) as u64,
                old(value)@,
            ),
            region_of(old(self).regions@, gpaddr.0 as int) == -1 ==> final(value)@ == old(value)@,
            final(self).wf(),
            final(memory).wf(),
            final(memory).base == old(memory).base,
            final(self).regions@.len() == old(self).regions@.len(),
            region_of(old(self).regions@, gpaddr.0 as int) == -1 ==> r == Err::<bool, Error>(
                Error::NotMapped,
            ) && final(self).regions@ == old(self).regions@ && final(memory).ram@ == old(memory).ram@,
            forall|j: int|
                0 <= j < old(self).regions@.len() && j != region_of(old(self).regions@, gpaddr.0 as int)
                    ==> #[trigger] final(self).regions@[j] == old(self).regions@[j],
            region_of(old(self).regions@, gpaddr.0 as int) != -1 ==> final(self).regions@[region_of(
                old(self).regions@,
                gpaddr.0 as int,
            )].device.same_kind(&old(self).regions@[region_of(old(self).regions@, gpaddr.0 as int)].device),
    {
        proof {
            lemma_region_from(self.regions@, gpaddr.0 as int, 0);
        }
        let (i, offset) = match self.find_mmio_device(gpaddr) {
            Ok(found) => found,
            Err(e) => return Err(e),
        };
        let ghost old_regions = self.regions@;
        let mut region = self.regions.remove(i);
        let r = region.device.mmio_read(memory, offset, value);
        self.regions.insert(i, region);
        proof {
            lemma_region_update(old_regions, i as int, region);
            assert(self.regions@ =~= old_regions.update(i as int, region));
        }
        r
    }

    /// Writes to the device mapped at `gpaddr`, at the offset of `gpaddr`
    /// in its region. Returns whether that device's interrupt line is to be
    /// raised, and what it hands on.
    pub fn write(&mut self, memory: &mut GuestMemory, gpaddr: GPAddr, value: &[u8]) -> (r: Result<
        (bool, Vec<DeviceEvent>),
        Error,
    >)
        requires
            old(self).wf(),
            old(memory).wf(),
        ensures
            region_of(old(self).regions@, gpaddr.0 as int) != -1 ==> ({
                let i = region_of(old(self).regions@, gpaddr.0 as int);
                &&& final(self).regions@[i].start == old(self).regions@[i].start
                &&& final(self).regions@[i].end == old(self).regions@[i].end
                &&& old(self).regions@[i].device.write_done(
                    &final(self).regions@[i].device,
                    *old(memory),
                    *final(memory),
                    (gpaddr.0 - old(self).regions@[i].start.0) as u64,
                    value@,
                    r,
                )
            }),
            final(self).wf(),
            final(memory).wf(),
            final(memory).base == old(memory).base,
            final(self).regions@.len() == old(self).regions@.len(),
            region_of(old(self).regions@, gpaddr.0 as int) == -1 ==> r == Err::<
                (bool, Vec<DeviceEvent>),
                Error,
            >(Error::NotMapped) && final(self).regions@ == old(self).regions@ && final(memory).ram@
                == old(memory).ram@,
            forall|j: int|
                0 <= j < old(self).regions@.len() && j != region_of(old(self).regions@, gpaddr.0 as int)
                    ==> #[trigger] final(self).regions@[j] == old(self).regions@[j],
            region_of(old(self).regions@, gpaddr.0 as int) != -1 ==> final(self).regions@[region_of(
                old(self).regions@,
                gpaddr.0 as int,
            )].device.same_kind(&old(self).regions@[region_of(old(self).regions@, gpaddr.0 as int)].device),
    {
        proof {
            lemma_region_from(self.regions@, gpaddr.0 as int, 0);
        }
        let (i, offset) = match self.find_mmio_device(gpaddr) {
            Ok(found) => found,
            Err(e) => return Err(e),
        };
        let ghost old_regions = self.regions@;
        let mut region = self.regions.remove(i);
        let r = region.device.mmio_write(memory, offset, value);
        self.regions.insert(i, region);
        proof {
            lemma_region_update(old_regions, i as int, region);
            assert(self.regions@ =~= old_regions.update(i as int, region));
        }
        r
    }
}

/// Replacing a region's device keeps the bus consistent where the new
/// device is.
proof fn lemma_region_update<D: Device>(regions: Seq<Region<D>>, i: int, region: Region<D>)
    requires
        0 <= i < regions.len(),
        region.start == regions[i].start,
        region.end == regions[i].end,
        region.device.inv(),
    ensures
        forall|j: int|
            0 <= j < regions.len() ==> (#[trigger] regions.update(i, region)[j]).start == regions[j].start
                && regions.update(i, region)[j].end == regions[j].end,
{
}

} // verus!
