//! The guest machine that runs Linux: where its RAM, PLIC and virtio
//! devices are, the network it sees, and what the host does each time the
//! vCPU stops.

use vstd::prelude::*;
use crate::address::GPAddr;
use crate::fs::FileSystem;
use crate::guest_memory::GuestMemory;
use crate::mmio::{lemma_region_from, region_from, region_of, Bus, Device, Error, Region};
use crate::net::packet::{Ipv4Addr, MacAddr};
use crate::net::{GuestNet, NetView};
use crate::port_forward::{
    event_handled, flush_path, net_pending, ForwardError, Flushed, Incoming, PortForwarder, Processed,
    FLUSH_LIMIT,
};
use crate::handle::HandleId;
use crate::poll::Readiness;
use crate::virtio::net::{rx_blocked, DeliverError};
use crate::vcpu::{exit_of, ExitError, ExitInfo, VCpuExit, VCpuRunState, VCPU_EXIT_IDLE, VCPU_EXIT_REBOOT};
use crate::virtio::device::{DeviceEvent, VirtioMmio, VIRTIO_MMIO_SIZE};
use crate::virtio::fs::VirtioFs;
use crate::virtio::net::VirtioNet;

verus! {

pub const NUM_CPUS: u32 = 1;

/// 64 MiB of guest RAM.
pub const GUEST_RAM_SIZE: usize = 0x400_0000;

pub const GUEST_RAM_ADDR: usize = 0x8000_0000;

pub const PLIC_BASE_ADDR: usize = 0x0a00_0000;

/// The PLIC's window for `NUM_CPUS` harts.
pub const PLIC_MMIO_SIZE: usize = 0x20_1000;

pub const VIRTIO_FS_ADDR: usize = 0x0b00_0000;

pub const VIRTIO_NET_ADDR: usize = 0x0b00_1000;

pub const VIRTIO_FS_IRQ: u8 = 1;

pub const VIRTIO_NET_IRQ: u8 = 2;

/// The size of the PLIC's window for `num_cpus` harts: 2 MiB, and a page
/// per hart.
pub fn plic_mmio_size(num_cpus: u32) -> (r: usize)
    requires
        0x20_0000 + num_cpus * 0x1000 <= usize::MAX,
    ensures
        r == 0x20_0000 + num_cpus * 0x1000,
{
    0x20_0000 + (num_cpus as usize) * 0x1000
}

/// The machine's windows do not overlap: the PLIC's (sized for
/// `NUM_CPUS`) ends before the virtio-fs device's, which ends where the
/// virtio-net device's begins, which ends before RAM.
pub proof fn law_machine_layout()
    ensures
        PLIC_MMIO_SIZE == 0x20_0000 + NUM_CPUS * 0x1000,
        PLIC_BASE_ADDR + PLIC_MMIO_SIZE <= VIRTIO_FS_ADDR,
        VIRTIO_FS_ADDR + VIRTIO_MMIO_SIZE <= VIRTIO_NET_ADDR,
        VIRTIO_NET_ADDR + VIRTIO_MMIO_SIZE <= GUEST_RAM_ADDR,
{
}

/// Where the device tree blob of `len` bytes goes in the guest's RAM: the
/// last page boundary from which it fits below the end of RAM; `None`
/// where it is larger than RAM.
pub fn fdt_address(len: usize) -> (r: Option<GPAddr>)
    ensures
        len > GUEST_RAM_SIZE ==> r is None,
        len <= GUEST_RAM_SIZE ==> r == Some(
            GPAddr((GUEST_RAM_ADDR + (GUEST_RAM_SIZE - len) / 4096 * 4096) as usize),
        ),
        r matches Some(a) ==> GUEST_RAM_ADDR <= a.0 && a.0 + len <= GUEST_RAM_ADDR + GUEST_RAM_SIZE && a.0
            % 4096 == 0,
{
    if len > GUEST_RAM_SIZE {
        return None;
    }
    let room = GUEST_RAM_SIZE - len;
    let off = room / 4096 * 4096;
    assert(off <= room && off % 4096 == 0) by (nonlinear_arith)
        requires
            off == room / 4096 * 4096,
    ;
    Some(GPAddr::new(GUEST_RAM_ADDR + off))
}

/// The network the guest sees: it is 10.255.0.100/24 with MAC
/// 00:00:00:00:00:01, the host and gateway are 10.255.0.1 with MAC
/// 00:00:00:00:00:02, and the name servers are 8.8.8.8 and 8.8.4.4.
pub fn guest_network() -> (r: GuestNet)
    ensures
        r.wf(),
        r@.guest_ip == seq![10u8, 255, 0, 100],
        r@.host_ip == seq![10u8, 255, 0, 1],
        r@.gw_ip == seq![10u8, 255, 0, 1],
        r@.netmask == seq![255u8, 255, 255, 0],
        r@.guest_mac == seq![0u8, 0, 0, 0, 0, 1],
        r@.host_mac == seq![0u8, 0, 0, 0, 0, 2],
{
    let guest_ip = Ipv4Addr::new(10, 255, 0, 100);
    let host_ip = Ipv4Addr::new(10, 255, 0, 1);
    let gw_ip = Ipv4Addr::new(10, 255, 0, 1);
    let netmask = Ipv4Addr::new(255, 255, 255, 0);
    let dns_servers = [Ipv4Addr::new(8, 8, 8, 8), Ipv4Addr::new(8, 8, 4, 4)];
    let guest_mac = MacAddr::new([0x00, 0x00, 0x00, 0x00, 0x00, 0x01]);
    let host_mac = MacAddr::new([0x00, 0x00, 0x00, 0x00, 0x00, 0x02]);
    let r = GuestNet::new(host_ip, guest_ip, guest_mac, host_mac, gw_ip, netmask, dns_servers);
    assert(r@.guest_ip =~= seq![10u8, 255, 0, 100]);
    assert(r@.host_ip =~= seq![10u8, 255, 0, 1]);
    assert(r@.gw_ip =~= seq![10u8, 255, 0, 1]);
    assert(r@.netmask =~= seq![255u8, 255, 255, 0]);
    assert(r@.guest_mac =~= seq![0u8, 0, 0, 0, 0, 1]);
    assert(r@.host_mac =~= seq![0u8, 0, 0, 0, 0, 2]);
    r
}

/// A device of the guest machine.
pub enum GuestDevice {
    Fs(VirtioMmio<VirtioFs>),
    Net(VirtioMmio<VirtioNet>),
}

impl GuestDevice {
    /// The device's interrupt line.
    pub fn irq(&self) -> (r: u8)
        ensures
            r == match self {
                GuestDevice::Fs(d) => d.irq,
                GuestDevice::Net(d) => d.irq,
            },
    {
        match self {
            GuestDevice::Fs(d) => d.irq,
            GuestDevice::Net(d) => d.irq,
        }
    }
}

impl Device for GuestDevice {
    open spec fn inv(&self) -> bool {
        match self {
            GuestDevice::Fs(d) => d.wf(),
            GuestDevice::Net(d) => d.wf(),
        }
    }

    open spec fn same_kind(&self, other: &Self) -> bool {
        (*self is Fs && *other is Fs) || (*self is Net && *other is Net)
    }

    open spec fn write_done(
        &self,
        new: &Self,
        m0: GuestMemory,
        m1: GuestMemory,
        offset: u64,
        src: Seq<u8>,
        r: Result<(bool, Vec<DeviceEvent>), Error>,
    ) -> bool {
        match (self, new) {
            (GuestDevice::Fs(d), GuestDevice::Fs(n)) => Device::write_done(d, n, m0, m1, offset, src, r),
            (GuestDevice::Net(d), GuestDevice::Net(n)) => Device::write_done(d, n, m0, m1, offset, src, r),
            _ => false,
        }
    }

    open spec fn read_outcome(&self, offset: u64, dst: Seq<u8>) -> (Result<bool, Error>, Seq<u8>) {
        match self {
            GuestDevice::Fs(d) => Device::read_outcome(d, offset, dst),
            GuestDevice::Net(d) => Device::read_outcome(d, offset, dst),
        }
    }

    fn mmio_read(&mut self, memory: &mut GuestMemory, offset: u64, value: &mut Vec<u8>) -> (r: Result<
        bool,
        Error,
    >) {
        match self {
            GuestDevice::Fs(d) => Device::mmio_read(d, memory, offset, value),
            GuestDevice::Net(d) => Device::mmio_read(d, memory, offset, value),
        }
    }

    fn mmio_write(&mut self, memory: &mut GuestMemory, offset: u64, value: &[u8]) -> (r: Result<
        (bool, Vec<DeviceEvent>),
        Error,
    >) {
        match self {
            GuestDevice::Fs(d) => Device::mmio_write(d, memory, offset, value),
            GuestDevice::Net(d) => Device::mmio_write(d, memory, offset, value),
        }
    }
}

/// What the host does after handling an exit.
#[derive(Debug)]
pub enum Step {
    /// The guest rebooted: stop running it.
    Stop,
    /// The guest waits for an interrupt: sleep a while, then run it again.
    Idle,
    /// Run the guest again, raising the interrupt line `irq` first if
    /// there is one, and hand what the devices produced on.
    Continue { irq: Option<u8>, events: Vec<DeviceEvent> },
}

/// Why an exit could not be handled.
#[derive(Debug)]
pub enum MachineError {
    Exit(ExitError),
    Mmio(Error),
}

/// The guest machine: its RAM and its bus of devices.
pub struct Machine {
    pub memory: GuestMemory,
    pub bus: Bus<GuestDevice>,
}

/// A faulted load of a mapped register reads it: the fault's data
/// begins with what the device's read gives (where that fits), and a
/// failing read fails the exit.
pub open spec fn load_handled(
    regions: Seq<Region<GuestDevice>>,
    run0: VCpuRunState,
    run1: VCpuRunState,
    r: Result<Step, MachineError>,
) -> bool {
    run0.exit_reason != VCPU_EXIT_REBOOT && run0.exit_reason != VCPU_EXIT_IDLE ==> (exit_of(run0) matches Ok(
        (_, pf),
    ) ==> (pf.kind is Load ==> (region_of(regions, pf.gpaddr.0 as int) != -1 ==> ({
        let i = region_of(regions, pf.gpaddr.0 as int);
        let (res, bytes) = regions[i].device.read_outcome(
            (pf.gpaddr.0 - regions[i].start.0) as u64,
            pf.data@.subrange(0, pf.width as int),
        );
        &&& res matches Err(e) ==> (r matches Err(MachineError::Mmio(e2)) && e2 == e)
        &&& res is Ok && bytes.len() <= 8 ==> (r matches Ok(Step::Continue { .. }) && run1.exit_info
            matches ExitInfo::PageFault(pf1) && pf1.data@ == bytes + pf.data@.subrange(bytes.len() as int, 8))
    }))))
}

/// The host's answer to an exit mirrors the bus's answer to a write: the
/// interrupt line where one is to be raised, and what the device handed
/// on; or the bus's error.
pub open spec fn mirrors_write(line: u8, res: Result<(bool, Vec<DeviceEvent>), Error>, r: Result<Step, MachineError>) -> bool {
    match res {
        Ok((raise, events)) => r matches Ok(Step::Continue { irq, events: ev }) && ev == events && irq == (if raise {
            Some(line)
        } else {
            None
        }),
        Err(e) => r matches Err(MachineError::Mmio(e2)) && e2 == e,
    }
}

/// A faulted store to a mapped register writes it: the device and the RAM
/// change as the device's write of the fault's first `width` bytes does.
pub open spec fn store_handled(
    regions0: Seq<Region<GuestDevice>>,
    regions1: Seq<Region<GuestDevice>>,
    m0: GuestMemory,
    m1: GuestMemory,
    run0: VCpuRunState,
    r: Result<Step, MachineError>,
) -> bool {
    run0.exit_reason != VCPU_EXIT_REBOOT && run0.exit_reason != VCPU_EXIT_IDLE ==> (exit_of(run0) matches Ok(
        (_, pf),
    ) ==> (pf.kind is Store ==> (region_of(regions0, pf.gpaddr.0 as int) != -1 ==> ({
        let i = region_of(regions0, pf.gpaddr.0 as int);
        exists|res: Result<(bool, Vec<DeviceEvent>), Error>|
            #[trigger] regions0[i].device.write_done(
                &regions1[i].device,
                m0,
                m1,
                (pf.gpaddr.0 - regions0[i].start.0) as u64,
                pf.data@.subrange(0, pf.width as int),
                res,
            ) && mirrors_write(regions0[i].device.spec_irq(), res, r)
    }))))
}

impl Machine {
    pub open spec fn wf(&self) -> bool {
        &&& self.memory.wf()
        &&& self.bus.wf()
        &&& self.bus.regions@.len() == 2
        &&& self.bus.regions@[1].device is Net
    }

    /// The machine with `memory` as its RAM, the file system `fs` behind
    /// the virtio-fs device and the network `guest_net` behind the
    /// virtio-net device, each at its address with its interrupt line.
    pub fn new(memory: GuestMemory, fs: FileSystem, guest_net: GuestNet) -> (r: Machine)
        requires
            memory.wf(),
            fs.wf(),
            guest_net.wf(),
        ensures
            r.wf(),
            r.memory == memory,
            r.bus.regions@.len() == 2,
            r.bus.regions@[0].start.0 == VIRTIO_FS_ADDR,
            r.bus.regions@[0].end.0 == VIRTIO_FS_ADDR + VIRTIO_MMIO_SIZE,
            r.bus.regions@[0].device matches GuestDevice::Fs(d) && d.irq == VIRTIO_FS_IRQ && d.device.fs == fs,
            r.bus.regions@[1].start.0 == VIRTIO_NET_ADDR,
            r.bus.regions@[1].end.0 == VIRTIO_NET_ADDR + VIRTIO_MMIO_SIZE,
            r.bus.regions@[1].device matches GuestDevice::Net(d) && d.irq == VIRTIO_NET_IRQ
                && d.device.guest_net == guest_net && d.device.guest_mac.0@ == guest_net@.guest_mac,
    {
        let guest_mac = guest_net.guest_mac;
        let virtio_fs = VirtioMmio::new(VIRTIO_FS_IRQ, VirtioFs::new(fs));
        let virtio_net = VirtioMmio::new(VIRTIO_NET_IRQ, VirtioNet::new(guest_mac, guest_net));
        let mut bus: Bus<GuestDevice> = Bus::new();
        bus.add_device(GPAddr::new(VIRTIO_FS_ADDR), VIRTIO_MMIO_SIZE, GuestDevice::Fs(virtio_fs));
        bus.add_device(GPAddr::new(VIRTIO_NET_ADDR), VIRTIO_MMIO_SIZE, GuestDevice::Net(virtio_net));
        Machine { memory, bus }
    }

    /// Handles the exit the vCPU recorded in `run`: a reboot stops the
    /// guest, idling waits; a faulted load reads the device register into
    /// the fault's data, a faulted store writes it; the device's interrupt
    /// line is raised where the access asks for it.
    pub fn handle_exit(&mut self, run: &mut VCpuRunState) -> (r: Result<Step, MachineError>)
        requires
            old(self).wf(),
        ensures
            final(self).wf(),
            final(self).memory.base == old(self).memory.base,
            old(run).exit_reason == VCPU_EXIT_REBOOT ==> r matches Ok(Step::Stop),
            old(run).exit_reason == VCPU_EXIT_IDLE ==> r matches Ok(Step::Idle),
            old(run).exit_reason != VCPU_EXIT_REBOOT && old(run).exit_reason != VCPU_EXIT_IDLE ==> match exit_of(
                *old(run),
            ) {
                Err(e) => (r matches Err(MachineError::Exit(e2)) && e2 == e),
                Ok((_, pf)) => region_of(old(self).bus.regions@, pf.gpaddr.0 as int) == -1 ==> (r matches Err(
                    MachineError::Mmio(Error::NotMapped),
                ) && final(self).bus.regions@ == old(self).bus.regions@ && final(self).memory.ram@ == old(
                    self,
                ).memory.ram@),
            },
            r matches Ok(Step::Continue { irq: Some(line), .. }) ==> exists|i: int|
                0 <= i < old(self).bus.regions@.len() && line == (#[trigger] old(self).bus.regions@[i]).device.spec_irq(),
            load_handled(old(self).bus.regions@, *old(run), *final(run), r),
            store_handled(
                old(self).bus.regions@,
                final(self).bus.regions@,
                old(self).memory,
                final(self).memory,
                *old(run),
                r,
            ),
    {
        let exit = match run.as_exit() {
            Ok(exit) => exit,
            Err(e) => {
                return Err(MachineError::Exit(e));
            },
        };
        match exit {
            VCpuExit::Reboot => Ok(Step::Stop),
            VCpuExit::Idle => Ok(Step::Idle),
            VCpuExit::LoadPageFault { gpaddr, width } => {
                let pf = *run.exit_info.as_page_fault();
                let mut value: Vec<u8> = Vec::new();
                let mut i: usize = 0;
                while i < width
                    invariant
                        i <= width <= 8,
                        value@ == pf.data@.subrange(0, i as int),
                    decreases width - i,
                {
                    value.push(pf.data[i]);
                    proof {
                        assert(value@ =~= pf.data@.subrange(0, i + 1));
                    }
                    i += 1;
                }
                let line = self.irq_at(gpaddr);
                let raise = match self.bus.read(&mut self.memory, gpaddr, &mut value) {
                    Ok(raise) => raise,
                    Err(e) => {
                        return Err(MachineError::Mmio(e));
                    },
                };
                if value.len() <= 8 {
                    run.complete_load(value.as_slice());
                }
                Ok(Step::Continue { irq: if raise { line } else { None }, events: Vec::new() })
            },
            VCpuExit::StorePageFault { gpaddr, data } => {
                let line = self.irq_at(gpaddr);
                let ghost regions0 = self.bus.regions@;
                let ghost m0 = self.memory;
                let res = self.bus.write(&mut self.memory, gpaddr, data.as_slice());
                let ghost res0 = res;
                let r = match res {
                    Ok((raise, events)) => Ok(Step::Continue { irq: if raise { line } else { None }, events }),
                    Err(e) => Err(MachineError::Mmio(e)),
                };
                proof {
                    if region_of(regions0, gpaddr.0 as int) != -1 {
                        let i = region_of(regions0, gpaddr.0 as int);
                        assert(regions0[i].device.write_done(
                            &self.bus.regions@[i].device,
                            m0,
                            self.memory,
                            (gpaddr.0 - regions0[i].start.0) as u64,
                            data@,
                            res0,
                        ));
                        assert(mirrors_write(regions0[i].device.spec_irq(), res0, r));
                    }
                }
                r
            },
        }
    }

    /// The interrupt line of the device mapped at `gpaddr`, if any.
    fn irq_at(&self, gpaddr: GPAddr) -> (r: Option<u8>)
        ensures
            region_of(self.bus.regions@, gpaddr.0 as int) == -1 ==> r is None,
            region_of(self.bus.regions@, gpaddr.0 as int) != -1 ==> r == Some(
                self.bus.regions@[region_of(self.bus.regions@, gpaddr.0 as int)].device.spec_irq(),
            ),
            r matches Some(line) ==> exists|i: int|
                0 <= i < self.bus.regions@.len() && line == (#[trigger] self.bus.regions@[i]).device.spec_irq(),
    {
        proof {
            lemma_region_from(self.bus.regions@, gpaddr.0 as int, 0);
        }
        let mut i: usize = 0;
        while i < self.bus.regions.len()
            invariant
                i <= self.bus.regions@.len(),
                region_of(self.bus.regions@, gpaddr.0 as int) == region_from(self.bus.regions@, gpaddr.0 as int, i as int),
            decreases self.bus.regions@.len() - i,
        {
            if self.bus.regions[i].contains(gpaddr) {
                let line = self.bus.regions[i].device.irq();
                assert(line == self.bus.regions@[i as int].device.spec_irq());
                return Some(line);
            }
            i += 1;
        }
        None
    }
}

impl Machine {
    /// Hands an event of the forwarder's channel `h` to the forwarder,
    /// with the virtio-net device and the RAM, as `process_event` says.
    pub fn forward_event(&mut self, fwd: &mut PortForwarder, h: HandleId, readiness: Readiness, incoming: Incoming) -> (r: Result<
        Processed,
        ForwardError,
    >)
        requires
            old(self).wf(),
        ensures
            final(self).wf(),
            final(self).memory.base == old(self).memory.base,
            final(self).bus.regions@[0] == old(self).bus.regions@[0],
            final(self).bus.regions@[1].start == old(self).bus.regions@[1].start,
            final(self).bus.regions@[1].end == old(self).bus.regions@[1].end,
            event_handled(
                *old(fwd),
                *final(fwd),
                old(self).bus.regions@[1].device->Net_0,
                final(self).bus.regions@[1].device->Net_0,
                old(self).memory,
                final(self).memory,
                h,
                readiness,
                incoming,
                r,
            ),
    {
        let ghost regions0 = self.bus.regions@;
        let mut region = self.bus.regions.remove(1);
        let r = match &mut region.device {
            GuestDevice::Net(d) => fwd.process_event(d, &mut self.memory, h, readiness, incoming),
            GuestDevice::Fs(_) => Ok(Processed::Ignored),
        };
        self.bus.regions.insert(1, region);
        proof {
            assert(self.bus.regions@ =~= regions0.update(1, region));
            assert(forall|j: int| 0 <= j < 2 ==> (#[trigger] self.bus.regions@[j]).start == regions0[j].start && self.bus.regions@[j].end == regions0[j].end);
        }
        r
    }

    /// Sends the network's pending packets to the guest, as the
    /// forwarder's `flush_pending_packets` says; returns whether none is
    /// left and whether the network's interrupt line is to be raised.
    pub fn flush_pending_packets(&mut self, fwd: &PortForwarder) -> (r: Result<Flushed, DeliverError>)
        requires
            old(self).wf(),
        ensures
            final(self).wf(),
            final(self).memory.base == old(self).memory.base,
            final(self).bus.regions@[0] == old(self).bus.regions@[0],
            final(self).bus.regions@[1].start == old(self).bus.regions@[1].start,
            final(self).bus.regions@[1].end == old(self).bus.regions@[1].end,
            r matches Ok(f) ==> f.done == !net_pending(final(self).bus.regions@[1].device->Net_0.device.guest_net@)
                && f.irq == (final(self).bus.regions@[1].device->Net_0.irq_status != 0),
            !net_pending(old(self).bus.regions@[1].device->Net_0.device.guest_net@) ==> r == Ok::<
                Flushed,
                DeliverError,
            >(Flushed { done: true, irq: old(self).bus.regions@[1].device->Net_0.irq_status != 0 })
                && final(self).bus.regions@ == old(self).bus.regions@ && final(self).memory == old(self).memory,
            net_pending(old(self).bus.regions@[1].device->Net_0.device.guest_net@) ==> (rx_blocked(
                old(self).bus.regions@[1].device->Net_0.queues@[0],
                old(self).memory,
            ) matches Some(e) ==> r == Err::<Flushed, DeliverError>(e)
                && final(self).bus.regions@[1].device->Net_0.device.guest_net@ == old(
                self,
            ).bus.regions@[1].device->Net_0.device.guest_net@),
            r matches Err(e) ==> ((e is NoReceiveBuffer || e is QueueAddressOverflow) ==> rx_blocked(
                final(self).bus.regions@[1].device->Net_0.queues@[0],
                final(self).memory,
            ) == Some(e)),
            exists|p: Seq<NetView>|
                #[trigger] flush_path(
                    p,
                    old(self).bus.regions@[1].device->Net_0.device.guest_net@,
                    final(self).bus.regions@[1].device->Net_0.device.guest_net@,
                ) && p.len() <= FLUSH_LIMIT + 1 && (r matches Ok(f) && !f.done ==> p.len() == FLUSH_LIMIT + 1),
    {
        let ghost regions0 = self.bus.regions@;
        let mut region = self.bus.regions.remove(1);
        let r = match &mut region.device {
            GuestDevice::Net(d) => fwd.flush_pending_packets(d, &mut self.memory),
            GuestDevice::Fs(_) => Ok(Flushed { done: true, irq: false }),
        };
        self.bus.regions.insert(1, region);
        proof {
            assert(self.bus.regions@ =~= regions0.update(1, region));
            let gv = regions0[1].device->Net_0.device.guest_net@;
            let gw = region.device->Net_0.device.guest_net@;
            if !net_pending(gv) {
                assert(region == regions0[1]);
                assert(self.bus.regions@ =~= regions0);
            }
            let p = choose|p: Seq<NetView>|
                #[trigger] flush_path(p, gv, gw) && p.len() <= FLUSH_LIMIT + 1 && (r matches Ok(f) && !f.done
                    ==> p.len() == FLUSH_LIMIT + 1);
            assert(self.bus.regions@[1] == region);
            assert(flush_path(p, gv, gw));
            assert(forall|j: int| 0 <= j < 2 ==> (#[trigger] self.bus.regions@[j]).start == regions0[j].start && self.bus.regions@[j].end == regions0[j].end);
        }
        r
    }
}

impl GuestDevice {
    pub open spec fn spec_irq(&self) -> u8 {
        match self {
            GuestDevice::Fs(d) => d.irq,
            GuestDevice::Net(d) => d.irq,
        }
    }
}

} // verus!
