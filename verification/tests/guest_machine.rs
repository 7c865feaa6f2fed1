use starina::address::GPAddr;
use starina::boot::{
    guest_network, plic_mmio_size, Machine, MachineError, Step, GUEST_RAM_ADDR, PLIC_BASE_ADDR, PLIC_MMIO_SIZE,
    VIRTIO_FS_ADDR, VIRTIO_NET_ADDR,
};
use starina::fs::FileSystemBuilder;
use starina::guest_memory::GuestMemory;
use starina::mmio::Error;
use starina::vcpu::{ExitInfo, ExitPageFault, ExitPageFaultKind, LoadInst, VCpuRunState, VCPU_EXIT_IDLE, VCPU_EXIT_PAGE_FAULT, VCPU_EXIT_REBOOT};

fn machine() -> Machine {
    let memory = GuestMemory::new(GPAddr::new(GUEST_RAM_ADDR), 0x1_0000).unwrap();
    Machine::new(memory, FileSystemBuilder::new().build(), guest_network())
}

fn access(kind: ExitPageFaultKind, addr: usize, data: [u8; 8], width: u8) -> VCpuRunState {
    VCpuRunState {
        irqs: 0,
        exit_reason: VCPU_EXIT_PAGE_FAULT,
        exit_info: ExitInfo::page_fault(ExitPageFault {
            gpaddr: GPAddr::new(addr),
            data,
            kind,
            width,
            load_inst: LoadInst::default(),
            inst_len: 4,
        }),
    }
}

#[test]
fn layout_constants() {
    assert_eq!(plic_mmio_size(1), PLIC_MMIO_SIZE);
    assert_eq!(plic_mmio_size(4), 0x20_4000);
    assert!(PLIC_BASE_ADDR + PLIC_MMIO_SIZE <= VIRTIO_FS_ADDR);
    assert_eq!(VIRTIO_NET_ADDR - VIRTIO_FS_ADDR, 0x1000);
}

#[test]
fn guest_network_parameter() {
    assert_eq!(
        guest_network().build_linux_ip_param(),
        "ip=10.255.0.100::10.255.0.1:255.255.255.0::eth0:off:8.8.8.8:8.8.4.4"
    );
}

#[test]
fn reboot_stops_and_idle_waits() {
    let mut m = machine();
    let mut run = VCpuRunState::new();
    run.exit_reason = VCPU_EXIT_REBOOT;
    assert!(matches!(m.handle_exit(&mut run), Ok(Step::Stop)));
    run.exit_reason = VCPU_EXIT_IDLE;
    assert!(matches!(m.handle_exit(&mut run), Ok(Step::Idle)));
}

#[test]
fn load_reads_the_magic_value() {
    let mut m = machine();
    let mut run = access(ExitPageFaultKind::Load, VIRTIO_FS_ADDR, [0; 8], 4);
    assert!(matches!(m.handle_exit(&mut run), Ok(Step::Continue { irq: None, .. })));
    assert_eq!(&run.exit_info.as_page_fault().data[..4], b"virt");
}

#[test]
fn status_written_is_read_back() {
    let mut m = machine();
    let mut run = access(ExitPageFaultKind::Store, VIRTIO_NET_ADDR + 0x70, [0x0f, 0, 0, 0, 0, 0, 0, 0], 4);
    assert!(matches!(m.handle_exit(&mut run), Ok(Step::Continue { .. })));
    let mut run = access(ExitPageFaultKind::Load, VIRTIO_NET_ADDR + 0x70, [0; 8], 4);
    m.handle_exit(&mut run).unwrap();
    assert_eq!(&run.exit_info.as_page_fault().data[..4], &[0x0f, 0, 0, 0]);
    // The other device is untouched.
    let mut run = access(ExitPageFaultKind::Load, VIRTIO_FS_ADDR + 0x70, [9; 8], 4);
    m.handle_exit(&mut run).unwrap();
    assert_eq!(&run.exit_info.as_page_fault().data[..4], &[0, 0, 0, 0]);
}

#[test]
fn access_to_no_device_fails() {
    let mut m = machine();
    let mut run = access(ExitPageFaultKind::Load, 0x1000, [0; 8], 4);
    assert!(matches!(m.handle_exit(&mut run), Err(MachineError::Mmio(Error::NotMapped))));
    let mut run = access(ExitPageFaultKind::Execute, VIRTIO_FS_ADDR, [0; 8], 4);
    assert!(matches!(m.handle_exit(&mut run), Err(MachineError::Exit(_))));
}

fn store32(m: &mut Machine, addr: usize, v: u32) {
    let b = v.to_le_bytes();
    let mut run = access(ExitPageFaultKind::Store, addr, [b[0], b[1], b[2], b[3], 0, 0, 0, 0], 4);
    m.handle_exit(&mut run).unwrap();
}

fn load32(m: &mut Machine, addr: usize) -> u32 {
    let mut run = access(ExitPageFaultKind::Load, addr, [0; 8], 4);
    m.handle_exit(&mut run).unwrap();
    let d = run.exit_info.as_page_fault().data;
    u32::from_le_bytes([d[0], d[1], d[2], d[3]])
}

#[test]
fn feature_words_follow_the_selector() {
    let mut m = machine();
    store32(&mut m, VIRTIO_NET_ADDR + 0x14, 0);
    assert_eq!(load32(&mut m, VIRTIO_NET_ADDR + 0x10), 1 << 5);
    store32(&mut m, VIRTIO_NET_ADDR + 0x14, 1);
    assert_eq!(load32(&mut m, VIRTIO_NET_ADDR + 0x10), 1);
    assert_eq!(load32(&mut m, VIRTIO_NET_ADDR + 0x14), 1);
}

#[test]
fn acknowledging_clears_the_interrupt_status() {
    let mut m = machine();
    store32(&mut m, VIRTIO_FS_ADDR + 0x64, 0xffff_ffff);
    assert_eq!(load32(&mut m, VIRTIO_FS_ADDR + 0x60), 0);
    assert_eq!(load32(&mut m, VIRTIO_FS_ADDR + 0x08), 26);
    assert_eq!(load32(&mut m, VIRTIO_NET_ADDR + 0x08), 1);
    assert_eq!(load32(&mut m, VIRTIO_NET_ADDR + 0x04), 2);
}
