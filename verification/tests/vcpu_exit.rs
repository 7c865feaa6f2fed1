use starina::address::GPAddr;
use starina::vcpu::{
    ExitError, ExitInfo, ExitPageFault, ExitPageFaultKind, LoadInst, VCpuExit, VCpuRunState, VCPU_EXIT_IDLE,
    VCPU_EXIT_NONE, VCPU_EXIT_PAGE_FAULT, VCPU_EXIT_REBOOT,
};

fn fault(kind: ExitPageFaultKind, width: u8) -> VCpuRunState {
    VCpuRunState {
        irqs: 0,
        exit_reason: VCPU_EXIT_PAGE_FAULT,
        exit_info: ExitInfo::page_fault(ExitPageFault {
            gpaddr: GPAddr::new(0x0b00_0070),
            data: [1, 2, 3, 4, 5, 6, 7, 8],
            kind,
            width,
            load_inst: LoadInst::default(),
            inst_len: 4,
        }),
    }
}

#[test]
fn new_state_has_no_exit() {
    let s = VCpuRunState::new();
    assert_eq!(s.irqs, 0);
    assert_eq!(s.exit_reason, VCPU_EXIT_NONE);
    assert!(matches!(s.exit_info, ExitInfo::Empty));
    assert!(matches!(s.as_exit(), Err(ExitError::UnexpectedExitReason(0))));
}

#[test]
fn reboot_and_idle() {
    let mut s = VCpuRunState::new();
    s.exit_reason = VCPU_EXIT_REBOOT;
    assert!(matches!(s.as_exit(), Ok(VCpuExit::Reboot)));
    s.exit_reason = VCPU_EXIT_IDLE;
    assert!(matches!(s.as_exit(), Ok(VCpuExit::Idle)));
    s.exit_reason = 9;
    assert!(matches!(s.as_exit(), Err(ExitError::UnexpectedExitReason(9))));
}

#[test]
fn store_carries_its_bytes() {
    let s = fault(ExitPageFaultKind::Store, 4);
    match s.as_exit() {
        Ok(VCpuExit::StorePageFault { gpaddr, data }) => {
            assert_eq!(gpaddr, GPAddr::new(0x0b00_0070));
            assert_eq!(data, vec![1, 2, 3, 4]);
        },
        other => panic!("unexpected {:?}", other),
    }
}

#[test]
fn load_then_complete() {
    let mut s = fault(ExitPageFaultKind::Load, 2);
    assert!(matches!(s.as_exit(), Ok(VCpuExit::LoadPageFault { width: 2, .. })));
    s.complete_load(&[0xaa, 0xbb]);
    assert_eq!(s.exit_info.as_page_fault().data, [0xaa, 0xbb, 3, 4, 5, 6, 7, 8]);
    assert_eq!(s.exit_info.as_page_fault().width, 2);
}

#[test]
fn bad_faults_are_errors() {
    assert!(matches!(fault(ExitPageFaultKind::Execute, 4).as_exit(), Err(ExitError::UnexpectedPageFaultKind(3))));
    assert!(matches!(fault(ExitPageFaultKind::NoAccess, 4).as_exit(), Err(ExitError::UnexpectedPageFaultKind(0))));
    assert!(matches!(fault(ExitPageFaultKind::Load, 9).as_exit(), Err(ExitError::BadWidth(9))));
    let mut s = VCpuRunState::new();
    s.exit_reason = VCPU_EXIT_PAGE_FAULT;
    assert!(matches!(s.as_exit(), Err(ExitError::MissingPageFault)));
    assert_eq!(ExitPageFaultKind::Store.as_u8(), 2);
}
