//! The state a virtual CPU shares with the kernel: the interrupts to
//! inject, and why the vCPU last stopped running.

use vstd::prelude::*;
use crate::address::GPAddr;

verus! {

pub const VCPU_EXIT_NONE: u8 = 0x0;
pub const VCPU_EXIT_PAGE_FAULT: u8 = 0x1;
pub const VCPU_EXIT_REBOOT: u8 = 0x2;
pub const VCPU_EXIT_IDLE: u8 = 0x3;

/// The access that faulted.
#[derive(Debug, Clone, Copy, PartialEq, Eq, Structural)]
pub enum ExitPageFaultKind {
    NoAccess,
    Load,
    Store,
    Execute,
}

impl ExitPageFaultKind {
    /// The kind's number in the exit record.
    pub fn as_u8(self) -> (r: u8)
        ensures
            r == match self {
                ExitPageFaultKind::NoAccess => 0u8,
                ExitPageFaultKind::Load => 1u8,
                ExitPageFaultKind::Store => 2u8,
                ExitPageFaultKind::Execute => 3u8,
            },
    {
        match self {
            ExitPageFaultKind::NoAccess => 0,
            ExitPageFaultKind::Load => 1,
            ExitPageFaultKind::Store => 2,
            ExitPageFaultKind::Execute => 3,
        }
    }
}

/// The load instruction that faulted: its destination register.
#[derive(Debug, Clone, Copy, PartialEq, Eq, Structural, Default)]
pub struct LoadInst {
    pub rd: u8,
}

/// A guest page fault on an address no memory backs: the address, the
/// bytes (stored, or to be loaded), the access and its width.
#[derive(Debug, Clone, Copy)]
pub struct ExitPageFault {
    pub gpaddr: GPAddr,
    pub data: [u8; 8],
    pub kind: ExitPageFaultKind,
    pub width: u8,
    pub load_inst: LoadInst,
    pub inst_len: u8,
}

/// What comes with an exit: nothing, or a page fault.
#[derive(Debug, Clone, Copy)]
pub enum ExitInfo {
    Empty,
    PageFault(ExitPageFault),
}

impl ExitInfo {
    pub fn empty() -> (r: ExitInfo)
        ensures
            r == ExitInfo::Empty,
    {
        ExitInfo::Empty
    }

    pub fn page_fault(page_fault: ExitPageFault) -> (r: ExitInfo)
        ensures
            r == ExitInfo::PageFault(page_fault),
    {
        ExitInfo::PageFault(page_fault)
    }

    /// The page fault this exit carries.
    pub fn as_page_fault(&self) -> (r: &ExitPageFault)
        requires
            *self is PageFault,
        ensures
            *r == self->PageFault_0,
    {
        match self {
            ExitInfo::PageFault(pf) => pf,
            ExitInfo::Empty => vstd::pervasive::unreached(),
        }
    }
}

/// Why the vCPU stopped, as the host handles it.
#[derive(Debug, Clone)]
pub enum VCpuExit {
    /// The guest asked to reboot.
    Reboot,
    /// The guest waits for an interrupt.
    Idle,
    /// The guest loads `width` bytes from `gpaddr`.
    LoadPageFault { gpaddr: GPAddr, width: usize },
    /// The guest stores `data` at `gpaddr`.
    StorePageFault { gpaddr: GPAddr, data: Vec<u8> },
}

/// An exit record the host cannot make sense of.
#[derive(Debug, Clone, Copy, PartialEq, Eq, Structural)]
pub enum ExitError {
    /// The exit reason is none the host knows.
    UnexpectedExitReason(u8),
    /// A page fault that is neither a load nor a store.
    UnexpectedPageFaultKind(u8),
    /// A page fault wider than its data.
    BadWidth(u8),
    /// A page fault without its record.
    MissingPageFault,
}

/// The state a vCPU shares with the kernel.
#[derive(Debug, Clone, Copy)]
pub struct VCpuRunState {
    pub irqs: u32,
    pub exit_reason: u8,
    pub exit_info: ExitInfo,
}

/// How the host reads an exit record.
pub open spec fn exit_of(s: VCpuRunState) -> Result<(u8, ExitPageFault), ExitError> {
    if s.exit_reason == VCPU_EXIT_PAGE_FAULT {
        match s.exit_info {
            ExitInfo::Empty => Err(ExitError::MissingPageFault),
            ExitInfo::PageFault(pf) => if pf.width > 8 {
                Err(ExitError::BadWidth(pf.width))
            } else if pf.kind is Load || pf.kind is Store {
                Ok((s.exit_reason, pf))
            } else {
                Err(
                    ExitError::UnexpectedPageFaultKind(
                        match pf.kind {
                            ExitPageFaultKind::NoAccess => 0u8,
                            ExitPageFaultKind::Load => 1u8,
                            ExitPageFaultKind::Store => 2u8,
                            ExitPageFaultKind::Execute => 3u8,
                        },
                    ),
                )
            },
        }
    } else {
        Err(ExitError::UnexpectedExitReason(s.exit_reason))
    }
}

impl VCpuRunState {
    /// A state with no interrupt to inject and no exit.
    pub fn new() -> (r: VCpuRunState)
        ensures
            r.irqs == 0,
            r.exit_reason == VCPU_EXIT_NONE,
            r.exit_info == ExitInfo::Empty,
    {
        VCpuRunState { irqs: 0, exit_reason: VCPU_EXIT_NONE, exit_info: ExitInfo::empty() }
    }

    /// Why the vCPU stopped: a reboot, idling, or a page fault, which is a
    /// load or a store of the first `width` bytes of its data; any other
    /// record is an error.
    pub fn as_exit(&self) -> (r: Result<VCpuExit, ExitError>)
        ensures
            self.exit_reason == VCPU_EXIT_REBOOT ==> r == Ok::<VCpuExit, ExitError>(VCpuExit::Reboot),
            self.exit_reason == VCPU_EXIT_IDLE ==> r == Ok::<VCpuExit, ExitError>(VCpuExit::Idle),
            self.exit_reason != VCPU_EXIT_REBOOT && self.exit_reason != VCPU_EXIT_IDLE ==> match exit_of(*self) {
                Err(e) => r == Err::<VCpuExit, ExitError>(e),
                Ok((_, pf)) => if pf.kind is Load {
                    r == Ok::<VCpuExit, ExitError>(
                        VCpuExit::LoadPageFault { gpaddr: pf.gpaddr, width: pf.width as usize },
                    )
                } else {
                    r matches Ok(VCpuExit::StorePageFault { gpaddr, data }) && gpaddr == pf.gpaddr && data@
                        == pf.data@.subrange(0, pf.width as int)
                },
            },
    {
        if self.exit_reason == VCPU_EXIT_REBOOT {
            return Ok(VCpuExit::Reboot);
        }
        if self.exit_reason == VCPU_EXIT_IDLE {
            return Ok(VCpuExit::Idle);
        }
        if self.exit_reason != VCPU_EXIT_PAGE_FAULT {
            return Err(ExitError::UnexpectedExitReason(self.exit_reason));
        }
        let pf = match self.exit_info {
            ExitInfo::Empty => {
                return Err(ExitError::MissingPageFault);
            },
            ExitInfo::PageFault(pf) => pf,
        };
        if pf.width > 8 {
            return Err(ExitError::BadWidth(pf.width));
        }
        match pf.kind {
            ExitPageFaultKind::Load => Ok(VCpuExit::LoadPageFault { gpaddr: pf.gpaddr, width: pf.width as usize }),
            ExitPageFaultKind::Store => {
                let mut data: Vec<u8> = Vec::new();
                let mut i: usize = 0;
                while i < pf.width as usize
                    invariant
                        i <= pf.width <= 8,
                        data@ == pf.data@.subrange(0, i as int),
                    decreases pf.width - i,
                {
                    data.push(pf.data[i]);
                    proof {
                        assert(data@ =~= pf.data@.subrange(0, i + 1));
                    }
                    i += 1;
                }
                Ok(VCpuExit::StorePageFault { gpaddr: pf.gpaddr, data })
            },
            kind => Err(ExitError::UnexpectedPageFaultKind(kind.as_u8())),
        }
    }

    /// Hands the guest the value of a faulted load: the first bytes of the
    /// page fault's data become `value`.
    pub fn complete_load(&mut self, value: &[u8])
        requires
            old(self).exit_info is PageFault,
            value@.len() <= 8,
        ensures
            final(self).irqs == old(self).irqs,
            final(self).exit_reason == old(self).exit_reason,
            final(self).exit_info is PageFault,
            final(self).exit_info->PageFault_0 == (ExitPageFault {
                data: final(self).exit_info->PageFault_0.data,
                ..old(self).exit_info->PageFault_0
            }),
            final(self).exit_info->PageFault_0.data@ == value@ + old(self).exit_info->PageFault_0.data@.subrange(
                value@.len() as int,
                8,
            ),
    {
        let mut pf = *self.exit_info.as_page_fault();
        let ghost d0 = pf.data@;
        let ghost pf0 = pf;
        let mut i: usize = 0;
        while i < value.len()
            invariant
                pf == (ExitPageFault { data: pf.data, ..pf0 }),
                i <= value@.len() <= 8,
                pf.data@.len() == 8,
                pf.data@ == value@.subrange(0, i as int) + d0.subrange(i as int, 8),
                d0.len() == 8,
            decreases value@.len() - i,
        {
            pf.data[i] = value[i];
            proof {
                assert(pf.data@ =~= value@.subrange(0, i + 1) + d0.subrange(i + 1, 8));
            }
            i += 1;
        }
        proof {
            assert(value@.subrange(0, value@.len() as int) =~= value@);
        }
        self.exit_info = ExitInfo::PageFault(pf);
    }
}

} // verus!
