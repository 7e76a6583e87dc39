//! The boundary between the kernel and a process: why the processor came
//! back to the kernel after it was switched to a process.

use vstd::prelude::*;

verus! {

/// Number of the supervisor call by which a process yields.
pub const YIELD_CALL: u8 = 0;

/// What the exception entry points recorded between the switch to a process
/// and the return to the kernel.
#[derive(Clone, Copy, Debug)]
pub struct SwitchStatus {
    /// The hard-fault entry point ran.
    pub hard_fault: bool,
    /// The supervisor-call entry point ran.
    pub svc_fired: bool,
    /// The number of the supervisor call. It means something only where
    /// `svc_fired` is set.
    pub svc_number: u8,
    /// The four argument registers of the process at the call.
    pub arguments: [usize; 4],
}

/// Why the processor came back to the kernel.
#[derive(Clone, Copy, Debug, PartialEq, Eq)]
pub enum ReturnReason {
    /// The process made a system call.
    SyscallFired { number: u8, arguments: [usize; 4] },
    /// The process gave up the processor.
    Yield,
    /// The process faulted.
    Fault,
    /// An interrupt took the processor from the process. The line is still
    /// pending and waits for the kernel.
    Interrupted,
}

/// The reason that a status stands for. A fault outranks a supervisor call,
/// and with neither of them the process was interrupted.
pub open spec fn reason_of(status: SwitchStatus) -> ReturnReason {
    if status.hard_fault {
        ReturnReason::Fault
    } else if status.svc_fired {
        if status.svc_number == YIELD_CALL {
            ReturnReason::Yield
        } else {
            ReturnReason::SyscallFired { number: status.svc_number, arguments: status.arguments }
        }
    } else {
        ReturnReason::Interrupted
    }
}

/// The mechanism that switches to a process and back. It keeps nothing
/// between two switches.
#[derive(Clone, Copy, Debug)]
pub struct SysCall {}

impl SysCall {
    pub fn new() -> (boundary: Self) {
        SysCall {  }
    }

    /// Why the processor came back, from what the entry points recorded.
    pub fn classify(&self, status: &SwitchStatus) -> (reason: ReturnReason)
        ensures
            reason == reason_of(*status),
    {
        if status.hard_fault {
            ReturnReason::Fault
        } else if status.svc_fired {
            if status.svc_number == YIELD_CALL {
                ReturnReason::Yield
            } else {
                ReturnReason::SyscallFired {
                    number: status.svc_number,
                    arguments: status.arguments,
                }
            }
        } else {
            ReturnReason::Interrupted
        }
    }
}

} // verus!
