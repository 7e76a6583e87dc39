use rp2350::cortexm33::{
    CortexM33, CortexMVariant, EntryPoint, FIRST_INTERRUPT_EXCEPTION, HARD_FAULT_EXCEPTION,
    SVC_EXCEPTION, SYSTICK_EXCEPTION,
};
use rp2350::syscall::{ReturnReason, SwitchStatus, SysCall, YIELD_CALL};

fn status(hard_fault: bool, svc_fired: bool, svc_number: u8) -> SwitchStatus {
    SwitchStatus { hard_fault, svc_fired, svc_number, arguments: [1, 2, 3, 4] }
}

#[test]
fn a_supervisor_call_is_a_system_call_with_its_number_and_arguments() {
    let boundary = SysCall::new();
    assert_eq!(
        boundary.classify(&status(false, true, 2)),
        ReturnReason::SyscallFired { number: 2, arguments: [1, 2, 3, 4] }
    );
    assert_eq!(
        boundary.classify(&status(false, true, 255)),
        ReturnReason::SyscallFired { number: 255, arguments: [1, 2, 3, 4] }
    );
}

#[test]
fn the_yield_call_is_a_yield() {
    assert_eq!(YIELD_CALL, 0);
    assert_eq!(SysCall::new().classify(&status(false, true, 0)), ReturnReason::Yield);
}

#[test]
fn a_fault_outranks_a_supervisor_call() {
    let boundary = SysCall::new();
    assert_eq!(boundary.classify(&status(true, false, 0)), ReturnReason::Fault);
    assert_eq!(boundary.classify(&status(true, true, 0)), ReturnReason::Fault);
    assert_eq!(boundary.classify(&status(true, true, 5)), ReturnReason::Fault);
}

#[test]
fn without_fault_or_call_the_process_was_interrupted() {
    let boundary = SysCall::new();
    assert_eq!(boundary.classify(&status(false, false, 0)), ReturnReason::Interrupted);
    assert_eq!(boundary.classify(&status(false, false, 9)), ReturnReason::Interrupted);
}

#[test]
fn the_four_entry_points_sit_at_their_exceptions() {
    assert_eq!(CortexM33::entry_point(HARD_FAULT_EXCEPTION), Some(EntryPoint::HardFault));
    assert_eq!(CortexM33::entry_point(SVC_EXCEPTION), Some(EntryPoint::Svc));
    assert_eq!(CortexM33::entry_point(SYSTICK_EXCEPTION), Some(EntryPoint::SysTick));
    assert_eq!(CortexM33::entry_point(FIRST_INTERRUPT_EXCEPTION), Some(EntryPoint::GenericIsr));
    assert_eq!(CortexM33::entry_point(16 + 255), Some(EntryPoint::GenericIsr));
    assert_eq!(CortexM33::entry_point(16 + 256), None);
    assert_eq!(CortexM33::entry_point(u32::MAX), None);
    for exception in [0u32, 1, 2, 4, 5, 6, 7, 8, 9, 10, 12, 13, 14] {
        assert_eq!(CortexM33::entry_point(exception), None);
    }
}

#[test]
fn an_entry_point_is_installed_four_bytes_per_exception() {
    assert_eq!(CortexM33::vector_offset(EntryPoint::HardFault, 3), Some(0x0c));
    assert_eq!(CortexM33::vector_offset(EntryPoint::Svc, 11), Some(0x2c));
    assert_eq!(CortexM33::vector_offset(EntryPoint::SysTick, 15), Some(0x3c));
    assert_eq!(CortexM33::vector_offset(EntryPoint::GenericIsr, 16), Some(0x40));
    assert_eq!(CortexM33::vector_offset(EntryPoint::GenericIsr, 16 + 25), Some(0xa4));
    assert_eq!(CortexM33::vector_offset(EntryPoint::GenericIsr, 271), Some(1084));
}

#[test]
fn an_entry_point_has_no_place_at_another_exception() {
    assert_eq!(CortexM33::vector_offset(EntryPoint::GenericIsr, 3), None);
    assert_eq!(CortexM33::vector_offset(EntryPoint::HardFault, 11), None);
    assert_eq!(CortexM33::vector_offset(EntryPoint::Svc, 15), None);
    assert_eq!(CortexM33::vector_offset(EntryPoint::SysTick, 16), None);
    assert_eq!(CortexM33::vector_offset(EntryPoint::GenericIsr, 272), None);
    assert_eq!(CortexM33::vector_offset(EntryPoint::HardFault, 0), None);
}
