use rpi_os::exception::{
    dispatch_el0_exception, instruction_abort_info, page_fault_calls_signal,
    page_fault_return, page_fault_translation_address, tlb_invalidation_operand, AccessType,
    CallCode, El0Exception, ExceptionClass, ExceptionSyndrome, InstructionAbortIS, StatusCode,
    SvcIS,
};
use rpi_os::execution::Execution;
use rpi_os::machine::ValidAddr;
use rpi_os::memory::{PhysicalPage, WriteablePage};

#[test]
fn exception_classes_decode() {
    let svc = ExceptionSyndrome((0b010_101u64 << 26) | (1 << 25));
    assert_eq!(svc.exception_class(), ExceptionClass::SvcAArch64);
    assert_eq!(ExceptionClass::DataAbortEL0.into_bits(), 0b100_100);
    assert_eq!(ExceptionClass::from_bits(0b100_000), ExceptionClass::InstructionAbortEL0);
    assert_eq!(SvcIS(0x3000).code(), CallCode::AllocPage);
    assert_eq!(StatusCode::from_bits(1), StatusCode::TranslationFault);
}

#[test]
fn el0_exceptions_dispatch() {
    let data = ExceptionSyndrome((0b100_100u64 << 26) | 0x45);
    assert_eq!(dispatch_el0_exception(data), El0Exception::DataAbort(0x45));
    let eret = ExceptionSyndrome(0b010_101u64 << 26);
    assert_eq!(dispatch_el0_exception(eret), El0Exception::Eret);
    let abort = ExceptionSyndrome((0b100_000u64 << 26) | 0x5);
    assert_eq!(dispatch_el0_exception(abort), El0Exception::InstructionAbort(InstructionAbortIS(0x5)));
}

#[test]
fn instruction_abort_describes_page_fault() {
    let iss = InstructionAbortIS((0b0001 << 2) | 0b10);
    let info = instruction_abort_info(iss, 0x1234);
    assert_eq!(info.access_type, AccessType::Instruction);
    assert_eq!(info.code, StatusCode::TranslationFault);
    assert_eq!(info.level, 2);
    assert_eq!(info.faulting_address, Some(0x1234));
    assert_eq!(info.access_bytes, 4);
    assert_eq!(page_fault_translation_address(&info), Some(0x1234));
    let no_far = instruction_abort_info(InstructionAbortIS((1 << 10) | (0b0011 << 2)), 0x1234);
    assert_eq!(no_far.faulting_address, None);
    assert_eq!(page_fault_translation_address(&no_far), None);
}

#[test]
fn translation_faults_on_own_pages_are_resolved() {
    let mut e = Execution::new(0, 0, 0, 1);
    e.add_writable_page(WriteablePage::new(PhysicalPage::new(0x5_0000)));
    let info = instruction_abort_info(InstructionAbortIS(0b0001 << 2), 0x1000);
    assert!(!page_fault_calls_signal(&info, &e, Some(Ok(ValidAddr(0x5_0000)))));
    assert!(page_fault_calls_signal(&info, &e, Some(Ok(ValidAddr(0x6_0000)))));
    let perm = instruction_abort_info(InstructionAbortIS(0b0011 << 2), 0x1000);
    assert!(page_fault_calls_signal(&perm, &e, None));
    assert_eq!(page_fault_return(true, 7, 8, 0x1000), (2, 0x1000));
    assert_eq!(page_fault_return(false, 7, 8, 0x1000), (7, 8));
    assert_eq!(tlb_invalidation_operand(0xFFFF_0000_1234_5678), 0x1_2345);
}
