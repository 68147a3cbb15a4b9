use rpi_os::exception::{decode_syscall, ExceptionSyndrome, Return, SyscallRequest};
use rpi_os::execution::ContextError;
use rpi_os::execution_map::ExecutionMap;
use rpi_os::memory::{PageAllocator, PAGE_SIZE};
use rpi_os::svc::{handle, SyscallOutcome};

fn svc(code: u64) -> ExceptionSyndrome {
    ExceptionSyndrome((0b010_101 << 26) | (1 << 25) | code)
}

fn setup() -> (ExecutionMap, PageAllocator, u16) {
    let mut m = ExecutionMap::new();
    let pid = m.create(0, 0, 0);
    let a = PageAllocator::new(&[(0, 4 * PAGE_SIZE)], &[(0, PAGE_SIZE)]).unwrap();
    (m, a, pid)
}

#[test]
fn syscalls_decode() {
    assert_eq!(decode_syscall(svc(0x1000), 0x40, 5, 0, 0), SyscallRequest::Print { data: 0x40, len: 5 });
    assert_eq!(decode_syscall(svc(0x5000), 1 << 20, 0, 0, 0), SyscallRequest::Unblock { pid: None });
    assert_eq!(decode_syscall(svc(0x7000), 3, 0, 0, 0), SyscallRequest::SendSignal { target: 3 });
    assert_eq!(decode_syscall(svc(0x8000), 0, 0, 0, 0), SyscallRequest::Fork);
}

#[test]
fn alloc_page_hands_a_page_to_the_caller() {
    let (mut m, mut a, pid) = setup();
    let r = handle(SyscallRequest::AllocPage, pid, &mut m, &mut a);
    assert_eq!(r, SyscallOutcome::Return(Return { status: 0, value: PAGE_SIZE }));
    assert!(m.get(pid).unwrap().contains_pa_writeable(PAGE_SIZE + 8));
}

#[test]
fn alloc_page_fails_when_memory_is_full() {
    let mut m = ExecutionMap::new();
    let pid = m.create(0, 0, 0);
    let mut a = PageAllocator::new(&[(0, PAGE_SIZE)], &[(0, PAGE_SIZE)]).unwrap();
    let r = handle(SyscallRequest::AllocPage, pid, &mut m, &mut a);
    assert_eq!(r, SyscallOutcome::Return(Return { status: 1, value: 0 }));
}

#[test]
fn set_info_resumes_or_reports_the_error() {
    let (mut m, mut a, pid) = setup();
    handle(SyscallRequest::AllocPage, pid, &mut m, &mut a);
    let bad = SyscallRequest::SetInfo { user_context: 0x10, ttbr0: 0x3 * PAGE_SIZE, tcr_el1: 0, argument: 9 };
    assert_eq!(
        handle(bad, pid, &mut m, &mut a),
        SyscallOutcome::Return(Return::set_context_failure(ContextError::InaccessibleTtbr0))
    );
    let good = SyscallRequest::SetInfo { user_context: 0x10, ttbr0: PAGE_SIZE, tcr_el1: 0, argument: 9 };
    assert_eq!(handle(good, pid, &mut m, &mut a), SyscallOutcome::Resume { argument: 9 });
}

#[test]
fn block_and_unblock_through_system_calls() {
    let (mut m, mut a, pid) = setup();
    let other = m.create(0, 0, 0);
    assert_eq!(handle(SyscallRequest::Block, other, &mut m, &mut a), SyscallOutcome::ReturnAfterWake(Return::success(0)));
    assert_eq!(
        handle(SyscallRequest::Unblock { pid: Some(other) }, pid, &mut m, &mut a),
        SyscallOutcome::ReturnAndRun { ret: Return::success(0), pid: other }
    );
    assert_eq!(
        handle(SyscallRequest::Unblock { pid: Some(other) }, pid, &mut m, &mut a),
        SyscallOutcome::Return(Return::success(0))
    );
    assert_eq!(handle(SyscallRequest::Block, other, &mut m, &mut a), SyscallOutcome::Return(Return::success(0)));
    assert_eq!(
        handle(SyscallRequest::Unblock { pid: Some(40) }, pid, &mut m, &mut a),
        SyscallOutcome::Return(Return::failure())
    );
}

#[test]
fn signals_and_prints() {
    let (mut m, mut a, pid) = setup();
    assert_eq!(handle(SyscallRequest::SendSignal { target: pid }, pid, &mut m, &mut a), SyscallOutcome::Return(Return::success(0)));
    assert_eq!(handle(SyscallRequest::SendSignal { target: 9 }, pid, &mut m, &mut a), SyscallOutcome::Return(Return::failure()));
    assert_eq!(
        handle(SyscallRequest::Print { data: 0x100, len: 3 }, pid, &mut m, &mut a),
        SyscallOutcome::Print { data: 0x100, len: 3 }
    );
}

#[test]
fn fork_then_exit_leaves_memory_as_it_was() {
    let (mut m, mut a, pid) = setup();
    handle(SyscallRequest::AllocPage, pid, &mut m, &mut a);
    let r = handle(SyscallRequest::Fork, pid, &mut m, &mut a);
    assert_eq!(r, SyscallOutcome::ReturnAndRun { ret: Return::success(1), pid: 1 });
    assert_eq!(handle(SyscallRequest::Exit, 1, &mut m, &mut a), SyscallOutcome::Exit);
    assert!(m.get(1).is_none());
    // the page is still held once, by the parent: the next allocation takes another page
    assert_eq!(a.allocate().unwrap().addr(), 2 * PAGE_SIZE);
    assert_eq!(handle(SyscallRequest::Exit, pid, &mut m, &mut a), SyscallOutcome::Exit);
    assert_eq!(a.allocate().unwrap().addr(), PAGE_SIZE);
}

#[test]
fn user_side_immediates_name_the_kernel_calls() {
    use_immediates();
}

fn use_immediates() {
    let fork = rpi_os::syscalls::SVC_FORK as u64;
    assert_eq!(decode_syscall(svc(fork), 0, 0, 0, 0), SyscallRequest::Fork);
    let unblock = rpi_os::syscalls::SVC_UNBLOCK as u64;
    assert_eq!(decode_syscall(svc(unblock), 1 << 20, 0, 0, 0), SyscallRequest::Unblock { pid: None });
    let print = rpi_os::syscalls::SVC_WRITE as u64;
    assert_eq!(decode_syscall(svc(print), 0x40, 5, 0, 0), SyscallRequest::Print { data: 0x40, len: 5 });
}
