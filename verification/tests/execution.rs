use rpi_os::exception::{ExceptionSyndrome, Return};
use rpi_os::execution::{ContextError, ExceptionCode, Execution, UserContext, UserPointer};
use rpi_os::execution_map::{ExecutionMap, ForkError};
use rpi_os::machine::{InvalidAddr, ValidAddr};
use rpi_os::memory::{PageAllocator, PhysicalPage, WriteablePage, PAGE_SIZE};

fn with_page(pa: u64) -> Execution {
    let mut e = Execution::new(0, 0, 0, 3);
    e.add_writable_page(WriteablePage::new(PhysicalPage::new(pa)));
    e
}

#[test]
fn exception_codes_round_trip() {
    assert_eq!(ExceptionCode::PageFault.into_bits(), 2);
    assert_eq!(ExceptionCode::from_bits(3), Some(ExceptionCode::UserSignal));
    assert_eq!(ExceptionCode::from_bits(4), None);
}

#[test]
fn user_context_push_then_pop_gives_same_slot() {
    let mut c = UserContext { exception_vector: 0x1000, exception_stack: 0x2000 };
    let pushed = c.push();
    assert_eq!(pushed, UserPointer(0x2000));
    assert_eq!(c.exception_stack, 0x2008);
    let popped = c.pop();
    assert_eq!(popped, UserPointer(0x2000));
    assert_eq!(c.exception_stack, 0x2000);
}

#[test]
fn set_context_reports_each_error_in_order() {
    let mut e = with_page(4 * PAGE_SIZE);
    assert_eq!(e.set_context(0x10, 4 * PAGE_SIZE + 1, 0), Err(ContextError::MisalignedTtbr0));
    assert_eq!(e.set_context(0x10, 9 * PAGE_SIZE, 0), Err(ContextError::InaccessibleTtbr0));
    assert_eq!(e.set_context(0x11, 4 * PAGE_SIZE + 0x40, 0), Err(ContextError::MisalignedUserContext));
    assert_eq!(
        e.set_context(0x0001_0000_0000_0000, 4 * PAGE_SIZE, 0),
        Err(ContextError::InaccessibleUserContext)
    );
    assert_eq!(e.set_context(0x10, 4 * PAGE_SIZE + 0x40, 0), Ok(()));
}

#[test]
fn context_failures_have_distinct_statuses() {
    assert_eq!(Return::set_context_failure(ContextError::InaccessibleTtbr0).status, 0b010);
    assert_eq!(Return::set_context_failure(ContextError::MisalignedTtbr0).status, 0b011);
    assert_eq!(Return::set_context_failure(ContextError::InvalidTcrBits).status, 0b100);
    assert_eq!(Return::set_context_failure(ContextError::InaccessibleUserContext).status, 0b110);
    assert_eq!(Return::set_context_failure(ContextError::MisalignedUserContext).status, 0b111);
}

#[test]
fn pages_are_found_by_physical_address() {
    let mut e = with_page(4 * PAGE_SIZE);
    e.add_writable_page(WriteablePage::new(PhysicalPage::new(2 * PAGE_SIZE)));
    e.add_writable_page(WriteablePage::new(PhysicalPage::new(7 * PAGE_SIZE)));
    assert!(e.contains_pa(2 * PAGE_SIZE + 0x123));
    assert!(e.contains_pa_writeable(7 * PAGE_SIZE));
    assert!(!e.contains_pa(3 * PAGE_SIZE));
    assert!(e.validate_user_pointer(Ok(ValidAddr(4 * PAGE_SIZE + 8))));
    assert!(!e.validate_user_pointer(Err(InvalidAddr(0))));
    assert!(e.validate_user_pointer_writeable(Ok(ValidAddr(2 * PAGE_SIZE))));
    assert!(!e.validate_user_pointer_writeable(Ok(ValidAddr(5 * PAGE_SIZE))));
}

#[test]
fn unblock_then_block_consumes_the_token() {
    let mut e = Execution::new(0, 0, 0, 1);
    assert!(!e.unblock());
    assert!(!e.block());
    assert!(e.block());
    assert!(e.unblock());
}

#[test]
fn unblock_is_idempotent_while_running() {
    let mut e = Execution::new(0, 0, 0, 1);
    assert!(!e.unblock());
    assert!(!e.unblock());
    assert!(!e.block());
    assert!(e.block());
}

#[test]
fn latest_signal_is_delivered_first() {
    let mut e = Execution::new(0, 0, 0, 1);
    e.add_signal(5);
    e.add_signal(9);
    assert_eq!(e.pop_signal(), Some(9));
    assert_eq!(e.pop_signal(), Some(5));
    assert_eq!(e.pop_signal(), None);
}

#[test]
fn page_bits_follow_the_granule() {
    let e = Execution::new(0b01 << 14, 0, 0, 1);
    assert_eq!(e.page_bits(), 16);
    assert_eq!(e.pid(), 1);
}

#[test]
fn execution_map_reuses_lowest_free_pid() {
    let mut m = ExecutionMap::new();
    assert_eq!(m.create(0, 0, 0), 0);
    assert_eq!(m.create(0, 0, 0), 1);
    assert_eq!(m.create(0, 0, 0), 2);
    assert!(m.remove(1).is_some());
    assert!(m.get(1).is_none());
    assert_eq!(m.create(0, 0, 0), 1);
    assert_eq!(m.get(1).unwrap().pid(), 1);
}

#[test]
fn fork_copies_under_a_new_pid() {
    let mut alloc = PageAllocator::new(&[(0, 2 * PAGE_SIZE)], &[]).unwrap();
    let mut m = ExecutionMap::new();
    let parent = m.create(0, 0x40, 0x80);
    assert_eq!(m.fork(5, &mut alloc), Err(ForkError::SrcNotValid));
    let child = m.fork(parent, &mut alloc).unwrap();
    assert_eq!(child, 1);
    assert_eq!(m.get(child).unwrap().pid(), child);
}

#[test]
fn fork_takes_a_reference_on_every_page() {
    let mut alloc = PageAllocator::new(&[(0, 2 * PAGE_SIZE)], &[]).unwrap();
    let page = alloc.allocate().unwrap();
    assert_eq!(page.addr(), 0);
    let mut m = ExecutionMap::new();
    let parent = m.create(0, 0, 0);
    m.add_writable_page(parent, page);
    assert!(m.get(parent).unwrap().contains_pa_writeable(0x10));
    let child = m.fork(parent, &mut alloc).unwrap();
    assert!(m.get(child).unwrap().contains_pa_writeable(0));
    alloc.remove_ref(0);
    assert_eq!(alloc.allocate().unwrap().addr(), PAGE_SIZE);
    alloc.remove_ref(0);
    assert_eq!(alloc.allocate().unwrap().addr(), 0);
}

#[test]
fn map_operations_reach_the_execution() {
    let mut m = ExecutionMap::new();
    let pid = m.create(0, 0, 0);
    assert_eq!(m.unblock(9), None);
    assert_eq!(m.unblock(pid), Some(false));
    assert!(m.add_signal(pid, 4));
    assert!(!m.add_signal(7, 4));
    let mut e = m.remove(pid).unwrap();
    assert_eq!(e.pop_signal(), Some(4));
    assert!(!e.block());
}

#[test]
fn syndrome_fields_decode() {
    let esr = ExceptionSyndrome((0x15u64 << 26) | (1 << 25) | 0x3000);
    assert_eq!(esr.instruction_syndrome(), 0x3000);
}

#[test]
fn synchronous_jump_pushes_three_words() {
    let mut c = UserContext { exception_vector: 0x1000, exception_stack: 0x20 };
    let (fault, x1, x0) = rpi_os::execution::prepare_synchronous_jump(&mut c);
    assert_eq!((fault, x1, x0), (UserPointer(0x20), UserPointer(0x28), UserPointer(0x30)));
    assert_eq!(c.exception_stack, 0x38);
    assert_eq!(c.pop(), UserPointer(0x30));
}

#[test]
fn asynchronous_jump_installs_the_execution() {
    let e = Execution::new(0x99, 0x40_0000, 0x10, 2);
    let j = e.jump_into_async(None, ExceptionCode::Resumption, 7);
    assert_eq!(
        j,
        rpi_os::execution::Jump {
            ttbr0: 0x40_0000,
            tcr_el1: 0x99,
            spsr_el1: 0,
            x0: 1,
            x1: 7,
            user_context: 0x10,
            install_current: true,
        }
    );
    assert!(!e.jump_into_async(Some(2), ExceptionCode::PageFault, 0).install_current);
}
