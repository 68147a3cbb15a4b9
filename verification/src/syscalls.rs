//! The user side of the system calls: the immediate of each `svc` instruction, and the reading
//! of what the kernel hands back in its two result registers (a status, 0 for success, and a
//! value).
use vstd::prelude::*;
use crate::exception::Return;

verus! {

/// `svc` immediate of the call that writes bytes to the serial output.
pub const SVC_WRITE: u16 = 0x1000;

/// `svc` immediate of the call that ends the calling execution.
pub const SVC_EXIT: u16 = 0x2000;

/// `svc` immediate of the call that allocates a page.
pub const SVC_ALLOC_PAGE: u16 = 0x3000;

/// `svc` immediate of the call that sets the execution's context.
pub const SVC_EXEC: u16 = 0x4000;

/// `svc` immediate of the call that unblocks an execution.
pub const SVC_UNBLOCK: u16 = 0x5000;

/// `svc` immediate of the call that forks the calling execution.
pub const SVC_FORK: u16 = 0x8000;

/// `svc` immediate of the return from a signal handler.
pub const SVC_ERET: u16 = 0x0;

/// Whether a status register holds one of the two statuses the kernel returns.
pub open spec fn is_status(status: u64) -> bool {
    status == 0 || status == 1
}

/// The page an allocation returned: `Some` of its address on success, `None` on failure.
pub fn alloc_page(status: u64, page: u64) -> (r: Option<u64>)
    requires
        is_status(status),
    ensures
        r == (if status == 0 { Some(page) } else { None::<u64> }),
{
    if status == 0 {
        Some(page)
    } else {
        None
    }
}

/// Whether a write succeeded.
pub fn write(status: u64) -> (r: bool)
    requires
        is_status(status),
    ensures
        r == (status == 0),
{
    status == 0
}

/// The result of setting the execution's context; the call only returns when it failed.
pub fn exec(status: u64) -> (r: Result<(), ()>)
    requires
        status == 1,
    ensures
        r is Err,
{
    Err(())
}

/// Whether an unblock succeeded.
pub fn unblock(status: u64) -> (r: Result<(), ()>)
    requires
        is_status(status),
    ensures
        r is Ok <==> status == 0,
{
    if status == 0 {
        Ok(())
    } else {
        Err(())
    }
}

/// The pid of the execution, from the read-only thread register the kernel keeps it in.
pub fn getpid(tpidrro_el0: u64) -> (r: u16)
    requires
        tpidrro_el0 <= u16::MAX,
    ensures
        r == tpidrro_el0,
{
    tpidrro_el0 as u16
}

/// What a fork returned to this execution: the parent, whose pid is unchanged, gets `Some` of
/// the child's pid; the child gets `None`.
pub fn fork(pid_before: u16, pid_after: u16, new_pid: u64) -> (r: Option<u16>)
    requires
        pid_before == pid_after ==> new_pid <= u16::MAX,
    ensures
        r == (if pid_before == pid_after { Some(new_pid as u16) } else { None::<u16> }),
{
    if pid_before == pid_after {
        Some(new_pid as u16)
    } else {
        None
    }
}

/// The flags of the init program's own mappings: privileged execute-never, not global,
/// accessed, inner shareable, accessible at EL0, valid.
pub const INIT_TABLE_ENTRY_BASE: u64 = 0x0020_0000_0000_0F43;

/// Where the init program maps the page at `pa` to virtual address `va` in its own table: the
/// byte offset of the descriptor in the table, and the descriptor.
pub fn temporary_map(va: usize, pa: u64) -> (r: (usize, u64))
    requires
        (va >> 16usize) * 8 <= usize::MAX,
    ensures
        r.0 == (va >> 16usize) * 8,
        r.1 == INIT_TABLE_ENTRY_BASE | pa,
{
    let index = va >> 16usize;
    (index * 8, INIT_TABLE_ENTRY_BASE | pa)
}

/// An exception the kernel delivers to a program's general handler.
#[derive(Clone, Copy, Debug, PartialEq, Eq, Structural)]
pub enum UserException {
    /// A page fault, with the kernel's information about it.
    PageFault(u64),
    /// A signal from the execution with this pid.
    UserSignal(u16),
}

/// Dispatches an exception delivered to the general handler: page faults (code 2) and signals
/// (code 3, whose argument is the sender's pid); preemption and resumption (codes 0 and 1)
/// never reach it.
pub fn general_handler(exception_code: u64, arg0: u64) -> (r: UserException)
    requires
        exception_code == 2 || exception_code == 3,
        exception_code == 3 ==> arg0 <= u16::MAX,
    ensures
        exception_code == 2 ==> r == UserException::PageFault(arg0),
        exception_code == 3 ==> r == UserException::UserSignal(arg0 as u16),
{
    if exception_code == 2 {
        UserException::PageFault(arg0)
    } else {
        UserException::UserSignal(arg0 as u16)
    }
}

/// The kernel's answer to a page allocation reads back as the page it allocated, or as no
/// page when it had none.
pub proof fn law_alloc_page_round_trip(page: Option<u64>, ret: Return)
    requires
        ret == (match page {
            Some(addr) => Return { status: 0, value: addr },
            None => Return { status: 1, value: 0 },
        }),
    ensures
        is_status(ret.status),
        (if ret.status == 0 { Some(ret.value) } else { None::<u64> }) == page,
{
}

/// The kernel's answer to a call that succeeds or fails reads back as that outcome.
pub proof fn law_outcome_round_trip(succeeded: bool, ret: Return)
    requires
        ret == (if succeeded { Return { status: 0, value: 0 } } else { Return { status: 1, value: 0 } }),
    ensures
        is_status(ret.status),
        (ret.status == 0) == succeeded,
{
}

} // verus!
