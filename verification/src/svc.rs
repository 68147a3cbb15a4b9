//! The kernel's handling of a system call: what it does to the executions and to physical
//! memory, and what the caller gets back.
//!
//! The caller decodes the request (see `decode_syscall`), calls `handle` with the current
//! execution, and carries out the outcome: the serial output, the switch into an execution, or
//! the writing of the result registers.
use vstd::prelude::*;
use crate::exception::{Return, SyscallRequest, context_failure_status};
use crate::execution::{ExecutionView, context_result, token_after_block, token_after_unblock};
use crate::execution_map::{ExecutionMap, has_vacancy, next_pid, placed};
use crate::memory::{
    PageAllocator, RegionView, after_allocation, allocated_page, refs_addable, refs_removable,
    with_added_refs, with_removed_refs,
};

verus! {

/// What the caller of `handle` does next.
#[derive(Clone, Copy, Debug, PartialEq, Eq, Structural)]
pub enum SyscallOutcome {
    /// Write the `len` bytes at user address `data` to the serial output; the call then
    /// succeeds.
    Print { data: u64, len: u64 },
    /// The calling execution has ended: run something else.
    Exit,
    /// Resume the calling execution, with the resumption code and `argument`.
    Resume { argument: u64 },
    /// Return `ret` to the caller.
    Return(Return),
    /// Make the execution `pid` runnable, and return `ret` to the caller.
    ReturnAndRun { ret: Return, pid: u16 },
    /// The caller blocked: run something else; it gets `ret` once it is woken.
    ReturnAfterWake(Return),
}

/// The success of a call that returns no value.
pub open spec fn succeeded() -> Return {
    Return { status: 0, value: 0 }
}

/// The failure of a call.
pub open spec fn failed() -> Return {
    Return { status: 1, value: 0 }
}

/// What `handle` needs of the state: the calling execution exists; a page it is handed is not
/// already in its write set; it is not blocked when it blocks; a fork has a pid to give and
/// can take a reference on every page; an exit can give back the references its pages hold.
pub open spec fn handle_allowed(
    request: SyscallRequest,
    current: u16,
    executions: Seq<Option<ExecutionView>>,
    memory: Seq<RegionView>,
) -> bool {
    &&& current < executions.len()
    &&& executions[current as int] is Some
    &&& (request is AllocPage && allocated_page(memory) is Some) ==> !executions[current as int].unwrap().writeable.contains(
        allocated_page(memory).unwrap(),
    )
    &&& request is Block ==> executions[current as int].unwrap().token != 0
    &&& request is Fork ==> (has_vacancy(executions) || executions.len() <= u16::MAX) && refs_addable(
        memory,
        executions[current as int].unwrap().writeable + executions[current as int].unwrap().readable,
    )
    &&& request is Exit ==> refs_removable(
        memory,
        executions[current as int].unwrap().writeable + executions[current as int].unwrap().readable,
    )
}

/// Carries out the system call `request` of the execution `current`.
pub fn handle(
    request: SyscallRequest,
    current: u16,
    executions: &mut ExecutionMap,
    allocator: &mut PageAllocator,
) -> (r: SyscallOutcome)
    requires
        old(executions).wf(),
        old(allocator).wf(),
        handle_allowed(request, current, old(executions)@, old(allocator)@),
    ensures
        final(executions).wf(),
        final(allocator).wf(),
        ({
            let e = old(executions)@[current as int].unwrap();
            let held = e.writeable + e.readable;
            match request {
                SyscallRequest::Print { data, len } => r == (SyscallOutcome::Print { data, len })
                    && final(executions)@ == old(executions)@ && final(allocator)@ == old(allocator)@,
                SyscallRequest::Exit => r == SyscallOutcome::Exit && final(executions)@ == old(executions)@.update(current as int, None) && final(allocator)@ == with_removed_refs(
                    old(allocator)@,
                    held,
                ),
                SyscallRequest::AllocPage => match allocated_page(old(allocator)@) {
                    Some(page) => {
                        &&& r == SyscallOutcome::Return(Return { status: 0, value: page })
                        &&& final(allocator)@ == after_allocation(old(allocator)@)
                        &&& final(executions)@.len() == old(executions)@.len()
                        &&& forall|i: int|
                            0 <= i < old(executions)@.len() && i != current ==> final(executions)@[i]
                                == old(executions)@[i]
                        &&& final(executions)@[current as int] is Some
                        &&& final(executions)@[current as int].unwrap().writeable.to_set()
                            == e.writeable.to_set().insert(page)
                        &&& exists|pos: int| #![trigger e.writeable.insert(pos, page)]
                            0 <= pos <= e.writeable.len() && final(executions)@[current as int].unwrap()
                                == (ExecutionView { writeable: e.writeable.insert(pos, page), ..e })
                    },
                    None => r == SyscallOutcome::Return(failed()) && final(executions)@ == old(executions)@ && final(allocator)@ == old(allocator)@,
                },
                SyscallRequest::SetInfo { user_context, ttbr0, tcr_el1, argument } => final(allocator)@ == old(allocator)@ && match context_result(e, user_context, ttbr0) {
                    Ok(()) => r == (SyscallOutcome::Resume { argument }) && final(executions)@ == old(executions)@.update(current as int, Some(ExecutionView { ttbr0, user_context, ..e })),
                    Err(err) => r == SyscallOutcome::Return(
                        Return { status: context_failure_status(err), value: 0 },
                    ) && final(executions)@ == old(executions)@,
                },
                SyscallRequest::Unblock { pid } => final(allocator)@ == old(allocator)@ && match pid {
                    Some(p) => if p < old(executions)@.len() && old(executions)@[p as int] is Some {
                        let t = old(executions)@[p as int].unwrap();
                        &&& r == (if t.token == 0 {
                            SyscallOutcome::ReturnAndRun { ret: succeeded(), pid: p }
                        } else {
                            SyscallOutcome::Return(succeeded())
                        })
                        &&& final(executions)@ == old(executions)@.update(
                            p as int,
                            Some(ExecutionView { token: token_after_unblock(t.token), ..t }),
                        )
                    } else {
                        r == SyscallOutcome::Return(failed()) && final(executions)@ == old(executions)@
                    },
                    None => r == SyscallOutcome::Return(failed()) && final(executions)@ == old(executions)@,
                },
                SyscallRequest::Block => {
                    &&& r == (if e.token == 1 {
                        SyscallOutcome::ReturnAfterWake(succeeded())
                    } else {
                        SyscallOutcome::Return(succeeded())
                    })
                    &&& final(executions)@ == old(executions)@.update(
                        current as int,
                        Some(ExecutionView { token: token_after_block(e.token), ..e }),
                    )
                    &&& final(allocator)@ == old(allocator)@
                },
                SyscallRequest::SendSignal { target } => final(allocator)@ == old(allocator)@
                    && if target < old(executions)@.len() && old(executions)@[target as int] is Some {
                    let t = old(executions)@[target as int].unwrap();
                    &&& r == SyscallOutcome::Return(succeeded())
                    &&& final(executions)@ == old(executions)@.update(
                        target as int,
                        Some(ExecutionView { pending_messages: t.pending_messages.push(current), ..t }),
                    )
                } else {
                    r == SyscallOutcome::Return(failed()) && final(executions)@ == old(executions)@
                },
                SyscallRequest::Fork => {
                    let pid = next_pid(old(executions)@);
                    &&& r == (SyscallOutcome::ReturnAndRun {
                        ret: Return { status: 0, value: pid as u64 },
                        pid: pid as u16,
                    })
                    &&& final(executions)@ == placed(
                        old(executions)@,
                        pid,
                        ExecutionView { pid: pid as u16, ..e },
                    )
                    &&& final(allocator)@ == with_added_refs(old(allocator)@, held)
                },
            }
        }),
{
    match request {
        SyscallRequest::Print { data, len } => SyscallOutcome::Print { data, len },
        SyscallRequest::Exit => {
            executions.exit(current, allocator);
            SyscallOutcome::Exit
        },
        SyscallRequest::AllocPage => {
            match allocator.allocate() {
                Some(page) => {
                    let addr = page.addr();
                    executions.add_writable_page(current, page);
                    SyscallOutcome::Return(Return::from_page(Some(addr)))
                },
                None => SyscallOutcome::Return(Return::failure()),
            }
        },
        SyscallRequest::SetInfo { user_context, ttbr0, tcr_el1, argument } => {
            match executions.set_context(current, user_context, ttbr0, tcr_el1) {
                Some(Ok(())) => SyscallOutcome::Resume { argument },
                Some(Err(err)) => SyscallOutcome::Return(Return::set_context_failure(err)),
                None => {
                    proof {
                        assert(false);
                    }
                    SyscallOutcome::Return(Return::failure())
                },
            }
        },
        SyscallRequest::Unblock { pid } => {
            match pid {
                Some(p) => match executions.unblock(p) {
                    Some(true) => SyscallOutcome::ReturnAndRun { ret: Return::success(0), pid: p },
                    Some(false) => SyscallOutcome::Return(Return::success(0)),
                    None => SyscallOutcome::Return(Return::failure()),
                },
                None => SyscallOutcome::Return(Return::failure()),
            }
        },
        SyscallRequest::Block => {
            match executions.block(current) {
                Some(true) => SyscallOutcome::ReturnAfterWake(Return::success(0)),
                Some(false) => SyscallOutcome::Return(Return::success(0)),
                None => {
                    proof {
                        assert(false);
                    }
                    SyscallOutcome::Return(Return::failure())
                },
            }
        },
        SyscallRequest::SendSignal { target } => {
            if executions.add_signal(target, current) {
                SyscallOutcome::Return(Return::success(0))
            } else {
                SyscallOutcome::Return(Return::failure())
            }
        },
        SyscallRequest::Fork => {
            match executions.fork(current, allocator) {
                Ok(pid) => SyscallOutcome::ReturnAndRun { ret: Return::success(pid as u64), pid },
                Err(_) => {
                    proof {
                        assert(false);
                    }
                    SyscallOutcome::Return(Return::failure())
                },
            }
        },
    }
}

} // verus!
