//! The table of all executions, indexed by process id.
use vstd::prelude::*;
use crate::execution::{ContextError, Execution, ExecutionView, context_result, token_after_block, token_after_unblock, view_contains_pa};
use crate::memory::{PageAllocator, WriteablePage, refs_addable, refs_removable, with_added_refs, with_removed_refs};

verus! {

/// Reasons why a fork fails.
#[derive(Clone, Copy, Debug, PartialEq, Eq, Structural)]
pub enum ForkError {
    NoMem,
    NoPid,
    SrcNotValid,
}

/// The index of the first vacant slot, or the number of slots if none is vacant.
pub open spec fn first_vacant(slots: Seq<Option<ExecutionView>>) -> int
    decreases slots.len(),
{
    if slots.len() == 0 {
        0
    } else if slots[0] is None {
        0
    } else {
        1 + first_vacant(slots.drop_first())
    }
}

/// Whether some slot is vacant.
pub open spec fn has_vacancy(slots: Seq<Option<ExecutionView>>) -> bool {
    exists|i: int| 0 <= i < slots.len() && slots[i] is None
}

/// The pid that a new execution gets: the lowest vacant one, or the one past the end.
pub open spec fn next_pid(slots: Seq<Option<ExecutionView>>) -> int {
    first_vacant(slots)
}

/// The slots with `e` placed at pid `pid`, which is vacant or one past the end.
pub open spec fn placed(slots: Seq<Option<ExecutionView>>, pid: int, e: ExecutionView) -> Seq<
    Option<ExecutionView>,
> {
    if pid < slots.len() {
        slots.update(pid, Some(e))
    } else {
        slots.push(Some(e))
    }
}

/// The executions of the system, indexed by process id.
pub struct ExecutionMap(Vec<Option<Execution>>);

impl ExecutionMap {
    /// The executions, by pid; `None` marks an unused pid.
    pub closed spec fn view(&self) -> Seq<Option<ExecutionView>> {
        Seq::new(self.0@.len(), |i: int| match self.0@[i] {
            Some(e) => Some(e@),
            None => None,
        })
    }

    /// Well-formedness: every execution is well formed and sits at the slot of its pid, and
    /// pids fit in 16 bits.
    pub closed spec fn wf(&self) -> bool {
        &&& self.0@.len() <= u16::MAX + 1
        &&& forall|i: int| 0 <= i < self.0@.len() && #[trigger] self.0@[i] is Some ==> self.0@[i].unwrap().wf()
            && self.0@[i].unwrap()@.pid == i
    }

    /// Facts of well-formed maps.
    pub proof fn lemma_wf(&self)
        requires
            self.wf(),
        ensures
            self@.len() <= u16::MAX + 1,
            forall|i: int| 0 <= i < self@.len() && #[trigger] self@[i] is Some ==> self@[i].unwrap().pid == i,
    {
    }

    /// Creates a new, unpopulated `ExecutionMap`.
    pub fn new() -> (r: Self)
        ensures
            r.wf(),
            r@ == Seq::<Option<ExecutionView>>::empty(),
    {
        let r = ExecutionMap(Vec::new());
        assert(r@ =~= Seq::<Option<ExecutionView>>::empty());
        r
    }

    /// Returns an `Ok` with the lowest unused pid with space already allocated, else returns
    /// `Err` with the pid one past the end of the current allocation (i.e., can be reached with
    /// a single `push`).
    fn find_available_pid(&self) -> (r: Result<u16, u16>)
        requires
            self.wf(),
            has_vacancy(self@) || self@.len() <= u16::MAX,
        ensures
            r is Ok <==> has_vacancy(self@),
            r is Ok ==> r->Ok_0 == first_vacant(self@) && r->Ok_0 < self@.len() && self@[r->Ok_0 as int] is None,
            r is Err ==> r->Err_0 == self@.len() && first_vacant(self@) == self@.len(),
    {
        let mut i: usize = 0;
        while i < self.0.len()
            invariant
                i <= self@.len(),
                self.wf(),
                forall|k: int| 0 <= k < i ==> self@[k] is Some,
            decreases self@.len() - i,
        {
            if self.0[i].is_none() {
                proof {
                    assert(self@[i as int] is None);
                    lemma_first_vacant(self@, i as int);
                }
                return Ok(i as u16);
            }
            assert(self@[i as int] is Some);
            i = i + 1;
        }
        proof {
            lemma_first_vacant(self@, i as int);
            if has_vacancy(self@) {
                let k = choose|k: int| 0 <= k < self@.len() && self@[k] is None;
                assert(self@[k] is Some);
            }
        }
        Err(i as u16)
    }

    /// Creates an execution with the given information, and defaults for all other values, at
    /// the lowest available pid.
    pub fn create(&mut self, tcr_el1: u64, ttbr0: u64, user_context: u64) -> (r: u16)
        requires
            old(self).wf(),
            has_vacancy(old(self)@) || old(self)@.len() <= u16::MAX,
        ensures
            final(self).wf(),
            r == next_pid(old(self)@),
            final(self)@ == placed(old(self)@, r as int, ExecutionView {
                writeable: Seq::empty(),
                readable: Seq::empty(),
                user_context,
                ttbr0,
                tcr_el1,
                token: 1,
                pid: r,
                pending_messages: Seq::empty(),
            }),
    {
        match self.find_available_pid() {
            Ok(pid) => {
                let e = Execution::new(tcr_el1, ttbr0, user_context, pid);
                self.0.set(pid as usize, Some(e));
                proof {
                    assert(self@ =~= placed(old(self)@, pid as int, e@));
                }
                pid
            },
            Err(pid) => {
                let e = Execution::new(tcr_el1, ttbr0, user_context, pid);
                self.0.push(Some(e));
                proof {
                    assert(self@ =~= placed(old(self)@, pid as int, e@));
                }
                pid
            },
        }
    }

    /// Returns the execution corresponding to the given pid, if present.
    pub fn get(&self, pid: u16) -> (r: Option<&Execution>)
        requires
            self.wf(),
        ensures
            (pid < self@.len() && self@[pid as int] is Some) <==> r is Some,
            r is Some ==> r.unwrap()@ == self@[pid as int].unwrap() && r.unwrap().wf(),
    {
        if (pid as usize) < self.0.len() {
            match &self.0[pid as usize] {
                Some(e) => Some(e),
                None => None,
            }
        } else {
            None
        }
    }

    /// Removes and returns the execution corresponding to the given pid, if present.
    pub fn remove(&mut self, pid: u16) -> (r: Option<Execution>)
        requires
            old(self).wf(),
        ensures
            final(self).wf(),
            (pid < old(self)@.len() && old(self)@[pid as int] is Some) <==> r is Some,
            r is Some ==> r.unwrap()@ == old(self)@[pid as int].unwrap() && r.unwrap().wf(),
            final(self)@ == (if pid < old(self)@.len() {
                old(self)@.update(pid as int, None)
            } else {
                old(self)@
            }),
    {
        if (pid as usize) < self.0.len() {
            let taken = self.0[pid as usize].take();
            proof {
                assert(self@ =~= old(self)@.update(pid as int, None));
            }
            taken
        } else {
            None
        }
    }

    /// Hands a wake-up token to the execution `pid` (see `Execution::unblock`): `None` if no
    /// execution has that pid, else whether it was blocked.
    pub fn unblock(&mut self, pid: u16) -> (r: Option<bool>)
        requires
            old(self).wf(),
        ensures
            final(self).wf(),
            !(pid < old(self)@.len() && old(self)@[pid as int] is Some) ==> r is None && final(self)@
                == old(self)@,
            pid < old(self)@.len() && old(self)@[pid as int] is Some ==> {
                let e = old(self)@[pid as int].unwrap();
                &&& r == Some(e.token == 0)
                &&& final(self)@ == old(self)@.update(
                    pid as int,
                    Some(ExecutionView { token: token_after_unblock(e.token), ..e }),
                )
            },
    {
        if (pid as usize) >= self.0.len() {
            return None;
        }
        match self.0[pid as usize].take() {
            None => {
                proof {
                    assert(self@ =~= old(self)@);
                }
                None
            },
            Some(mut e) => {
                let was_blocked = e.unblock();
                self.0.set(pid as usize, Some(e));
                proof {
                    assert(self@ =~= old(self)@.update(
                        pid as int,
                        Some(ExecutionView { token: token_after_unblock(old(self)@[pid as int].unwrap().token), ..old(self)@[pid as int].unwrap() }),
                    ));
                }
                Some(was_blocked)
            },
        }
    }

    /// Ends the execution `pid`: it leaves the map, and its pages each lose the reference it
    /// held. The execution must exist.
    pub fn exit(&mut self, pid: u16, allocator: &mut PageAllocator)
        requires
            old(self).wf(),
            old(allocator).wf(),
            pid < old(self)@.len(),
            old(self)@[pid as int] is Some,
            refs_removable(
                old(allocator)@,
                old(self)@[pid as int].unwrap().writeable + old(self)@[pid as int].unwrap().readable,
            ),
        ensures
            final(self).wf(),
            final(allocator).wf(),
            final(self)@ == old(self)@.update(pid as int, None),
            final(allocator)@ == with_removed_refs(
                old(allocator)@,
                old(self)@[pid as int].unwrap().writeable + old(self)@[pid as int].unwrap().readable,
            ),
    {
        match self.remove(pid) {
            Some(e) => {
                let pages = e.held_pages();
                allocator.remove_refs(&pages);
            },
            None => {},
        }
    }

    /// Sets the context of the execution `pid` (see `Execution::set_context`): `None` if no
    /// execution has that pid, else the result.
    pub fn set_context(&mut self, pid: u16, user_context: u64, ttbr0: u64, tcr_el1: u64) -> (r: Option<
        Result<(), ContextError>,
    >)
        requires
            old(self).wf(),
        ensures
            final(self).wf(),
            !(pid < old(self)@.len() && old(self)@[pid as int] is Some) ==> r is None && final(self)@
                == old(self)@,
            pid < old(self)@.len() && old(self)@[pid as int] is Some ==> {
                let e = old(self)@[pid as int].unwrap();
                &&& r == Some(context_result(e, user_context, ttbr0))
                &&& context_result(e, user_context, ttbr0) is Ok ==> final(self)@ == old(self)@.update(
                    pid as int,
                    Some(ExecutionView { ttbr0, user_context, ..e }),
                )
                &&& context_result(e, user_context, ttbr0) is Err ==> final(self)@ == old(self)@
            },
    {
        if (pid as usize) >= self.0.len() {
            return None;
        }
        match self.0[pid as usize].take() {
            None => {
                proof {
                    assert(self@ =~= old(self)@);
                }
                None
            },
            Some(mut e) => {
                let ghost e0 = e;
                let result = e.set_context(user_context, ttbr0, tcr_el1);
                self.0.set(pid as usize, Some(e));
                proof {
                    assert(e0.spec_contains_pa(ttbr0) == view_contains_pa(e0@, ttbr0));
                    assert(result == context_result(e0@, user_context, ttbr0));
                    if result is Ok {
                        assert(self@ =~= old(self)@.update(
                            pid as int,
                            Some(ExecutionView { ttbr0, user_context, ..e0@ }),
                        ));
                    } else {
                        assert(self@ =~= old(self)@);
                    }
                }
                Some(result)
            },
        }
    }

    /// Makes the execution `pid` wait for a wake-up token (see `Execution::block`): `None` if
    /// no execution has that pid, else whether it blocked. It must not be blocked already.
    pub fn block(&mut self, pid: u16) -> (r: Option<bool>)
        requires
            old(self).wf(),
            pid < old(self)@.len() && old(self)@[pid as int] is Some ==> old(self)@[pid as int].unwrap().token != 0,
        ensures
            final(self).wf(),
            !(pid < old(self)@.len() && old(self)@[pid as int] is Some) ==> r is None && final(self)@
                == old(self)@,
            pid < old(self)@.len() && old(self)@[pid as int] is Some ==> {
                let e = old(self)@[pid as int].unwrap();
                &&& r == Some(e.token == 1)
                &&& final(self)@ == old(self)@.update(
                    pid as int,
                    Some(ExecutionView { token: token_after_block(e.token), ..e }),
                )
            },
    {
        if (pid as usize) >= self.0.len() {
            return None;
        }
        match self.0[pid as usize].take() {
            None => {
                proof {
                    assert(self@ =~= old(self)@);
                }
                None
            },
            Some(mut e) => {
                let blocked = e.block();
                self.0.set(pid as usize, Some(e));
                proof {
                    assert(self@ =~= old(self)@.update(
                        pid as int,
                        Some(ExecutionView { token: token_after_block(old(self)@[pid as int].unwrap().token), ..old(self)@[pid as int].unwrap() }),
                    ));
                }
                Some(blocked)
            },
        }
    }

    /// Queues a signal from `sender` at the execution `target` (see `Execution::add_signal`).
    /// Returns whether an execution has that pid.
    pub fn add_signal(&mut self, target: u16, sender: u16) -> (r: bool)
        requires
            old(self).wf(),
        ensures
            final(self).wf(),
            r == (target < old(self)@.len() && old(self)@[target as int] is Some),
            !r ==> final(self)@ == old(self)@,
            r ==> {
                let e = old(self)@[target as int].unwrap();
                final(self)@ == old(self)@.update(
                    target as int,
                    Some(ExecutionView { pending_messages: e.pending_messages.push(sender), ..e }),
                )
            },
    {
        if (target as usize) >= self.0.len() {
            return false;
        }
        match self.0[target as usize].take() {
            None => {
                proof {
                    assert(self@ =~= old(self)@);
                }
                false
            },
            Some(mut e) => {
                e.add_signal(sender);
                self.0.set(target as usize, Some(e));
                proof {
                    let e0 = old(self)@[target as int].unwrap();
                    assert(self@ =~= old(self)@.update(
                        target as int,
                        Some(ExecutionView { pending_messages: e0.pending_messages.push(sender), ..e0 }),
                    ));
                }
                true
            },
        }
    }

    /// Adds a page to the write set of the execution `pid` (see
    /// `Execution::add_writable_page`), which must exist and not hold the page yet.
    pub fn add_writable_page(&mut self, pid: u16, page: WriteablePage)
        requires
            old(self).wf(),
            pid < old(self)@.len(),
            old(self)@[pid as int] is Some,
            !old(self)@[pid as int].unwrap().writeable.contains(page.spec_addr()),
        ensures
            final(self).wf(),
            final(self)@.len() == old(self)@.len(),
            forall|i: int| 0 <= i < old(self)@.len() && i != pid ==> final(self)@[i] == old(self)@[i],
            final(self)@[pid as int] is Some,
            ({
                let before = old(self)@[pid as int].unwrap();
                let after = final(self)@[pid as int].unwrap();
                &&& after.writeable.to_set() == before.writeable.to_set().insert(page.spec_addr())
                &&& exists|pos: int| #![trigger before.writeable.insert(pos, page.spec_addr())]
                    0 <= pos <= before.writeable.len() && after == (ExecutionView {
                        writeable: before.writeable.insert(pos, page.spec_addr()),
                        ..before
                    })
            }),
    {
        match self.0[pid as usize].take() {
            None => {},
            Some(mut e) => {
                e.add_writable_page(page);
                self.0.set(pid as usize, Some(e));
            },
        }
    }

    /// Duplicates the execution at `src_pid` into the lowest available pid. The copy holds
    /// the same pages, each of which gets one more reference in `allocator`.
    pub fn fork(&mut self, src_pid: u16, allocator: &mut PageAllocator) -> (r: Result<u16, ForkError>)
        requires
            old(self).wf(),
            old(allocator).wf(),
            has_vacancy(old(self)@) || old(self)@.len() <= u16::MAX,
            src_pid < old(self)@.len() && old(self)@[src_pid as int] is Some ==> refs_addable(
                old(allocator)@,
                old(self)@[src_pid as int].unwrap().writeable + old(self)@[src_pid as int].unwrap().readable,
            ),
        ensures
            final(self).wf(),
            final(allocator).wf(),
            r is Err <==> !(src_pid < old(self)@.len() && old(self)@[src_pid as int] is Some),
            r is Err ==> r == Err::<u16, ForkError>(ForkError::SrcNotValid) && final(self)@ == old(self)@
                && final(allocator)@ == old(allocator)@,
            r is Ok ==> r->Ok_0 == next_pid(old(self)@) && final(self)@ == placed(
                old(self)@,
                r->Ok_0 as int,
                ExecutionView { pid: r->Ok_0, ..old(self)@[src_pid as int].unwrap() },
            ),
            r is Ok ==> final(allocator)@ == with_added_refs(
                old(allocator)@,
                old(self)@[src_pid as int].unwrap().writeable + old(self)@[src_pid as int].unwrap().readable,
            ),
    {
        let new_execution = match self.get(src_pid) {
            Some(src) => {
                // the pid is filled in below
                src.duplicate(0, allocator)
            },
            None => {
                return Err(ForkError::SrcNotValid);
            },
        };
        let mut new_execution = new_execution;
        match self.find_available_pid() {
            Ok(pid) => {
                new_execution.set_pid(pid);
                self.0.set(pid as usize, Some(new_execution));
                proof {
                    assert(self@ =~= placed(old(self)@, pid as int, ExecutionView { pid, ..old(self)@[src_pid as int].unwrap() }));
                }
                Ok(pid)
            },
            Err(pid) => {
                new_execution.set_pid(pid);
                self.0.push(Some(new_execution));
                proof {
                    assert(self@ =~= placed(old(self)@, pid as int, ExecutionView { pid, ..old(self)@[src_pid as int].unwrap() }));
                }
                Ok(pid)
            },
        }
    }
}

/// The first vacant slot lies within the slots, or one past them.
proof fn lemma_first_vacant_bounds(slots: Seq<Option<ExecutionView>>)
    ensures
        0 <= first_vacant(slots) <= slots.len(),
        first_vacant(slots) < slots.len() ==> slots[first_vacant(slots)] is None,
        forall|k: int| 0 <= k < first_vacant(slots) ==> slots[k] is Some,
    decreases slots.len(),
{
    if slots.len() > 0 && slots[0] is Some {
        lemma_first_vacant_bounds(slots.drop_first());
        assert forall|k: int| 0 <= k < first_vacant(slots) implies slots[k] is Some by {
            if k > 0 {
                assert(slots[k] == slots.drop_first()[k - 1]);
            }
        }
        if first_vacant(slots) < slots.len() {
            assert(slots[first_vacant(slots)] == slots.drop_first()[first_vacant(slots) - 1]);
        }
    }
}

/// A new execution is found at the pid it was given, and every other pid is unchanged; the
/// table only grows when no pid was free.
pub proof fn law_created_execution_is_found(slots: Seq<Option<ExecutionView>>, e: ExecutionView)
    ensures
        ({
            let pid = next_pid(slots);
            let after = placed(slots, pid, e);
            &&& after[pid] == Some(e)
            &&& forall|k: int| 0 <= k < slots.len() && k != pid ==> after[k] == slots[k]
            &&& after.len() == (if has_vacancy(slots) { slots.len() } else { slots.len() + 1 })
        }),
{
    lemma_first_vacant_bounds(slots);
    if has_vacancy(slots) {
        let i = choose|i: int| 0 <= i < slots.len() && slots[i] is None;
        assert(first_vacant(slots) <= i);
    }
}

/// A pid that is given up is taken again by the next new execution, unless a lower one is
/// free.
pub proof fn law_removed_pid_is_reused(slots: Seq<Option<ExecutionView>>, pid: int)
    requires
        0 <= pid < slots.len(),
    ensures
        next_pid(slots.update(pid, None)) <= pid,
        next_pid(slots.update(pid, None)) == (if first_vacant(slots) < pid { first_vacant(slots) } else { pid }),
{
    let after = slots.update(pid, None);
    lemma_first_vacant_bounds(slots);
    lemma_first_vacant_bounds(after);
    if first_vacant(after) > pid {
        assert(after[pid] is None);
    }
    if first_vacant(slots) < pid {
        assert(after[first_vacant(slots)] is None);
        if first_vacant(after) < first_vacant(slots) {
            assert(slots[first_vacant(after)] is Some);
        }
    } else {
        if first_vacant(after) < pid {
            assert(slots[first_vacant(after)] is Some);
            assert(after[first_vacant(after)] == slots[first_vacant(after)]);
        }
    }
}

/// `first_vacant` finds the first vacant slot.
proof fn lemma_first_vacant(slots: Seq<Option<ExecutionView>>, i: int)
    requires
        0 <= i <= slots.len(),
        forall|k: int| 0 <= k < i ==> slots[k] is Some,
        i < slots.len() ==> slots[i] is None,
    ensures
        first_vacant(slots) == i,
    decreases i,
{
    if i > 0 && slots.len() > 0 {
        assert forall|k: int| 0 <= k < i - 1 implies slots.drop_first()[k] is Some by {
            assert(slots.drop_first()[k] == slots[k + 1]);
        }
        if i < slots.len() {
            assert(slots.drop_first()[i - 1] == slots[i]);
        }
        lemma_first_vacant(slots.drop_first(), i - 1);
    }
}

} // verus!
