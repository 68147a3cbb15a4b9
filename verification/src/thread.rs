//! Kernel threads: their bookkeeping, the queue of threads ready to run, and the scheduling
//! decisions.
use vstd::prelude::*;
use crate::timer::Duration;

verus! {

/// Bytes of stack given to each thread.
pub const STACK_SIZE: u64 = 0x2000;
/// Bytes of the initial frame that starts a thread, at the top of its stack.
pub const START_FRAME_SIZE: u64 = 0x70;
/// Address of the first thread stack.
pub const STACK_BASE: u64 = 0x40_0000;

/// A kernel thread: its id, its saved stack pointer, and how long it has run.
#[derive(Clone, Copy, Debug)]
pub struct Thread {
    id: u64,
    sp: u64,
    runtime: Duration,
    last_started: Duration,
}

impl Thread {
    /// The id of the thread.
    pub closed spec fn spec_id(&self) -> u64 {
        self.id
    }

    /// The saved stack pointer of the thread.
    pub closed spec fn spec_sp(&self) -> u64 {
        self.sp
    }

    /// How long the thread has run, in nanoseconds.
    pub closed spec fn spec_runtime(&self) -> nat {
        self.runtime.spec_nanos()
    }

    /// When the thread was last started, in nanoseconds.
    pub closed spec fn spec_last_started(&self) -> nat {
        self.last_started.spec_nanos()
    }

    /// Well-formedness of the thread's times.
    pub closed spec fn wf(&self) -> bool {
        self.runtime.wf() && self.last_started.wf()
    }

    /// The id of the thread.
    pub fn id(&self) -> (r: u64)
        ensures
            r == self.spec_id(),
    {
        self.id
    }

    /// The saved stack pointer of the thread.
    pub fn sp(&self) -> (r: u64)
        ensures
            r == self.spec_sp(),
    {
        self.sp
    }

    /// How long the thread has run.
    pub fn runtime(&self) -> (r: Duration)
        requires
            self.wf(),
        ensures
            r.wf(),
            r.spec_nanos() == self.spec_runtime(),
    {
        self.runtime
    }

    /// Creates a new thread, with a fresh id and a fresh stack, and counts it as active.
    pub fn new(threads: &mut Threads) -> (r: Self)
        requires
            old(threads).wf(),
            old(threads).spec_stack_next() + STACK_SIZE <= u64::MAX,
        ensures
            final(threads).wf(),
            r.wf(),
            r.spec_id() == old(threads).spec_next_thread_id(),
            r.spec_sp() == old(threads).spec_stack_next() + STACK_SIZE - START_FRAME_SIZE,
            r.spec_runtime() == 0,
            r.spec_last_started() == 0,
            final(threads).spec_next_thread_id() == old(threads).spec_next_thread_id().wrapping_add(1),
            final(threads).spec_active_count() == old(threads).spec_active_count().wrapping_add(1),
            final(threads).spec_stack_next() == old(threads).spec_stack_next().wrapping_add(STACK_SIZE),
            final(threads).spec_ready() == old(threads).spec_ready(),
            final(threads).spec_idle() == old(threads).spec_idle(),
    {
        threads.active_count = threads.active_count.wrapping_add(1);
        let id = threads.next_thread_id;
        threads.next_thread_id = threads.next_thread_id.wrapping_add(1);
        let stack = threads.stack_next;
        threads.stack_next = threads.stack_next.wrapping_add(STACK_SIZE);
        Thread {
            id,
            sp: stack + STACK_SIZE - START_FRAME_SIZE,
            runtime: Duration::zero(),
            last_started: Duration::zero(),
        }
    }

    /// Creates a new thread running a function (see `Thread::new`).
    pub fn new_from_function(threads: &mut Threads) -> (r: Self)
        requires
            old(threads).wf(),
            old(threads).spec_stack_next() + STACK_SIZE <= u64::MAX,
        ensures
            final(threads).wf(),
            r.wf(),
            r.spec_id() == old(threads).spec_next_thread_id(),
            r.spec_sp() == old(threads).spec_stack_next() + STACK_SIZE - START_FRAME_SIZE,
            r.spec_runtime() == 0,
            final(threads).spec_next_thread_id() == old(threads).spec_next_thread_id().wrapping_add(1),
            final(threads).spec_active_count() == old(threads).spec_active_count().wrapping_add(1),
            final(threads).spec_stack_next() == old(threads).spec_stack_next().wrapping_add(STACK_SIZE),
            final(threads).spec_ready() == old(threads).spec_ready(),
            final(threads).spec_idle() == old(threads).spec_idle(),
    {
        Self::new(threads)
    }

    /// Records that the thread starts running at time `now`.
    pub fn start(&mut self, now: Duration)
        requires
            old(self).wf(),
            now.wf(),
        ensures
            final(self).wf(),
            final(self).spec_id() == old(self).spec_id(),
            final(self).spec_sp() == old(self).spec_sp(),
            final(self).spec_runtime() == old(self).spec_runtime(),
            final(self).spec_last_started() == now.spec_nanos(),
    {
        self.last_started = now;
    }

    /// Records that the thread stops running at time `now`: the time since it was last
    /// started is added to its runtime.
    pub fn stop_running(&mut self, now: Duration)
        requires
            old(self).wf(),
            now.wf(),
            old(self).spec_last_started() <= now.spec_nanos(),
            old(self).spec_runtime() + now.spec_nanos() - old(self).spec_last_started() <= Duration::max_nanos(),
        ensures
            final(self).wf(),
            final(self).spec_id() == old(self).spec_id(),
            final(self).spec_sp() == old(self).spec_sp(),
            final(self).spec_last_started() == old(self).spec_last_started(),
            final(self).spec_runtime() == old(self).spec_runtime() + now.spec_nanos() - old(self).spec_last_started(),
    {
        let elapsed = now.sub(self.last_started);
        self.runtime = self.runtime.add(elapsed);
    }

    /// Whether this thread should run before `other`: the thread that has run the least goes
    /// first.
    pub fn runs_before(&self, other: &Thread) -> (r: bool)
        requires
            self.wf(),
            other.wf(),
        ensures
            r == (self.spec_runtime() < other.spec_runtime()),
    {
        self.runtime.lt(other.runtime)
    }
}

/// The threads that are ready to run.
pub struct ReadyThreads {
    threads: Vec<Thread>,
}

/// Whether `t` has run the least of `threads`.
pub open spec fn runs_least(t: Thread, threads: Seq<Thread>) -> bool {
    forall|j: int| 0 <= j < threads.len() ==> t.spec_runtime() <= #[trigger] threads[j].spec_runtime()
}

impl ReadyThreads {
    /// The ready threads, in no particular order.
    pub closed spec fn view(&self) -> Seq<Thread> {
        self.threads@
    }

    /// Well-formedness of the ready threads.
    pub closed spec fn wf(&self) -> bool {
        forall|i: int| 0 <= i < self.threads@.len() ==> #[trigger] self.threads@[i].wf()
    }

    /// No thread is ready.
    pub fn new() -> (r: Self)
        ensures
            r.wf(),
            r@ == Seq::<Thread>::empty(),
    {
        ReadyThreads { threads: Vec::new() }
    }

    /// Makes a thread ready.
    pub fn add(&mut self, thread: Thread)
        requires
            old(self).wf(),
            thread.wf(),
        ensures
            final(self).wf(),
            final(self)@ == old(self)@.push(thread),
    {
        self.threads.push(thread);
    }

    /// Takes the ready thread that has run the least, if any.
    pub fn get(&mut self) -> (r: Option<Thread>)
        requires
            old(self).wf(),
        ensures
            final(self).wf(),
            old(self)@.len() == 0 <==> r is None,
            r is None ==> final(self)@ == old(self)@,
            r is Some ==> exists|i: int| #![trigger old(self)@.remove(i)] 0 <= i < old(self)@.len() && old(self)@[i] == r.unwrap()
                && final(self)@ == old(self)@.remove(i),
            r is Some ==> r.unwrap().wf() && runs_least(r.unwrap(), old(self)@),
    {
        if self.threads.len() == 0 {
            return None;
        }
        let mut best: usize = 0;
        let mut i: usize = 1;
        while i < self.threads.len()
            invariant
                self.wf(),
                self == old(self),
                0 < self@.len(),
                best < i <= self@.len(),
                forall|j: int| 0 <= j < i ==> self@[best as int].spec_runtime() <= #[trigger] self@[j].spec_runtime(),
            decreases self@.len() - i,
        {
            if self.threads[i].runs_before(&self.threads[best]) {
                best = i;
            }
            i = i + 1;
        }
        let thread = self.threads.remove(best);
        proof {
            assert(self.threads@ == old(self)@.remove(best as int));
            assert forall|k: int| 0 <= k < self.threads@.len() implies #[trigger] self.threads@[k].wf() by {
                if k < best {
                    assert(self.threads@[k] == old(self)@[k]);
                } else {
                    assert(self.threads@[k] == old(self)@[k + 1]);
                }
            }
        }
        Some(thread)
    }
}

/// A thread made ready in an empty queue is the next one to run.
pub proof fn law_only_ready_thread_runs(t: Thread)
    ensures
        runs_least(t, Seq::empty().push(t)),
{
}

/// Whether a thread has never run: its runtime is zero.
pub open spec fn never_ran() -> spec_fn(Thread) -> bool {
    |t: Thread| t.spec_runtime() == 0
}

/// The threads of `threads` that have never run, in order.
pub open spec fn fresh_threads(threads: Seq<Thread>) -> Seq<Thread> {
    threads.filter(never_ran())
}

/// One scheduling step on the ready threads, as `switch` and `stop` make it: the ready thread
/// `taken`, one that has run the least, leaves `before`, and the threads `back`, each of which
/// has run, are made ready again, giving `after`.
pub open spec fn ready_step(before: Seq<Thread>, taken: Thread, back: Seq<Thread>, after: Seq<Thread>) -> bool {
    &&& runs_least(taken, before)
    &&& exists|i: int|
        #![trigger before.remove(i)]
        0 <= i < before.len() && before[i] == taken && after == before.remove(i) + back
    &&& forall|j: int| 0 <= j < back.len() ==> (#[trigger] back[j]).spec_runtime() > 0
}

/// A thread that never ran leaves the threads that never ran when it is taken out.
proof fn lemma_fresh_remove(s: Seq<Thread>, i: int)
    requires
        0 <= i < s.len(),
        s[i].spec_runtime() == 0,
    ensures
        fresh_threads(s.remove(i)).len() + 1 == fresh_threads(s).len(),
{
    broadcast use vstd::seq_lib::group_seq_lib_default;
    let p = never_ran();
    assert(s.remove(i) =~= s.take(i) + s.skip(i + 1));
    assert(s =~= s.take(i) + (seq![s[i]] + s.skip(i + 1)));
    assert(seq![s[i]] =~= Seq::<Thread>::empty().push(s[i]));
    Seq::<Thread>::empty().lemma_filter_push(s[i], p);
    Seq::<Thread>::empty().lemma_filter_len(p);
}

/// Making ready threads that have run adds none that never ran.
proof fn lemma_fresh_append_ran(a: Seq<Thread>, back: Seq<Thread>)
    requires
        forall|j: int| 0 <= j < back.len() ==> (#[trigger] back[j]).spec_runtime() > 0,
    ensures
        fresh_threads(a + back) == fresh_threads(a),
{
    broadcast use vstd::seq_lib::group_seq_lib_default;
    let p = never_ran();
    if back.filter(p).len() > 0 {
        back.lemma_filter_pred(p, 0);
        back.lemma_filter_contains_rev(p, back.filter(p)[0]);
    }
    assert(back.filter(p) =~= Seq::<Thread>::empty());
}

/// The thread that has run the least, while a thread that never ran is ready, never ran.
proof fn lemma_least_is_fresh(s: Seq<Thread>, t: Thread)
    requires
        runs_least(t, s),
        fresh_threads(s).len() > 0,
    ensures
        t.spec_runtime() == 0,
{
    let p = never_ran();
    s.lemma_filter_pred(p, 0);
    s.lemma_filter_contains_rev(p, s.filter(p)[0]);
    let j = choose|j: int| 0 <= j < s.len() && s[j] == s.filter(p)[0];
    assert(s[j].spec_runtime() == 0);
}

/// No thread that never ran is ready once no such thread is left.
proof fn lemma_no_fresh_left(s: Seq<Thread>, x: Thread)
    requires
        fresh_threads(s).len() == 0,
        x.spec_runtime() == 0,
    ensures
        s.to_multiset().count(x) == 0,
{
    broadcast use vstd::seq_lib::group_to_multiset_ensures;
    let p = never_ran();
    if s.contains(x) {
        let j = choose|j: int| 0 <= j < s.len() && s[j] == x;
        s.lemma_filter_contains(p, j);
    }
}

/// The first `k` of a run of scheduling steps each take a thread that never ran, and, for
/// each thread that never ran, the times it was taken and the times it is still ready add up
/// to the times it was ready at the start.
proof fn lemma_run_prefix(queues: Seq<Seq<Thread>>, taken: Seq<Thread>, back: Seq<Seq<Thread>>, k: int)
    requires
        queues.len() == taken.len() + 1,
        back.len() == taken.len(),
        forall|n: int|
            #![trigger taken[n]]
            0 <= n < taken.len() ==> ready_step(queues[n], taken[n], back[n], queues[n + 1]),
        taken.len() <= fresh_threads(queues[0]).len(),
        0 <= k <= taken.len(),
    ensures
        forall|n: int| 0 <= n < k ==> (#[trigger] taken[n]).spec_runtime() == 0,
        fresh_threads(queues[k]).len() + k == fresh_threads(queues[0]).len(),
        forall|x: Thread|
            x.spec_runtime() == 0 ==> taken.take(k).to_multiset().count(x) + queues[k].to_multiset().count(x)
                == #[trigger] queues[0].to_multiset().count(x),
    decreases k,
{
    broadcast use vstd::seq_lib::group_to_multiset_ensures;
    broadcast use vstd::multiset::group_multiset_axioms;
    if k == 0 {
        assert(taken.take(0) =~= Seq::<Thread>::empty());
    } else {
        lemma_run_prefix(queues, taken, back, k - 1);
        let before = queues[k - 1];
        let t = taken[k - 1];
        assert(ready_step(before, t, back[k - 1], queues[k]));
        let i = choose|i: int|
            #![trigger before.remove(i)]
            0 <= i < before.len() && before[i] == t && queues[k] == before.remove(i) + back[k - 1];
        lemma_least_is_fresh(before, t);
        lemma_fresh_remove(before, i);
        lemma_fresh_append_ran(before.remove(i), back[k - 1]);
        assert(taken.take(k) =~= taken.take(k - 1).push(t));
        assert forall|x: Thread|
            x.spec_runtime() == 0 implies taken.take(k).to_multiset().count(x) + queues[k].to_multiset().count(x)
                == #[trigger] queues[0].to_multiset().count(x) by {
            let b = back[k - 1];
            if b.contains(x) {
                let j = choose|j: int| 0 <= j < b.len() && b[j] == x;
                assert(b[j].spec_runtime() > 0);
            }
            vstd::seq_lib::lemma_multiset_commutative(before.remove(i), b);
            assert(before.contains(t));
        }
    }
}

/// Scheduling runs every thread that has never run before any thread runs again: in a run of
/// steps that each take a ready thread that has run the least and make ready again only
/// threads that have run, as long as threads that never ran were ready at the start, each step
/// takes one of them; and once as many steps were taken as such threads were ready, each of
/// them was taken exactly as often as it was ready at the start, and none of them is still
/// ready.
pub proof fn law_every_new_thread_runs_once(queues: Seq<Seq<Thread>>, taken: Seq<Thread>, back: Seq<Seq<Thread>>)
    requires
        queues.len() == taken.len() + 1,
        back.len() == taken.len(),
        forall|n: int|
            #![trigger taken[n]]
            0 <= n < taken.len() ==> ready_step(queues[n], taken[n], back[n], queues[n + 1]),
        taken.len() <= fresh_threads(queues[0]).len(),
    ensures
        forall|n: int| 0 <= n < taken.len() ==> (#[trigger] taken[n]).spec_runtime() == 0,
        forall|x: Thread|
            x.spec_runtime() == 0 ==> taken.to_multiset().count(x) + queues.last().to_multiset().count(x)
                == #[trigger] queues[0].to_multiset().count(x),
        taken.len() == fresh_threads(queues[0]).len() ==> forall|x: Thread|
            x.spec_runtime() == 0 ==> taken.to_multiset().count(x) == #[trigger] queues[0].to_multiset().count(x)
                && queues.last().to_multiset().count(x) == 0,
{
    let k = taken.len() as int;
    lemma_run_prefix(queues, taken, back, k);
    assert(taken.take(k) =~= taken);
    if taken.len() == fresh_threads(queues[0]).len() {
        assert forall|x: Thread|
            x.spec_runtime() == 0 implies taken.to_multiset().count(x) == #[trigger] queues[0].to_multiset().count(x)
                && queues.last().to_multiset().count(x) == 0 by {
            lemma_no_fresh_left(queues[k], x);
        }
    }
}

/// What a stopping thread leaves the core to do.
pub enum StopAction {
    /// The last active thread stopped: the system shuts down.
    Shutdown,
    /// Switch to the given thread.
    SwitchTo(Thread),
}

/// The threads of the system: the ids and stacks handed out, the number of active threads, the
/// ready queue, and the idle thread of each core.
pub struct Threads {
    next_thread_id: u64,
    active_count: usize,
    stack_next: u64,
    ready: ReadyThreads,
    idle: Vec<Thread>,
}

impl Threads {
    /// The id the next thread gets.
    pub closed spec fn spec_next_thread_id(&self) -> u64 {
        self.next_thread_id
    }

    /// The number of active threads (idle threads do not count).
    pub closed spec fn spec_active_count(&self) -> usize {
        self.active_count
    }

    /// Where the stack of the next thread begins.
    pub closed spec fn spec_stack_next(&self) -> u64 {
        self.stack_next
    }

    /// The ready threads.
    pub closed spec fn spec_ready(&self) -> Seq<Thread> {
        self.ready@
    }

    /// The idle thread of each core.
    pub closed spec fn spec_idle(&self) -> Seq<Thread> {
        self.idle@
    }

    /// Well-formedness of the threads.
    pub closed spec fn wf(&self) -> bool {
        &&& self.ready.wf()
        &&& forall|i: int| 0 <= i < self.idle@.len() ==> #[trigger] self.idle@[i].wf()
    }

    /// No threads yet: ids start at 1, and stacks at the stack base.
    pub fn new() -> (r: Self)
        ensures
            r.wf(),
            r.spec_next_thread_id() == 1,
            r.spec_active_count() == 0,
            r.spec_stack_next() == STACK_BASE,
            r.spec_ready() == Seq::<Thread>::empty(),
            r.spec_idle() == Seq::<Thread>::empty(),
    {
        Threads { next_thread_id: 1, active_count: 0, stack_next: STACK_BASE, ready: ReadyThreads::new(), idle: Vec::new() }
    }

    /// Sets up scheduling: an empty ready queue, and an idle thread for each of the `cores`
    /// cores, which do not count as active threads.
    pub fn init(&mut self, cores: usize)
        requires
            old(self).wf(),
            old(self).spec_stack_next() + cores * STACK_SIZE <= u64::MAX,
        ensures
            final(self).wf(),
            final(self).spec_ready() == Seq::<Thread>::empty(),
            final(self).spec_active_count() == 0,
            final(self).spec_idle().len() == cores,
            forall|c: int| 0 <= c < cores ==> (#[trigger] final(self).spec_idle()[c]).spec_runtime() == 0,
    {
        self.ready = ReadyThreads::new();
        let mut idle: Vec<Thread> = Vec::new();
        let mut c: usize = 0;
        while c < cores
            invariant
                self.wf(),
                c <= cores,
                idle@.len() == c,
                self.spec_ready() == Seq::<Thread>::empty(),
                self.spec_stack_next() == old(self).spec_stack_next() + c * STACK_SIZE,
                old(self).spec_stack_next() + cores * STACK_SIZE <= u64::MAX,
                forall|k: int| 0 <= k < c ==> (#[trigger] idle@[k]).wf() && idle@[k].spec_runtime() == 0,
            decreases cores - c,
        {
            proof {
                assert((c + 1) * STACK_SIZE <= cores * STACK_SIZE) by (nonlinear_arith)
                    requires c + 1 <= cores;
                assert((c + 1) * STACK_SIZE == c * STACK_SIZE + STACK_SIZE) by (nonlinear_arith);
            }
            let t = Thread::new(self);
            idle.push(t);
            c = c + 1;
        }
        self.idle = idle;
        // idle threads are not active threads
        self.active_count = 0;
    }

    /// Makes a thread ready to run.
    pub fn schedule(&mut self, thread: Thread)
        requires
            old(self).wf(),
            thread.wf(),
        ensures
            final(self).wf(),
            final(self).spec_ready() == old(self).spec_ready().push(thread),
            final(self).spec_active_count() == old(self).spec_active_count(),
            final(self).spec_idle() == old(self).spec_idle(),
    {
        self.ready.add(thread);
    }

    /// Cooperatively yields: takes the ready thread to switch to, if another thread is waiting
    /// to run. The yielding thread is to be scheduled again once switched away from.
    pub fn switch(&mut self) -> (r: Option<Thread>)
        requires
            old(self).wf(),
        ensures
            final(self).wf(),
            old(self).spec_ready().len() == 0 <==> r is None,
            r is None ==> final(self).spec_ready() == old(self).spec_ready(),
            r is Some ==> runs_least(r.unwrap(), old(self).spec_ready()) && exists|i: int|
                #![trigger old(self).spec_ready().remove(i)]
                0 <= i < old(self).spec_ready().len() && old(self).spec_ready()[i] == r.unwrap()
                    && final(self).spec_ready() == old(self).spec_ready().remove(i),
            final(self).spec_active_count() == old(self).spec_active_count(),
            final(self).spec_idle() == old(self).spec_idle(),
    {
        self.ready.get()
    }

    /// Stops the currently executing thread on core `core`, and releases its resources:
    /// shuts down if it was the last active thread, else switches to the ready thread that has
    /// run the least, or to the core's idle thread if none is ready.
    pub fn stop(&mut self, core: usize) -> (r: StopAction)
        requires
            old(self).wf(),
            core < old(self).spec_idle().len(),
        ensures
            final(self).wf(),
            final(self).spec_active_count() == old(self).spec_active_count().wrapping_sub(1),
            final(self).spec_idle() == old(self).spec_idle(),
            old(self).spec_active_count() == 1 ==> r is Shutdown && final(self).spec_ready() == old(self).spec_ready(),
            old(self).spec_active_count() != 1 && old(self).spec_ready().len() == 0 ==> r == StopAction::SwitchTo(
                old(self).spec_idle()[core as int],
            ) && final(self).spec_ready() == old(self).spec_ready(),
            old(self).spec_active_count() != 1 && old(self).spec_ready().len() > 0 ==> (r matches StopAction::SwitchTo(t)
                && runs_least(t, old(self).spec_ready()) && exists|i: int|
                #![trigger old(self).spec_ready().remove(i)]
                0 <= i < old(self).spec_ready().len() && old(self).spec_ready()[i] == t
                    && final(self).spec_ready() == old(self).spec_ready().remove(i)),
    {
        let previous = self.active_count;
        self.active_count = self.active_count.wrapping_sub(1);
        if previous == 1 {
            return StopAction::Shutdown;
        }
        match self.ready.get() {
            Some(t) => StopAction::SwitchTo(t),
            None => StopAction::SwitchTo(self.idle[core]),
        }
    }
}

} // verus!
