//! `Execution`s and related functionality.
//!
//! These are the kernel's description of running user programs and their associated
//! (physical memory) resources.
use vstd::prelude::*;
use crate::machine::{InvalidAddr, ValidAddr};
use crate::memory::{PageAllocator, ReadablePage, WriteablePage, refs_addable, with_added_refs};

verus! {

/// The exception codes with which the kernel enters a user program.
#[derive(Clone, Copy, Debug, PartialEq, Eq, Structural)]
pub enum ExceptionCode {
    Preemption,
    Resumption,
    PageFault,
    UserSignal,
}

impl ExceptionCode {
    /// The code passed in `x0`.
    pub open spec fn spec_bits(self) -> u64 {
        match self {
            ExceptionCode::Preemption => 0,
            ExceptionCode::Resumption => 1,
            ExceptionCode::PageFault => 2,
            ExceptionCode::UserSignal => 3,
        }
    }

    /// The code passed in `x0`.
    pub fn into_bits(self) -> (r: u64)
        ensures
            r == self.spec_bits(),
    {
        match self {
            ExceptionCode::Preemption => 0,
            ExceptionCode::Resumption => 1,
            ExceptionCode::PageFault => 2,
            ExceptionCode::UserSignal => 3,
        }
    }

    /// The exception code with the given number, if there is one.
    pub fn from_bits(value: u64) -> (r: Option<Self>)
        ensures
            r is Some <==> value <= 3,
            r is Some ==> r.unwrap().spec_bits() == value,
    {
        if value == 0 {
            Some(ExceptionCode::Preemption)
        } else if value == 1 {
            Some(ExceptionCode::Resumption)
        } else if value == 2 {
            Some(ExceptionCode::PageFault)
        } else if value == 3 {
            Some(ExceptionCode::UserSignal)
        } else {
            None
        }
    }
}

/// Reasons why a new execution context is refused.
#[derive(Clone, Copy, Debug, PartialEq, Eq, Structural)]
pub enum ContextError {
    MisalignedTtbr0,
    InaccessibleTtbr0,
    InvalidTcrBits,
    MisalignedUserContext,
    InaccessibleUserContext,
}

/// The context that a user program shares with the kernel: where exceptions are delivered,
/// and the stack on which the kernel passes their arguments (growing upwards, one word per
/// entry).
#[derive(Clone, Copy, Debug, PartialEq, Eq, Structural)]
pub struct UserContext {
    pub exception_vector: u64,
    pub exception_stack: u64,
}

/// A pointer whose accesses are performed under user privileges instead of kernel privileges.
#[derive(Clone, Copy, Debug, PartialEq, Eq, Structural)]
pub struct UserPointer(pub u64);

impl UserContext {
    /// Pops an entry of the exception stack: returns where the popped word lies.
    pub fn pop(&mut self) -> (r: UserPointer)
        ensures
            final(self).exception_vector == old(self).exception_vector,
            final(self).exception_stack == old(self).exception_stack.wrapping_sub(8),
            r == UserPointer(final(self).exception_stack),
    {
        self.exception_stack = self.exception_stack.wrapping_sub(8);
        UserPointer(self.exception_stack)
    }

    /// Pushes an entry on the exception stack: returns where the pushed word is to be written.
    pub fn push(&mut self) -> (r: UserPointer)
        ensures
            final(self).exception_vector == old(self).exception_vector,
            final(self).exception_stack == old(self).exception_stack.wrapping_add(8),
            r == UserPointer(old(self).exception_stack),
    {
        let slot = UserPointer(self.exception_stack);
        self.exception_stack = self.exception_stack.wrapping_add(8);
        slot
    }
}

/// Where a synchronous jump into a program's exception handler leaves its three words on the
/// exception stack: the faulting instruction, then `x1`, then `x0`, each pushed in turn.
pub fn prepare_synchronous_jump(context: &mut UserContext) -> (r: (UserPointer, UserPointer, UserPointer))
    ensures
        final(context).exception_vector == old(context).exception_vector,
        r.0 == UserPointer(old(context).exception_stack),
        r.1 == UserPointer(old(context).exception_stack.wrapping_add(8)),
        r.2 == UserPointer(old(context).exception_stack.wrapping_add(8).wrapping_add(8)),
        final(context).exception_stack == old(context).exception_stack.wrapping_add(8).wrapping_add(
            8,
        ).wrapping_add(8),
{
    let faulting_instruction = context.push();
    let x1 = context.push();
    let x0 = context.push();
    (faulting_instruction, x1, x0)
}

/// What entering an execution asynchronously installs: its translation table and control,
/// the saved program state (EL0, interrupts unmasked), and the exception code and argument
/// handed to its exception vector, which is read from the first word of its user context;
/// and whether the execution must be installed as the core's current one.
#[derive(Clone, Copy, Debug, PartialEq, Eq, Structural)]
pub struct Jump {
    pub ttbr0: u64,
    pub tcr_el1: u64,
    pub spsr_el1: u64,
    pub x0: u64,
    pub x1: u64,
    pub user_context: u64,
    pub install_current: bool,
}

/// Pushing a word and popping it again leaves the exception stack where it was, and the pop
/// reads where the push wrote.
pub proof fn law_push_then_pop(stack: u64)
    ensures
        stack.wrapping_add(8).wrapping_sub(8) == stack,
{
    assert(stack.wrapping_add(8).wrapping_sub(8) == stack) by (bit_vector);
}

/// Physical pages, by address.
pub trait PageRef {
    /// The address of the page.
    spec fn spec_page_addr(&self) -> u64;

    /// The address of the page.
    fn page_addr(&self) -> (r: u64)
        ensures
            r == self.spec_page_addr(),
    ;
}

impl PageRef for WriteablePage {
    open spec fn spec_page_addr(&self) -> u64 {
        self.spec_addr()
    }

    fn page_addr(&self) -> (r: u64) {
        self.addr()
    }
}

impl PageRef for ReadablePage {
    open spec fn spec_page_addr(&self) -> u64 {
        self.spec_addr()
    }

    fn page_addr(&self) -> (r: u64) {
        self.addr()
    }
}

/// The number of bits of the offset within a page.
pub const PAGE_BITS: u64 = 16;

/// Whether pages are held in strictly increasing order of address.
pub open spec fn sorted_pages<P: PageRef>(s: Seq<P>) -> bool {
    forall|i: int, j: int| 0 <= i < j < s.len() ==> #[trigger] s[i].spec_page_addr() < #[trigger] s[j].spec_page_addr()
}

/// Whether one of the pages is the page holding physical address `pa`.
pub open spec fn has_page<P: PageRef>(s: Seq<P>, pa: u64) -> bool {
    exists|i: int| 0 <= i < s.len() && (#[trigger] s[i].spec_page_addr() >> PAGE_BITS) == pa >> PAGE_BITS
}

/// Shifting keeps the order of addresses.
proof fn lemma_shift_monotone(a: u64, b: u64)
    requires
        a <= b,
    ensures
        a >> PAGE_BITS <= b >> PAGE_BITS,
{
    assert(a <= b ==> a >> 16u64 <= b >> 16u64) by (bit_vector);
}

/// Searches sorted pages for the page holding physical address `pa`.
pub fn contains_page<P: PageRef>(pages: &Vec<P>, pa: u64) -> (r: bool)
    requires
        sorted_pages(pages@),
    ensures
        r == has_page(pages@, pa),
{
    let key = pa >> PAGE_BITS;
    let mut low: usize = 0;
    let mut high: usize = pages.len();
    while low < high
        invariant
            0 <= low <= high <= pages@.len(),
            sorted_pages(pages@),
            key == pa >> PAGE_BITS,
            forall|i: int| 0 <= i < low ==> (#[trigger] pages@[i].spec_page_addr() >> PAGE_BITS) < key,
            forall|i: int| high <= i < pages@.len() ==> (#[trigger] pages@[i].spec_page_addr() >> PAGE_BITS) > key,
        decreases high - low,
    {
        let mid = low + (high - low) / 2;
        let number = pages[mid].page_addr() >> PAGE_BITS;
        if number == key {
            return true;
        } else if number < key {
            proof {
                assert forall|i: int| 0 <= i < mid + 1 implies (#[trigger] pages@[i].spec_page_addr() >> PAGE_BITS) < key by {
                    if i < mid {
                        lemma_shift_monotone(pages@[i].spec_page_addr(), pages@[mid as int].spec_page_addr());
                    }
                }
            }
            low = mid + 1;
        } else {
            proof {
                assert forall|i: int| mid <= i < pages@.len() implies (#[trigger] pages@[i].spec_page_addr() >> PAGE_BITS) > key by {
                    if i > mid {
                        lemma_shift_monotone(pages@[mid as int].spec_page_addr(), pages@[i].spec_page_addr());
                    }
                }
            }
            high = mid;
        }
    }
    false
}

} // verus!

verus! {

/// An `Execution` represents a running context for a program of one or more cores.
///
/// This includes the translation table pointer, and where to direct exceptions to.
pub struct Execution {
    writeable_pages: Vec<WriteablePage>,
    readable_pages: Vec<ReadablePage>,
    user_context: u64,
    ttbr0: u64,
    tcr_el1: u64,
    token: i8,
    pid: u16,
    pending_messages: Vec<u16>,
}

/// The state of an execution that the kernel keeps track of.
pub struct ExecutionView {
    pub writeable: Seq<u64>,
    pub readable: Seq<u64>,
    pub user_context: u64,
    pub ttbr0: u64,
    pub tcr_el1: u64,
    pub token: i8,
    pub pid: u16,
    pub pending_messages: Seq<u16>,
}

/// The addresses of pages.
pub open spec fn page_addrs<P: PageRef>(s: Seq<P>) -> Seq<u64> {
    Seq::new(s.len(), |i: int| s[i].spec_page_addr())
}

impl Execution {
    /// The state of the execution.
    pub closed spec fn view(&self) -> ExecutionView {
        ExecutionView {
            writeable: page_addrs(self.writeable_pages@),
            readable: page_addrs(self.readable_pages@),
            user_context: self.user_context,
            ttbr0: self.ttbr0,
            tcr_el1: self.tcr_el1,
            token: self.token,
            pid: self.pid,
            pending_messages: self.pending_messages@,
        }
    }

    /// Well-formedness: pages are kept sorted by address, and the wake-up token is 0 (blocked),
    /// 1 (running, no token) or 2 (running, token available).
    pub closed spec fn wf(&self) -> bool {
        &&& sorted_pages(self.writeable_pages@)
        &&& sorted_pages(self.readable_pages@)
        &&& 0 <= self.token <= 2
    }

    /// Well-formed executions have a valid token.
    pub proof fn lemma_wf(&self)
        requires
            self.wf(),
        ensures
            0 <= self@.token <= 2,
    {
    }

    /// The process id of the execution.
    pub fn pid(&self) -> (r: u16)
        ensures
            r == self@.pid,
    {
        self.pid
    }

    /// Gives the execution another process id.
    pub fn set_pid(&mut self, pid: u16)
        requires
            old(self).wf(),
        ensures
            final(self).wf(),
            final(self)@ == (ExecutionView { pid, ..old(self)@ }),
    {
        self.pid = pid;
    }

    /// Whether the execution may access the page holding physical address `pa`.
    pub open spec fn spec_contains_pa(&self, pa: u64) -> bool {
        (exists|i: int| 0 <= i < self@.writeable.len() && (#[trigger] self@.writeable[i] >> PAGE_BITS) == pa >> PAGE_BITS)
        || (exists|i: int| 0 <= i < self@.readable.len() && (#[trigger] self@.readable[i] >> PAGE_BITS) == pa >> PAGE_BITS)
    }

    /// Whether the execution may write to the page holding physical address `pa`.
    pub open spec fn spec_contains_pa_writeable(&self, pa: u64) -> bool {
        exists|i: int| 0 <= i < self@.writeable.len() && (#[trigger] self@.writeable[i] >> PAGE_BITS) == pa >> PAGE_BITS
    }

    /// Creates a new execution with the given address space, with no pages, no pending
    /// messages and no wake-up token.
    pub fn new(tcr_el1: u64, ttbr0: u64, user_context: u64, pid: u16) -> (r: Self)
        ensures
            r.wf(),
            r@ == (ExecutionView {
                writeable: Seq::empty(),
                readable: Seq::empty(),
                user_context,
                ttbr0,
                tcr_el1,
                token: 1,
                pid,
                pending_messages: Seq::empty(),
            }),
    {
        let r = Execution {
            writeable_pages: Vec::new(),
            readable_pages: Vec::new(),
            user_context,
            ttbr0,
            tcr_el1,
            token: 1,
            pid,
            pending_messages: Vec::new(),
        };
        assert(r@.writeable =~= Seq::<u64>::empty());
        assert(r@.readable =~= Seq::<u64>::empty());
        r
    }

    /// The addresses of the pages the execution holds: its writeable pages, then its readable
    /// ones.
    pub fn held_pages(&self) -> (r: Vec<u64>)
        ensures
            r@ == self@.writeable + self@.readable,
    {
        let mut held: Vec<u64> = Vec::new();
        let mut i: usize = 0;
        while i < self.writeable_pages.len()
            invariant
                i <= self.writeable_pages@.len(),
                held@ == self@.writeable.take(i as int),
            decreases self.writeable_pages@.len() - i,
        {
            held.push(self.writeable_pages[i].addr());
            i = i + 1;
            assert(held@ =~= self@.writeable.take(i as int));
        }
        let mut i: usize = 0;
        while i < self.readable_pages.len()
            invariant
                i <= self.readable_pages@.len(),
                held@ == self@.writeable + self@.readable.take(i as int),
            decreases self.readable_pages@.len() - i,
        {
            held.push(self.readable_pages[i].addr());
            i = i + 1;
            assert(held@ =~= self@.writeable + self@.readable.take(i as int));
        }
        assert(held@ =~= self@.writeable + self@.readable);
        held
    }

    /// A copy of the execution under another pid, holding the same pages: each page gets one
    /// more reference, writeable pages first.
    pub fn duplicate(&self, pid: u16, allocator: &mut PageAllocator) -> (r: Self)
        requires
            self.wf(),
            old(allocator).wf(),
            refs_addable(old(allocator)@, self@.writeable + self@.readable),
        ensures
            r.wf(),
            r@ == (ExecutionView { pid, ..self@ }),
            final(allocator).wf(),
            final(allocator)@ == with_added_refs(old(allocator)@, self@.writeable + self@.readable),
    {
        let held = self.held_pages();
        allocator.add_refs(&held);
        let mut writeable_pages: Vec<WriteablePage> = Vec::new();
        let mut i: usize = 0;
        while i < self.writeable_pages.len()
            invariant
                i <= self.writeable_pages@.len(),
                writeable_pages@.len() == i,
                forall|k: int| 0 <= k < i ==> (#[trigger] writeable_pages@[k]).spec_addr() == self.writeable_pages@[k].spec_addr(),
            decreases self.writeable_pages@.len() - i,
        {
            writeable_pages.push(self.writeable_pages[i].clone());
            i = i + 1;
        }
        let mut readable_pages: Vec<ReadablePage> = Vec::new();
        let mut i: usize = 0;
        while i < self.readable_pages.len()
            invariant
                i <= self.readable_pages@.len(),
                readable_pages@.len() == i,
                forall|k: int| 0 <= k < i ==> (#[trigger] readable_pages@[k]).spec_addr() == self.readable_pages@[k].spec_addr(),
            decreases self.readable_pages@.len() - i,
        {
            readable_pages.push(self.readable_pages[i].clone());
            i = i + 1;
        }
        proof {
            assert forall|i: int, j: int| 0 <= i < j < writeable_pages@.len() implies #[trigger] writeable_pages@[i].spec_page_addr() < #[trigger] writeable_pages@[j].spec_page_addr() by {
                assert(self.writeable_pages@[i].spec_page_addr() < self.writeable_pages@[j].spec_page_addr());
            }
            assert forall|i: int, j: int| 0 <= i < j < readable_pages@.len() implies #[trigger] readable_pages@[i].spec_page_addr() < #[trigger] readable_pages@[j].spec_page_addr() by {
                assert(self.readable_pages@[i].spec_page_addr() < self.readable_pages@[j].spec_page_addr());
            }
        }
        let r = Execution {
            writeable_pages,
            readable_pages,
            user_context: self.user_context,
            ttbr0: self.ttbr0,
            tcr_el1: self.tcr_el1,
            token: self.token,
            pid,
            pending_messages: self.pending_messages.clone(),
        };
        assert(r@.writeable =~= self@.writeable);
        assert(r@.readable =~= self@.readable);
        r
    }

    /// Queues a signal from the execution with pid `sender`.
    pub fn add_signal(&mut self, sender: u16)
        requires
            old(self).wf(),
        ensures
            final(self).wf(),
            final(self)@ == (ExecutionView { pending_messages: old(self)@.pending_messages.push(sender), ..old(self)@ }),
    {
        self.pending_messages.push(sender);
    }

    /// Takes the most recently queued signal, if any.
    pub fn pop_signal(&mut self) -> (r: Option<u16>)
        requires
            old(self).wf(),
        ensures
            final(self).wf(),
            old(self)@.pending_messages.len() == 0 ==> r is None && final(self)@ == old(self)@,
            old(self)@.pending_messages.len() > 0 ==> r == Some(old(self)@.pending_messages.last())
                && final(self)@ == (ExecutionView { pending_messages: old(self)@.pending_messages.drop_last(), ..old(self)@ }),
    {
        self.pending_messages.pop()
    }

    /// The number of bits of the page offset for this execution.
    pub fn page_bits(&self) -> (r: u8)
        ensures
            r == PAGE_BITS,
    {
        16
    }

    /// The `TCR_EL1` value with which the kernel accesses this execution's memory: automatic
    /// translation-table walks for the lower half are enabled.
    pub fn autotranslate_tcr_el1(&self) -> (r: u64)
        ensures
            r == self@.tcr_el1 & !(1u64 << 7u64),
    {
        self.tcr_el1 & !(1u64 << 7u64)
    }

    /// Whether the execution may access the page holding physical address `pa`.
    pub fn contains_pa(&self, pa: u64) -> (r: bool)
        requires
            self.wf(),
        ensures
            r == self.spec_contains_pa(pa),
    {
        let w = contains_page(&self.writeable_pages, pa);
        let r = contains_page(&self.readable_pages, pa);
        proof {
            if has_page(self.writeable_pages@, pa) {
                let i = choose|i: int| 0 <= i < self.writeable_pages@.len() && (#[trigger] self.writeable_pages@[i].spec_page_addr() >> PAGE_BITS) == pa >> PAGE_BITS;
                assert(self@.writeable[i] == self.writeable_pages@[i].spec_page_addr());
            }
            if has_page(self.readable_pages@, pa) {
                let i = choose|i: int| 0 <= i < self.readable_pages@.len() && (#[trigger] self.readable_pages@[i].spec_page_addr() >> PAGE_BITS) == pa >> PAGE_BITS;
                assert(self@.readable[i] == self.readable_pages@[i].spec_page_addr());
            }
        }
        w || r
    }

    /// Whether the execution may write to the page holding physical address `pa`.
    pub fn contains_pa_writeable(&self, pa: u64) -> (r: bool)
        requires
            self.wf(),
        ensures
            r == self.spec_contains_pa_writeable(pa),
    {
        let w = contains_page(&self.writeable_pages, pa);
        proof {
            if has_page(self.writeable_pages@, pa) {
                let i = choose|i: int| 0 <= i < self.writeable_pages@.len() && (#[trigger] self.writeable_pages@[i].spec_page_addr() >> PAGE_BITS) == pa >> PAGE_BITS;
                assert(self@.writeable[i] == self.writeable_pages@[i].spec_page_addr());
            }
        }
        w
    }

    /// Sets the user context and the translation table for this execution.
    ///
    /// The translation table must be aligned to 64 bytes and lie in a page of the execution;
    /// the user context must be word aligned and in the lower part of the address range.
    pub fn set_context(&mut self, user_context: u64, ttbr0: u64, tcr_el1: u64) -> (r: Result<(), ContextError>)
        requires
            old(self).wf(),
        ensures
            final(self).wf(),
            r == (if ttbr0 & 0x3F != 0 {
                Err(ContextError::MisalignedTtbr0)
            } else if !old(self).spec_contains_pa(ttbr0) {
                Err(ContextError::InaccessibleTtbr0)
            } else if user_context % 8 != 0 {
                Err(ContextError::MisalignedUserContext)
            } else if (user_context >> 48u64) & 0xFF != 0 {
                Err(ContextError::InaccessibleUserContext)
            } else {
                Ok(())
            }),
            r is Ok ==> final(self)@ == (ExecutionView { ttbr0, user_context, ..old(self)@ }),
            r is Err ==> final(self)@ == old(self)@,
    {
        if ttbr0 & 0x3F != 0 {
            return Err(ContextError::MisalignedTtbr0);
        }
        if !self.contains_pa(ttbr0) {
            return Err(ContextError::InaccessibleTtbr0);
        }
        if user_context % 8 != 0 {
            return Err(ContextError::MisalignedUserContext);
        }
        if (user_context >> 48u64) & 0xFF != 0 {
            return Err(ContextError::InaccessibleUserContext);
        }
        self.ttbr0 = ttbr0;
        self.user_context = user_context;
        Ok(())
    }

    /// Decides whether a user pointer may be read, from the result of translating it: it may
    /// if it translates to a page of this execution.
    pub fn validate_user_pointer(&self, translation: Result<ValidAddr, InvalidAddr>) -> (r: bool)
        requires
            self.wf(),
        ensures
            r == match translation {
                Ok(pa) => self.spec_contains_pa(pa.spec_pa()),
                Err(_) => false,
            },
    {
        match translation {
            Ok(pa) => self.contains_pa(pa.pa()),
            Err(_) => false,
        }
    }

    /// Decides whether a user pointer may be written, from the result of translating it: it
    /// may if it translates to a writeable page of this execution.
    pub fn validate_user_pointer_writeable(&self, translation: Result<ValidAddr, InvalidAddr>) -> (r: bool)
        requires
            self.wf(),
        ensures
            r == match translation {
                Ok(pa) => self.spec_contains_pa_writeable(pa.spec_pa()),
                Err(_) => false,
            },
    {
        match translation {
            Ok(pa) => self.contains_pa_writeable(pa.pa()),
            Err(_) => false,
        }
    }

    /// Adds a page to the write set of an `Execution`. The page must not already be in it.
    pub fn add_writable_page(&mut self, page: WriteablePage)
        requires
            old(self).wf(),
            !old(self)@.writeable.contains(page.spec_addr()),
        ensures
            final(self).wf(),
            exists|pos: int| #![trigger old(self)@.writeable.insert(pos, page.spec_addr())]
                0 <= pos <= old(self)@.writeable.len()
                && final(self)@ == (ExecutionView { writeable: old(self)@.writeable.insert(pos, page.spec_addr()), ..old(self)@ }),
            final(self)@.writeable.to_set() == old(self)@.writeable.to_set().insert(page.spec_addr()),
    {
        let addr = page.addr();
        let mut low: usize = 0;
        let mut high: usize = self.writeable_pages.len();
        while low < high
            invariant
                0 <= low <= high <= self.writeable_pages@.len(),
                self.wf(),
                self == old(self),
                !self@.writeable.contains(addr),
                addr == page.spec_addr(),
                forall|i: int| 0 <= i < low ==> (#[trigger] self.writeable_pages@[i].spec_page_addr()) < addr,
                forall|i: int| high <= i < self.writeable_pages@.len() ==> (#[trigger] self.writeable_pages@[i].spec_page_addr()) > addr,
            decreases high - low,
        {
            let mid = low + (high - low) / 2;
            let at = self.writeable_pages[mid].addr();
            proof {
                assert(self@.writeable[mid as int] == at);
                assert(at != addr);
            }
            if at < addr {
                low = mid + 1;
            } else {
                high = mid;
            }
        }
        let ghost old_pages = self.writeable_pages@;
        self.writeable_pages.insert(low, page);
        proof {
            assert(self.writeable_pages@ == old_pages.insert(low as int, page));
            assert(self@.writeable =~= old(self)@.writeable.insert(low as int, addr));
            assert(sorted_pages(self.writeable_pages@)) by {
                assert forall|i: int, j: int| 0 <= i < j < self.writeable_pages@.len() implies #[trigger] self.writeable_pages@[i].spec_page_addr() < #[trigger] self.writeable_pages@[j].spec_page_addr() by {
                    if j < low {
                        assert(self.writeable_pages@[i] == old_pages[i]);
                        assert(self.writeable_pages@[j] == old_pages[j]);
                    } else if j == low {
                        assert(self.writeable_pages@[i] == old_pages[i]);
                    } else if i < low {
                        assert(self.writeable_pages@[i] == old_pages[i]);
                        assert(self.writeable_pages@[j] == old_pages[j - 1]);
                    } else if i == low {
                        assert(self.writeable_pages@[j] == old_pages[j - 1]);
                    } else {
                        assert(self.writeable_pages@[i] == old_pages[i - 1]);
                        assert(self.writeable_pages@[j] == old_pages[j - 1]);
                    }
                }
            }
            let s1 = self@.writeable;
            let s0 = old(self)@.writeable;
            assert(s1.to_set() =~= s0.to_set().insert(addr)) by {
                assert forall|x: u64| s1.to_set().contains(x) <==> s0.to_set().insert(addr).contains(x) by {
                    if s1.contains(x) {
                        let i = choose|i: int| 0 <= i < s1.len() && s1[i] == x;
                        if i < low {
                            assert(s0[i] == x);
                        } else if i > low {
                            assert(s0[i - 1] == x);
                        }
                    }
                    if s0.contains(x) {
                        let i = choose|i: int| 0 <= i < s0.len() && s0[i] == x;
                        if i < low {
                            assert(s1[i] == x);
                        } else {
                            assert(s1[i + 1] == x);
                        }
                    }
                    if x == addr {
                        assert(s1[low as int] == x);
                    }
                }
            }
        }
    }

    /// What entering the execution with exception `code` and `argument` installs.
    ///
    /// `current` is the pid of the execution the core holds as current, if any; it must be this
    /// execution, as entering an execution never replaces another one. If the core holds none,
    /// this execution is installed as current.
    pub fn jump_into_async(&self, current: Option<u16>, code: ExceptionCode, argument: u64) -> (r: Jump)
        requires
            current is None || current == Some(self@.pid),
        ensures
            r == (Jump {
                ttbr0: self@.ttbr0,
                tcr_el1: self@.tcr_el1,
                spsr_el1: 0,
                x0: code.spec_bits(),
                x1: argument,
                user_context: self@.user_context,
                install_current: current is None,
            }),
    {
        Jump {
            ttbr0: self.ttbr0,
            tcr_el1: self.tcr_el1,
            spsr_el1: 0,
            x0: code.into_bits(),
            x1: argument,
            user_context: self.user_context,
            install_current: current.is_none(),
        }
    }

    /// Hands a wake-up token to the execution. Returns whether the execution was blocked, and
    /// so must be scheduled to run again.
    pub fn unblock(&mut self) -> (r: bool)
        requires
            old(self).wf(),
        ensures
            final(self).wf(),
            r == (old(self)@.token == 0),
            final(self)@ == (ExecutionView { token: token_after_unblock(old(self)@.token), ..old(self)@ }),
    {
        if self.token == 0 {
            // was blocked: it runs again
            self.token = 1;
            true
        } else {
            // running: a token is now available
            self.token = 2;
            false
        }
    }

    /// Waits for a wake-up token: consumes it if one is available, else blocks. Returns whether
    /// the execution blocked. A blocked execution cannot block again.
    pub fn block(&mut self) -> (r: bool)
        requires
            old(self).wf(),
            old(self)@.token != 0,
        ensures
            final(self).wf(),
            r == (old(self)@.token == 1),
            final(self)@ == (ExecutionView { token: token_after_block(old(self)@.token), ..old(self)@ }),
    {
        if self.token == 1 {
            self.token = 0;
            true
        } else {
            self.token = 1;
            false
        }
    }
}

/// Whether the execution `v` may access the page holding physical address `pa`.
pub open spec fn view_contains_pa(v: ExecutionView, pa: u64) -> bool {
    (exists|i: int| 0 <= i < v.writeable.len() && (#[trigger] v.writeable[i] >> PAGE_BITS) == pa >> PAGE_BITS)
    || (exists|i: int| 0 <= i < v.readable.len() && (#[trigger] v.readable[i] >> PAGE_BITS) == pa >> PAGE_BITS)
}

/// The result of setting the context of the execution `v` (see `Execution::set_context`).
pub open spec fn context_result(v: ExecutionView, user_context: u64, ttbr0: u64) -> Result<(), ContextError> {
    if ttbr0 & 0x3F != 0 {
        Err(ContextError::MisalignedTtbr0)
    } else if !view_contains_pa(v, ttbr0) {
        Err(ContextError::InaccessibleTtbr0)
    } else if user_context % 8 != 0 {
        Err(ContextError::MisalignedUserContext)
    } else if (user_context >> 48u64) & 0xFF != 0 {
        Err(ContextError::InaccessibleUserContext)
    } else {
        Ok(())
    }
}

/// The wake-up token after an unblock: a blocked execution runs again, a running one gets a
/// token (tokens do not accumulate).
pub open spec fn token_after_unblock(token: i8) -> i8 {
    if token == 0 {
        1
    } else {
        2
    }
}

/// The wake-up token after a block: a running execution without a token blocks, one with a
/// token consumes it.
pub open spec fn token_after_block(token: i8) -> i8 {
    if token == 1 {
        0
    } else {
        1
    }
}

/// Unblocking a running execution and then blocking it leaves it running without a token, as
/// it was: the block consumes the token instead of blocking.
pub proof fn law_unblock_then_block(token: i8)
    requires
        token == 1,
    ensures
        token_after_unblock(token) == 2,
        token_after_block(token_after_unblock(token)) == token,
{
}

/// Blocking a running execution without a token and then unblocking it leaves it running, as
/// it was.
pub proof fn law_block_then_unblock(token: i8)
    requires
        token == 1,
    ensures
        token_after_block(token) == 0,
        token_after_unblock(token_after_block(token)) == token,
{
}

/// Wake-up tokens do not accumulate: unblocking twice is unblocking once, for an execution that
/// is not blocked.
pub proof fn law_unblock_idempotent(token: i8)
    requires
        1 <= token <= 2,
    ensures
        token_after_unblock(token_after_unblock(token)) == token_after_unblock(token),
{
}

} // verus!
