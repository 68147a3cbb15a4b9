//! Locks: the transitions of their lock words, and the locks as seen by one thread.
use vstd::prelude::*;

verus! {

/// Lock word of an unlocked reader-writer lock.
pub const UNLOCKED: u8 = 0;
/// Largest number of readers of a reader-writer lock.
pub const MAX_READERS: u8 = 254;
/// Lock word of a reader-writer lock held by a writer.
pub const WRITER: u8 = 255;

/// Acquiring a reader-writer lock for reading: succeeds, with the new lock word, unless the
/// lock is held by a writer or by the maximum number of readers.
pub fn read_acquire(state: u8) -> (r: Option<u8>)
    ensures
        r == read_acquire_spec(state),
        r == (if state == MAX_READERS || state == WRITER { None } else { Some((state + 1) as u8) }),
{
    if state == MAX_READERS || state == WRITER {
        None
    } else {
        Some(state + 1)
    }
}

/// Acquiring a reader-writer lock for writing: succeeds only if the lock is unlocked.
pub fn write_acquire(state: u8) -> (r: Option<u8>)
    ensures
        r == write_acquire_spec(state),
        r == (if state == UNLOCKED { Some(WRITER) } else { None }),
{
    if state == UNLOCKED {
        Some(WRITER)
    } else {
        None
    }
}

/// Releasing a read lock: one reader fewer.
pub fn read_release(state: u8) -> (r: u8)
    ensures
        r == state.wrapping_sub(1),
{
    state.wrapping_sub(1)
}

/// Releasing a write lock unlocks the lock.
pub fn write_release() -> (r: u8)
    ensures
        r == UNLOCKED,
{
    UNLOCKED
}

/// Downgrading a write lock leaves the writer as the one reader.
pub fn write_downgrade() -> (r: u8)
    ensures
        r == 1,
{
    1
}

/// Acquiring a spinlock, given whether it was locked: succeeds only if it was not; the lock
/// is locked afterwards either way.
pub fn spin_acquire(was_locked: bool) -> (r: bool)
    ensures
        r == !was_locked,
{
    !was_locked
}

/// A reader that acquires and releases a read lock leaves the lock word as it was; no reader
/// gets in while a writer holds the lock, and readers never make the lock look write-locked.
pub proof fn law_read_round_trip(state: u8)
    ensures
        state != MAX_READERS && state != WRITER ==> (state + 1) as u8 != WRITER && ((state + 1) as u8).wrapping_sub(1) == state,
        state == WRITER ==> read_acquire_spec(state) is None,
{
}

/// A writer that acquires and releases a write lock leaves the lock unlocked, and only an
/// unlocked lock can be acquired for writing.
pub proof fn law_write_excludes(state: u8)
    ensures
        write_acquire_spec(state) is Some <==> state == UNLOCKED,
        write_acquire_spec(state) is Some ==> read_acquire_spec(write_acquire_spec(state).unwrap()) is None,
{
}

/// The lock word after an acquisition for reading, if it succeeds.
pub open spec fn read_acquire_spec(state: u8) -> Option<u8> {
    if state == MAX_READERS || state == WRITER { None } else { Some((state + 1) as u8) }
}

/// The lock word after an acquisition for writing, if it succeeds.
pub open spec fn write_acquire_spec(state: u8) -> Option<u8> {
    if state == UNLOCKED { Some(WRITER) } else { None }
}

/// What one of the holders of a reader-writer lock does to its lock word; an acquisition that
/// fails leaves the word unchanged, and the holder tries again later.
pub enum LockEvent {
    /// A try to take the lock for reading.
    ReadAcquire,
    /// A reader lets go of the lock.
    ReadRelease,
    /// A try to take the lock for writing.
    WriteAcquire,
    /// The writer lets go of the lock.
    WriteRelease,
    /// The writer becomes a reader.
    Downgrade,
}

/// The lock word of a reader-writer lock, with the number of readers and of writers holding it.
pub struct LockCensus {
    /// The lock word.
    pub word: u8,
    /// How many readers hold the lock.
    pub readers: nat,
    /// How many writers hold the lock.
    pub writers: nat,
}

/// The census after `event`, made atomically on the lock word by the transitions above.
pub open spec fn lock_step(s: LockCensus, event: LockEvent) -> LockCensus {
    match event {
        LockEvent::ReadAcquire => match read_acquire_spec(s.word) {
            Some(w) => LockCensus { word: w, readers: s.readers + 1, writers: s.writers },
            None => s,
        },
        LockEvent::ReadRelease => LockCensus {
            word: s.word.wrapping_sub(1),
            readers: (s.readers - 1) as nat,
            writers: s.writers,
        },
        LockEvent::WriteAcquire => match write_acquire_spec(s.word) {
            Some(w) => LockCensus { word: w, readers: s.readers, writers: s.writers + 1 },
            None => s,
        },
        LockEvent::WriteRelease => LockCensus { word: UNLOCKED, readers: s.readers, writers: (s.writers - 1) as nat },
        LockEvent::Downgrade => LockCensus { word: 1, readers: s.readers + 1, writers: (s.writers - 1) as nat },
    }
}

/// Whether `event` can happen in `s`: only a reader releases a read lock, and only a writer
/// releases or downgrades a write lock.
pub open spec fn lock_event_allowed(s: LockCensus, event: LockEvent) -> bool {
    match event {
        LockEvent::ReadRelease => s.readers > 0,
        LockEvent::WriteRelease | LockEvent::Downgrade => s.writers > 0,
        _ => true,
    }
}

/// The census of a lock created unlocked, after `events`, made one after another by any of
/// its holders.
pub open spec fn lock_after(events: Seq<LockEvent>) -> LockCensus
    decreases events.len(),
{
    if events.len() == 0 {
        LockCensus { word: UNLOCKED, readers: 0, writers: 0 }
    } else {
        lock_step(lock_after(events.drop_last()), events.last())
    }
}

/// Whether each of `events` can happen when it is made.
pub open spec fn lock_events_allowed(events: Seq<LockEvent>) -> bool {
    forall|i: int| 0 <= i < events.len() ==> lock_event_allowed(lock_after(events.take(i)), #[trigger] events[i])
}

/// Whatever the holders of a reader-writer lock do, in whatever order: a writer holds it alone
/// (no reader and no other writer), the lock word then being `WRITER`; otherwise the lock word
/// is the number of readers, which never exceeds `MAX_READERS`.
pub proof fn law_lock_word_counts_holders(events: Seq<LockEvent>)
    requires
        lock_events_allowed(events),
    ensures
        lock_after(events).writers <= 1,
        lock_after(events).writers == 1 ==> lock_after(events).readers == 0 && lock_after(events).word == WRITER,
        lock_after(events).writers == 0 ==> lock_after(events).word == lock_after(events).readers
            && lock_after(events).readers <= MAX_READERS,
    decreases events.len(),
{
    if events.len() > 0 {
        let prefix = events.drop_last();
        assert forall|i: int| 0 <= i < prefix.len() implies lock_event_allowed(lock_after(prefix.take(i)), #[trigger] prefix[i]) by {
            assert(prefix.take(i) =~= events.take(i));
            assert(prefix[i] == events[i]);
        }
        law_lock_word_counts_holders(prefix);
        let k = events.len() - 1;
        assert(events.take(k) =~= prefix);
        assert(lock_event_allowed(lock_after(events.take(k)), events[k]));
    }
}

/// The spinlock after `events` (`true` to lock, `false` to unlock), made one after another by
/// any of its holders: whether it is locked, and how many hold it.
pub open spec fn spin_after(events: Seq<bool>) -> (bool, nat)
    decreases events.len(),
{
    if events.len() == 0 {
        (false, 0)
    } else {
        let (locked, holders) = spin_after(events.drop_last());
        if events.last() {
            if locked { (locked, holders) } else { (true, holders + 1) }
        } else {
            (false, (holders - 1) as nat)
        }
    }
}

/// Whether only holders of a spinlock unlock it in `events`.
pub open spec fn spin_events_allowed(events: Seq<bool>) -> bool {
    forall|i: int| 0 <= i < events.len() && !#[trigger] events[i] ==> spin_after(events.take(i)).1 > 0
}

/// Whatever the users of a spinlock do, in whatever order, at most one holds it, and it is
/// locked exactly while one does.
pub proof fn law_spinlock_excludes(events: Seq<bool>)
    requires
        spin_events_allowed(events),
    ensures
        spin_after(events).1 <= 1,
        spin_after(events).0 <==> spin_after(events).1 == 1,
    decreases events.len(),
{
    if events.len() > 0 {
        let prefix = events.drop_last();
        assert forall|i: int| 0 <= i < prefix.len() && !#[trigger] prefix[i] implies spin_after(prefix.take(i)).1 > 0 by {
            assert(prefix.take(i) =~= events.take(i));
            assert(prefix[i] == events[i]);
        }
        law_spinlock_excludes(prefix);
        let k = events.len() - 1;
        assert(events.take(k) =~= prefix);
        assert(!events[k] ==> spin_after(events.take(k)).1 > 0);
    }
}

/// A reader-writer lock, as one thread uses it: the lock word and the protected data.
pub struct RwLock<T> {
    /// * 0: The lock is not held by anyone
    /// * `u8::MAX`: The lock is held by a writer
    /// * Any other value: The lock is held by `state` readers
    state: u8,
    /// The protected data
    data: T,
}

/// A read lock on a `RwLock`.
pub struct ReadGuard {
    held: bool,
}

/// A write lock on a `RwLock`.
pub struct WriteGuard {
    held: bool,
}

impl ReadGuard {
    /// The current lock word of the lock this guard holds.
    pub fn state<T>(&self, lock: &RwLock<T>) -> (r: u8)
        ensures
            r == lock.spec_state(),
    {
        lock.state
    }
}

impl WriteGuard {
    /// The current lock word of the lock this guard holds.
    pub fn state<T>(&self, lock: &RwLock<T>) -> (r: u8)
        ensures
            r == lock.spec_state(),
    {
        lock.state
    }
}

impl<T> RwLock<T> {
    /// The lock word.
    pub closed spec fn spec_state(&self) -> u8 {
        self.state
    }

    /// The protected data.
    pub closed spec fn spec_data(&self) -> T {
        self.data
    }

    /// Creates an unlocked lock around the given data.
    pub fn new(data: T) -> (r: Self)
        ensures
            r.spec_state() == UNLOCKED,
            r.spec_data() == data,
    {
        RwLock { state: UNLOCKED, data }
    }

    /// Locks for reading. The lock must not be held by a writer or by the maximum number of
    /// readers: a thread waiting for itself would wait forever.
    pub fn read(&mut self) -> (r: ReadGuard)
        requires
            read_acquire_spec(old(self).spec_state()) is Some,
        ensures
            final(self).spec_state() == read_acquire_spec(old(self).spec_state()).unwrap(),
            final(self).spec_data() == old(self).spec_data(),
    {
        let state = match read_acquire(self.state) {
            Some(s) => s,
            None => self.state,
        };
        self.state = state;
        ReadGuard { held: true }
    }

    /// Locks for writing. The lock must be unlocked.
    pub fn write(&mut self) -> (r: WriteGuard)
        requires
            old(self).spec_state() == UNLOCKED,
        ensures
            final(self).spec_state() == WRITER,
            final(self).spec_data() == old(self).spec_data(),
    {
        self.state = WRITER;
        WriteGuard { held: true }
    }

    /// Unlocks the reader end of the lock.
    pub fn unlock_read(&mut self, guard: ReadGuard)
        ensures
            final(self).spec_state() == old(self).spec_state().wrapping_sub(1),
            final(self).spec_data() == old(self).spec_data(),
    {
        self.state = read_release(self.state);
    }

    /// Unlocks the writer end of the lock.
    pub fn unlock_write(&mut self, guard: WriteGuard)
        ensures
            final(self).spec_state() == UNLOCKED,
            final(self).spec_data() == old(self).spec_data(),
    {
        self.state = write_release();
    }

    /// Turns a write lock into a read lock.
    pub fn downgrade(&mut self, guard: WriteGuard) -> (r: ReadGuard)
        ensures
            final(self).spec_state() == 1,
            final(self).spec_data() == old(self).spec_data(),
    {
        self.state = write_downgrade();
        ReadGuard { held: true }
    }

    /// The protected data, for a holder of the lock.
    pub fn data(&self) -> (r: &T)
        ensures
            *r == self.spec_data(),
    {
        &self.data
    }

    /// Replaces the protected data, for the holder of the write lock.
    pub fn replace(&mut self, guard: &WriteGuard, data: T) -> (r: T)
        ensures
            r == old(self).spec_data(),
            final(self).spec_data() == data,
            final(self).spec_state() == old(self).spec_state(),
    {
        let mut data = data;
        std::mem::swap(&mut self.data, &mut data);
        data
    }
}

/// A spinlock mutex, as one thread uses it.
pub struct SpinLock<T> {
    /// Whether or not the spinlock is taken
    is_locked: bool,
    /// The protected data
    data: T,
}

/// The lock of a `SpinLock`.
pub struct MutexGuard {
    held: bool,
}

impl MutexGuard {
    /// Whether the guard still holds its lock.
    pub closed spec fn spec_held(&self) -> bool {
        self.held
    }
}

impl<T> SpinLock<T> {
    /// Whether the lock is taken.
    pub closed spec fn spec_locked(&self) -> bool {
        self.is_locked
    }

    /// The protected data.
    pub closed spec fn spec_data(&self) -> T {
        self.data
    }

    /// Creates an unlocked spinlock around the given data.
    pub fn new(data: T) -> (r: Self)
        ensures
            !r.spec_locked(),
            r.spec_data() == data,
    {
        SpinLock { is_locked: false, data }
    }

    /// Locks the mutex. The lock must not be taken: a thread waiting for itself would wait
    /// forever.
    pub fn lock(&mut self) -> (r: MutexGuard)
        requires
            !old(self).spec_locked(),
        ensures
            final(self).spec_locked(),
            final(self).spec_data() == old(self).spec_data(),
            r.spec_held(),
    {
        self.is_locked = true;
        MutexGuard { held: true }
    }

    /// Unlocks the mutex. The guard must still hold the lock.
    pub fn unlock(&mut self, guard: &mut MutexGuard)
        requires
            old(guard).spec_held(),
        ensures
            !final(self).spec_locked(),
            !final(guard).spec_held(),
            final(self).spec_data() == old(self).spec_data(),
    {
        guard.held = false;
        self.is_locked = false;
    }

    /// The protected data.
    pub fn data(&self) -> (r: &T)
        ensures
            *r == self.spec_data(),
    {
        &self.data
    }
}

} // verus!
