//! Timer support: spans of time, and the conversion between timer ticks and time.
use vstd::prelude::*;

verus! {

/// Nanoseconds per second.
pub const NANOSEC_PER_SEC: u32 = 1_000_000_000;

/// A span of time, in whole seconds and nanoseconds.
#[derive(Clone, Copy, Debug, PartialEq, Eq, Structural)]
pub struct Duration {
    secs: u64,
    nanos: u32,
}

impl Duration {
    /// The span, in nanoseconds.
    pub closed spec fn spec_nanos(self) -> nat {
        (self.secs * NANOSEC_PER_SEC + self.nanos) as nat
    }

    /// Well-formedness: the nanoseconds are less than a second.
    pub closed spec fn wf(self) -> bool {
        self.nanos < NANOSEC_PER_SEC
    }

    /// The longest span that can be represented, in nanoseconds.
    pub open spec fn max_nanos() -> nat {
        (u64::MAX * NANOSEC_PER_SEC + (NANOSEC_PER_SEC - 1)) as nat
    }

    /// Every span fits the representable range.
    pub proof fn lemma_bounds(self)
        requires
            self.wf(),
        ensures
            self.spec_nanos() <= Self::max_nanos(),
    {
        assert(self.secs * NANOSEC_PER_SEC <= u64::MAX * NANOSEC_PER_SEC) by (nonlinear_arith)
            requires self.secs <= u64::MAX;
    }

    /// A span of `secs` seconds and `nanos` nanoseconds; whole seconds of `nanos` carry over.
    pub fn new(secs: u64, nanos: u32) -> (r: Self)
        requires
            secs + nanos / NANOSEC_PER_SEC <= u64::MAX,
        ensures
            r.wf(),
            r.spec_nanos() == secs * NANOSEC_PER_SEC + nanos,
    {
        let extra = nanos / NANOSEC_PER_SEC;
        let r = Duration { secs: secs + extra as u64, nanos: nanos % NANOSEC_PER_SEC };
        assert(r.spec_nanos() == secs * NANOSEC_PER_SEC + nanos) by (nonlinear_arith)
            requires
                r.secs == secs + nanos / NANOSEC_PER_SEC,
                r.nanos == nanos % NANOSEC_PER_SEC,
                r.spec_nanos() == r.secs * NANOSEC_PER_SEC + r.nanos,
                nanos == (nanos / NANOSEC_PER_SEC) * NANOSEC_PER_SEC + nanos % NANOSEC_PER_SEC,
        ;
        r
    }

    /// The empty span.
    pub fn zero() -> (r: Self)
        ensures
            r.wf(),
            r.spec_nanos() == 0,
    {
        Duration { secs: 0, nanos: 0 }
    }

    /// The span of the given number of nanoseconds, which must be representable.
    pub fn from_nanos(nanos: u128) -> (r: Self)
        requires
            nanos <= Self::max_nanos(),
        ensures
            r.wf(),
            r.spec_nanos() == nanos,
    {
        let secs = nanos / (NANOSEC_PER_SEC as u128);
        let sub = nanos % (NANOSEC_PER_SEC as u128);
        assert(secs <= u64::MAX) by (nonlinear_arith)
            requires
                secs == nanos / 1_000_000_000u128,
                nanos <= u64::MAX * 1_000_000_000 + 999_999_999,
        ;
        let r = Duration { secs: secs as u64, nanos: sub as u32 };
        assert(r.spec_nanos() == nanos) by (nonlinear_arith)
            requires
                secs == nanos / 1_000_000_000u128,
                sub == nanos % 1_000_000_000u128,
                r.secs == secs,
                r.nanos == sub,
                r.spec_nanos() == r.secs * NANOSEC_PER_SEC + r.nanos,
        ;
        r
    }

    /// Whole seconds of the span.
    pub fn as_secs(self) -> (r: u64)
        requires
            self.wf(),
        ensures
            r == self.spec_nanos() / (NANOSEC_PER_SEC as nat),
    {
        assert((self.secs * NANOSEC_PER_SEC + self.nanos) / (NANOSEC_PER_SEC as int) == self.secs) by (nonlinear_arith)
            requires self.nanos < NANOSEC_PER_SEC;
        self.secs
    }

    /// Nanoseconds past the whole seconds of the span.
    pub fn subsec_nanos(self) -> (r: u32)
        requires
            self.wf(),
        ensures
            r == self.spec_nanos() % (NANOSEC_PER_SEC as nat),
    {
        assert((self.secs * NANOSEC_PER_SEC + self.nanos) % (NANOSEC_PER_SEC as int) == self.nanos) by (nonlinear_arith)
            requires self.nanos < NANOSEC_PER_SEC;
        self.nanos
    }

    /// The span, in nanoseconds.
    pub fn as_nanos(self) -> (r: u128)
        requires
            self.wf(),
        ensures
            r == self.spec_nanos(),
    {
        assert((self.secs as u128) * 1_000_000_000u128 <= u64::MAX * 1_000_000_000u128) by (nonlinear_arith)
            requires self.secs <= u64::MAX;
        (self.secs as u128) * (NANOSEC_PER_SEC as u128) + (self.nanos as u128)
    }

    /// The sum of two spans, which must be representable.
    pub fn add(self, other: Self) -> (r: Self)
        requires
            self.wf(),
            other.wf(),
            self.spec_nanos() + other.spec_nanos() <= Self::max_nanos(),
        ensures
            r.wf(),
            r.spec_nanos() == self.spec_nanos() + other.spec_nanos(),
    {
        Self::from_nanos(self.as_nanos() + other.as_nanos())
    }

    /// The difference of two spans; `other` must not be longer than `self`.
    pub fn sub(self, other: Self) -> (r: Self)
        requires
            self.wf(),
            other.wf(),
            other.spec_nanos() <= self.spec_nanos(),
        ensures
            r.wf(),
            r.spec_nanos() == self.spec_nanos() - other.spec_nanos(),
    {
        proof {
            self.lemma_bounds();
        }
        Self::from_nanos(self.as_nanos() - other.as_nanos())
    }

    /// Whether `self` is shorter than `other`.
    pub fn lt(self, other: Self) -> (r: bool)
        requires
            self.wf(),
            other.wf(),
        ensures
            r == (self.spec_nanos() < other.spec_nanos()),
    {
        self.as_nanos() < other.as_nanos()
    }
}

/// The current time, given the current tick count of a timer running at `frequency` ticks per
/// second.
pub fn now(ticks: u64, frequency: u32) -> (r: Duration)
    requires
        frequency > 0,
    ensures
        r.wf(),
        r.spec_nanos() == ticks_to_nanos(ticks, frequency),
{
    TimerValue::new(ticks).to_duration(frequency)
}

/// The time until which a wait for at least `duration`, begun at `start`, lasts: the caller
/// waits while the current time is earlier than this.
pub fn wait_at_least(start: Duration, duration: Duration) -> (r: Duration)
    requires
        start.wf(),
        duration.wf(),
        start.spec_nanos() + duration.spec_nanos() <= Duration::max_nanos(),
    ensures
        r.wf(),
        r.spec_nanos() == start.spec_nanos() + duration.spec_nanos(),
{
    start.add(duration)
}

/// Whether a wait that lasts until `target` is over at time `now`.
pub fn wait_is_over(now: Duration, target: Duration) -> (r: bool)
    requires
        now.wf(),
        target.wf(),
    ensures
        r == (now.spec_nanos() >= target.spec_nanos()),
{
    !now.lt(target)
}

/// Encloses a timer given tick value.
#[derive(Clone, Copy, Debug, PartialEq, Eq, Structural)]
pub struct TimerValue(u64);

/// The time, in nanoseconds (rounded down), of `ticks` ticks of a timer running at
/// `frequency` ticks per second.
pub open spec fn ticks_to_nanos(ticks: u64, frequency: u32) -> nat {
    ((ticks * NANOSEC_PER_SEC) / (frequency as int)) as nat
}

/// The number of ticks (rounded down) of a timer running at `frequency` ticks per second in
/// `nanos` nanoseconds.
pub open spec fn nanos_to_ticks(nanos: nat, frequency: u32) -> nat {
    ((nanos * frequency) / (NANOSEC_PER_SEC as int)) as nat
}

impl TimerValue {
    /// The number of ticks.
    pub closed spec fn spec_ticks(self) -> u64 {
        self.0
    }

    /// The largest timer value.
    pub fn max() -> (r: Self)
        ensures
            r.spec_ticks() == u64::MAX,
    {
        TimerValue(u64::MAX)
    }

    /// The timer value of the given number of ticks.
    pub fn new(ticks: u64) -> (r: Self)
        ensures
            r.spec_ticks() == ticks,
    {
        TimerValue(ticks)
    }

    /// The number of ticks.
    pub fn ticks(&self) -> (r: u64)
        ensures
            r == self.spec_ticks(),
    {
        self.0
    }

    /// The sum of two timer values, which must not overflow.
    pub fn add(self, other: Self) -> (r: Self)
        requires
            self.spec_ticks() + other.spec_ticks() <= u64::MAX,
        ensures
            r.spec_ticks() == self.spec_ticks() + other.spec_ticks(),
    {
        TimerValue(self.0 + other.0)
    }

    /// The time of this timer value, for a timer running at `frequency` ticks per second.
    pub fn to_duration(self, frequency: u32) -> (r: Duration)
        requires
            frequency > 0,
        ensures
            r.wf(),
            r.spec_nanos() == ticks_to_nanos(self.spec_ticks(), frequency),
    {
        let nanoseconds: u128 = (self.0 as u128) * (NANOSEC_PER_SEC as u128) / (frequency as u128);
        proof {
            lemma_ticks_to_nanos_bound(self.0, frequency);
        }
        Duration::from_nanos(nanoseconds)
    }

    /// The timer value of a span of time, for a timer running at `frequency` ticks per second.
    ///
    /// Returns an error if the span is longer than the largest timer value.
    pub fn try_from_duration(duration: Duration, frequency: u32) -> (r: Result<Self, &'static str>)
        requires
            frequency > 0,
            duration.wf(),
        ensures
            r is Err <==> duration.spec_nanos() > ticks_to_nanos(u64::MAX, frequency),
            r is Ok ==> r->Ok_0.spec_ticks() == nanos_to_ticks(duration.spec_nanos(), frequency),
    {
        let max = TimerValue::max().to_duration(frequency);
        if max.lt(duration) {
            return Err("Duration is too large to represent with the given timer");
        }
        let nanos = duration.as_nanos();
        proof {
            lemma_nanos_to_ticks_bound(duration.spec_nanos(), frequency);
        }
        let ticks = nanos * (frequency as u128) / (NANOSEC_PER_SEC as u128);
        Ok(TimerValue(ticks as u64))
    }
}

/// The time of any timer value is representable.
proof fn lemma_ticks_to_nanos_bound(ticks: u64, frequency: u32)
    requires
        frequency > 0,
    ensures
        ticks_to_nanos(ticks, frequency) <= ticks * NANOSEC_PER_SEC,
        ticks_to_nanos(ticks, frequency) <= Duration::max_nanos(),
{
    assert((ticks * NANOSEC_PER_SEC) / (frequency as int) <= ticks * NANOSEC_PER_SEC) by (nonlinear_arith)
        requires frequency > 0, ticks >= 0;
    assert(ticks * NANOSEC_PER_SEC <= u64::MAX * NANOSEC_PER_SEC) by (nonlinear_arith)
        requires ticks <= u64::MAX;
}

/// A span no longer than the time of the largest timer value converts to a timer value.
proof fn lemma_nanos_to_ticks_bound(nanos: nat, frequency: u32)
    requires
        frequency > 0,
        nanos <= ticks_to_nanos(u64::MAX, frequency),
    ensures
        nanos_to_ticks(nanos, frequency) <= u64::MAX,
        nanos * frequency <= u128::MAX,
{
    let m = u64::MAX * NANOSEC_PER_SEC;
    let f = frequency as int;
    vstd::arithmetic::div_mod::lemma_fundamental_div_mod(m, f);
    vstd::arithmetic::div_mod::lemma_mod_pos_bound(m, f);
    assert(nanos * f <= (m / f) * f) by (nonlinear_arith)
        requires nanos <= m / f, f > 0;
    assert((m / f) * f <= m) by (nonlinear_arith)
        requires m == f * (m / f) + m % f, m % f >= 0;
    assert((nanos * f) / (NANOSEC_PER_SEC as int) <= m / (NANOSEC_PER_SEC as int)) by {
        vstd::arithmetic::div_mod::lemma_div_is_ordered(nanos * f, m, NANOSEC_PER_SEC as int);
    }
    assert(m / (NANOSEC_PER_SEC as int) == u64::MAX) by {
        vstd::arithmetic::div_mod::lemma_div_multiples_vanish(u64::MAX as int, NANOSEC_PER_SEC as int);
        assert(m == NANOSEC_PER_SEC * u64::MAX);
    }
}

/// Converting a timer value to time and back gives at most the ticks converted: the conversion
/// rounds down, and never overflows.
pub proof fn law_ticks_round_trip(ticks: u64, frequency: u32)
    requires
        frequency > 0,
    ensures
        ticks_to_nanos(ticks, frequency) <= ticks_to_nanos(u64::MAX, frequency),
        nanos_to_ticks(ticks_to_nanos(ticks, frequency), frequency) <= ticks,
{
    let f = frequency as int;
    let n = ticks * NANOSEC_PER_SEC;
    vstd::arithmetic::div_mod::lemma_div_is_ordered(n, u64::MAX * NANOSEC_PER_SEC, f);
    vstd::arithmetic::div_mod::lemma_fundamental_div_mod(n, f);
    vstd::arithmetic::div_mod::lemma_mod_pos_bound(n, f);
    assert((n / f) * f <= n) by (nonlinear_arith)
        requires n == f * (n / f) + n % f, n % f >= 0;
    vstd::arithmetic::div_mod::lemma_div_is_ordered((n / f) * f, n, NANOSEC_PER_SEC as int);
    vstd::arithmetic::div_mod::lemma_div_multiples_vanish(ticks as int, NANOSEC_PER_SEC as int);
    assert(n == NANOSEC_PER_SEC * ticks);
}

} // verus!
