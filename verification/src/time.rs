//! Time-based circuit breaker: recovery from the open state is gated by a
//! wall-clock timeout read from a pluggable clock, and the very call that
//! finds the timeout elapsed immediately probes the operation.

use vstd::prelude::*;

use crate::cb::{CircuitBreaker, CircuitResult, CircuitState};

verus! {

/// A source of timestamps on one non-decreasing timeline.
///
/// `last` is the latest reading handed out, a lower bound on every future
/// reading.  A `deterministic` clock is one whose readings are exactly
/// predictable: `now` returns `last` and moves only when the owner advances
/// it explicitly.
pub trait Clock: Sized {
    /// The latest reading handed out.
    spec fn last(&self) -> u64;

    /// Whether readings are exactly predictable from `last`.
    spec fn deterministic(&self) -> bool;

    /// The current reading; never below any earlier reading.
    fn now(&mut self) -> (t: u64)
        ensures
            old(self).last() <= t,
            old(self).deterministic() ==> t == old(self).last(),
            final(self).last() == t,
            final(self).deterministic() == old(self).deterministic(),
    ;
}

/// Deterministic clock for tests: readings return exactly the stored time,
/// which moves only through `advance`.
#[derive(Debug, Clone)]
pub struct ManualClock {
    pub time: u64,
}

impl ManualClock {
    /// A manual clock whose first reading is `start`.
    pub fn new(start: u64) -> (c: ManualClock)
        ensures
            c.time == start,
    {
        ManualClock { time: start }
    }

    /// Move the clock forward by `d`.
    pub fn advance(&mut self, d: u64)
        requires
            old(self).time + d <= u64::MAX,
        ensures
            final(self).time == old(self).time + d,
    {
        self.time = self.time + d;
    }
}

impl Clock for ManualClock {
    open spec fn last(&self) -> u64 {
        self.time
    }

    open spec fn deterministic(&self) -> bool {
        true
    }

    fn now(&mut self) -> u64 {
        self.time
    }
}

#[verifier::external_type_specification]
#[verifier::external_body]
pub struct ExInstant(std::time::Instant);

/// Relies on std::time::Instant::now for an opaque starting point on the
/// platform's monotonic timeline.
#[verifier::external_body]
fn instant_now() -> std::time::Instant {
    std::time::Instant::now()
}

/// Wall-clock time source: readings are the nanoseconds elapsed since the
/// clock was created, taken from the platform's monotonic clock and
/// saturated to `u64`.
#[derive(Clone, Copy)]
pub struct RealClock {
    start: std::time::Instant,
    last_read: Ghost<u64>,
}

impl RealClock {
    /// A real clock whose readings start near zero.
    pub fn new() -> (c: RealClock)
        ensures
            c.last() == 0,
    {
        RealClock { start: instant_now(), last_read: Ghost(0u64) }
    }
}

/// Relies on std::time::Instant::elapsed: instants are monotonically
/// non-decreasing, so successive elapsed readings from one starting point
/// never decrease, and neither do their saturations to `u64`.  The reading
/// becomes the clock's new lower bound.
#[verifier::external_body]
fn real_clock_read(c: &mut RealClock) -> (t: u64)
    ensures
        old(c).last_read@ <= t,
        final(c).last_read@ == t,
{
    let nanos = c.start.elapsed().as_nanos();
    u64::try_from(nanos).unwrap_or(u64::MAX)
}

impl Clock for RealClock {
    closed spec fn last(&self) -> u64 {
        self.last_read@
    }

    open spec fn deterministic(&self) -> bool {
        false
    }

    fn now(&mut self) -> (t: u64) {
        real_clock_read(self)
    }
}

/// One reading `t` was taken from the clock, moving it from `pre` to `post`:
/// at least the previous lower bound, and exactly it for a deterministic
/// clock.
pub open spec fn reads_one<C: Clock>(pre: C, post: C, t: u64) -> bool {
    &&& pre.last() <= t
    &&& (pre.deterministic() ==> t == pre.last())
    &&& post.last() == t
    &&& post.deterministic() == pre.deterministic()
}

/// Two successive readings `t0` then `t1` were taken from the clock, moving
/// it from `pre` to `post`.
pub open spec fn reads_two<C: Clock>(pre: C, post: C, t0: u64, t1: u64) -> bool {
    &&& pre.last() <= t0
    &&& t0 <= t1
    &&& (pre.deterministic() ==> t0 == pre.last() && t1 == t0)
    &&& post.last() == t1
    &&& post.deterministic() == pre.deterministic()
}

/// Time-based breaker.  While closed it counts consecutive failures and
/// trips open at `closed_failures_threshold`, recording when it opened;
/// while open it rejects calls until `open_timeout` has elapsed on its
/// clock, and the first call after that immediately probes the operation;
/// while half-open, a successful probe closes it and
/// `half_open_probes_threshold` failing probes reopen it afresh.
#[derive(Debug)]
pub struct TimeCB<C: Clock = RealClock> {
    pub clock: C,
    pub state: CircuitState,
    pub open_timeout: u64,
    pub open_at: Option<u64>,
    pub closed_failures: u8,
    pub closed_failures_threshold: u8,
    pub half_open_probes: u8,
    pub half_open_probes_threshold: u8,
}

impl<C: Clock> TimeCB<C> {
    /// The moment the open cooldown elapses (meaningful only while an open
    /// timestamp is recorded).
    pub open spec fn deadline(&self) -> int {
        match self.open_at {
            Some(a) => a + self.open_timeout,
            None => 0,
        }
    }

    /// The fixed configuration is never changed by a call.
    pub open spec fn same_config(pre: Self, post: Self) -> bool {
        &&& post.open_timeout == pre.open_timeout
        &&& post.closed_failures_threshold == pre.closed_failures_threshold
        &&& post.half_open_probes_threshold == pre.half_open_probes_threshold
    }

    /// Create a breaker around the given clock; the timeout and both
    /// thresholds must be positive.
    pub fn with_clock(
        open_timeout: u64,
        half_open_probes_threshold: u8,
        closed_failures_threshold: u8,
        clock: C,
    ) -> (cb: TimeCB<C>)
        requires
            open_timeout > 0,
            half_open_probes_threshold > 0,
            closed_failures_threshold > 0,
        ensures
            cb == (TimeCB {
                clock,
                state: CircuitState::Closed,
                open_timeout,
                open_at: None,
                closed_failures: 0,
                closed_failures_threshold,
                half_open_probes: 0,
                half_open_probes_threshold,
            }),
            cb.inv(),
    {
        TimeCB {
            clock,
            state: CircuitState::Closed,
            open_at: None,
            half_open_probes: 0,
            closed_failures: 0,
            closed_failures_threshold,
            open_timeout,
            half_open_probes_threshold,
        }
    }
}

impl TimeCB<RealClock> {
    /// Create a breaker around the real monotonic clock; the timeout and
    /// both thresholds must be positive.
    pub fn new(
        open_timeout: u64,
        half_open_probes_threshold: u8,
        closed_failures_threshold: u8,
    ) -> (cb: TimeCB<RealClock>)
        requires
            open_timeout > 0,
            half_open_probes_threshold > 0,
            closed_failures_threshold > 0,
        ensures
            cb.state is Closed,
            cb.open_at is None,
            cb.closed_failures == 0,
            cb.half_open_probes == 0,
            cb.open_timeout == open_timeout,
            cb.closed_failures_threshold == closed_failures_threshold,
            cb.half_open_probes_threshold == half_open_probes_threshold,
            cb.inv(),
    {
        Self::with_clock(
            open_timeout,
            half_open_probes_threshold,
            closed_failures_threshold,
            RealClock::new(),
        )
    }
}

impl TimeCB<ManualClock> {
    /// Move the manual clock forward by `d` without touching the breaker.
    pub fn tick(&mut self, d: u64)
        requires
            old(self).inv(),
            old(self).clock.time + d <= u64::MAX,
        ensures
            final(self).inv(),
            final(self).clock.time == old(self).clock.time + d,
            final(self).state == old(self).state,
            final(self).open_at == old(self).open_at,
            final(self).closed_failures == old(self).closed_failures,
            final(self).half_open_probes == old(self).half_open_probes,
            Self::tick_step(*old(self), *final(self)),
    {
        self.clock.advance(d);
    }
}

impl<C: Clock> CircuitBreaker for TimeCB<C> {
    open spec fn inv(&self) -> bool {
        &&& self.closed_failures_threshold > 0
        &&& self.half_open_probes_threshold > 0
        &&& self.open_timeout > 0
        &&& match self.state {
            CircuitState::Closed => self.closed_failures < self.closed_failures_threshold
                && self.half_open_probes == 0 && self.open_at is None,
            CircuitState::Open => self.closed_failures == self.closed_failures_threshold
                && self.half_open_probes == 0 && match self.open_at {
                Some(a) => a <= self.clock.last(),
                None => false,
            },
            CircuitState::HalfOpen => self.closed_failures == self.closed_failures_threshold
                && self.half_open_probes < self.half_open_probes_threshold && match self.open_at {
                Some(a) => a + self.open_timeout <= self.clock.last(),
                None => false,
            },
        }
    }

    open spec fn spec_state(&self) -> CircuitState {
        self.state
    }

    open spec fn rejected_step(pre: Self, post: Self) -> bool {
        &&& pre.state is Open
        &&& Self::same_config(pre, post)
        &&& post.state is Open
        &&& post.closed_failures == pre.closed_failures
        &&& post.half_open_probes == pre.half_open_probes
        &&& post.open_at == pre.open_at
        &&& exists|t: u64| #[trigger] reads_one(pre.clock, post.clock, t) && t < pre.deadline()
    }

    open spec fn succeeded_step(pre: Self, post: Self) -> bool {
        &&& Self::same_config(pre, post)
        &&& post.state is Closed
        &&& post.closed_failures == 0
        &&& post.half_open_probes == 0
        &&& post.open_at is None
        &&& match pre.state {
            CircuitState::Closed => post.clock == pre.clock,
            CircuitState::HalfOpen => post.clock == pre.clock,
            CircuitState::Open => exists|t: u64|
                #[trigger] reads_one(pre.clock, post.clock, t) && pre.deadline() <= t,
        }
    }

    open spec fn failed_step(pre: Self, post: Self) -> bool {
        &&& Self::same_config(pre, post)
        &&& match pre.state {
            CircuitState::Closed => {
                &&& post.closed_failures == pre.closed_failures + 1
                &&& post.half_open_probes == pre.half_open_probes
                &&& if pre.closed_failures + 1 == pre.closed_failures_threshold {
                    &&& post.state is Open
                    &&& exists|t: u64|
                        #[trigger] reads_one(pre.clock, post.clock, t) && post.open_at == Some(t)
                } else {
                    &&& post.state is Closed
                    &&& post.open_at == pre.open_at
                    &&& post.clock == pre.clock
                }
            },
            CircuitState::HalfOpen => {
                &&& post.closed_failures == pre.closed_failures
                &&& if pre.half_open_probes + 1 == pre.half_open_probes_threshold {
                    &&& post.state is Open
                    &&& post.half_open_probes == 0
                    &&& exists|t: u64|
                        #[trigger] reads_one(pre.clock, post.clock, t) && post.open_at == Some(t)
                } else {
                    &&& post.state is HalfOpen
                    &&& post.half_open_probes == pre.half_open_probes + 1
                    &&& post.open_at == pre.open_at
                    &&& post.clock == pre.clock
                }
            },
            CircuitState::Open => {
                // The cooldown had elapsed, so this call probed the
                // operation in the instant it left the open state.
                &&& post.closed_failures == pre.closed_failures
                &&& if pre.half_open_probes_threshold == 1 {
                    &&& post.state is Open
                    &&& post.half_open_probes == 0
                    &&& exists|t0: u64, t1: u64|
                        #[trigger] reads_two(pre.clock, post.clock, t0, t1) && pre.deadline() <= t0
                            && post.open_at == Some(t1)
                } else {
                    &&& post.state is HalfOpen
                    &&& post.half_open_probes == 1
                    &&& post.open_at == pre.open_at
                    &&& exists|t0: u64|
                        #[trigger] reads_one(pre.clock, post.clock, t0) && pre.deadline() <= t0
                }
            },
        }
    }

    fn call<F, R>(&mut self, f: F) -> (res: CircuitResult) where F: FnOnce() -> Result<R, ()> {
        match self.state {
            CircuitState::Closed => {
                let result = f();
                match result {
                    Ok(_) => {
                        self.closed_failures = 0;
                        CircuitResult::Succeeded
                    },
                    Err(_) => {
                        self.closed_failures = self.closed_failures + 1;
                        if self.closed_failures == self.closed_failures_threshold {
                            self.state = CircuitState::Open;
                            let t: u64 = self.clock.now();
                            self.open_at = Some(t);
                            proof {
                                assert(reads_one(old(self).clock, self.clock, t));
                            }
                        }
                        CircuitResult::Failed
                    },
                }
            },
            CircuitState::Open => {
                let t0: u64 = self.clock.now();
                let a: u64 = self.open_at.unwrap();
                if t0 - a >= self.open_timeout {
                    self.state = CircuitState::HalfOpen;
                    self.half_open_probes = 0;
                    let result = f();
                    match result {
                        Ok(_) => {
                            self.state = CircuitState::Closed;
                            self.closed_failures = 0;
                            self.open_at = None;
                            self.half_open_probes = 0;
                            proof {
                                assert(reads_one(old(self).clock, self.clock, t0));
                            }
                            CircuitResult::Succeeded
                        },
                        Err(_) => {
                            self.half_open_probes = self.half_open_probes + 1;
                            if self.half_open_probes == self.half_open_probes_threshold {
                                self.state = CircuitState::Open;
                                self.half_open_probes = 0;
                                let t1: u64 = self.clock.now();
                                self.open_at = Some(t1);
                                proof {
                                    assert(reads_two(old(self).clock, self.clock, t0, t1));
                                }
                            } else {
                                proof {
                                    assert(reads_one(old(self).clock, self.clock, t0));
                                }
                            }
                            CircuitResult::Failed
                        },
                    }
                } else {
                    proof {
                        assert(reads_one(old(self).clock, self.clock, t0));
                    }
                    CircuitResult::Rejected
                }
            },
            CircuitState::HalfOpen => {
                let result = f();
                match result {
                    Ok(_) => {
                        self.state = CircuitState::Closed;
                        self.closed_failures = 0;
                        self.open_at = None;
                        self.half_open_probes = 0;
                        CircuitResult::Succeeded
                    },
                    Err(_) => {
                        self.half_open_probes = self.half_open_probes + 1;
                        if self.half_open_probes == self.half_open_probes_threshold {
                            self.state = CircuitState::Open;
                            self.half_open_probes = 0;
                            let t: u64 = self.clock.now();
                            self.open_at = Some(t);
                            proof {
                                assert(reads_one(old(self).clock, self.clock, t));
                            }
                        }
                        CircuitResult::Failed
                    },
                }
            },
        }
    }

    fn state(&self) -> CircuitState {
        self.state
    }
}

impl<C: Clock> TimeCB<C> {
    /// The clock moved forward while the breaker itself stood still, as
    /// `tick` does for the manual clock.
    pub open spec fn tick_step(pre: Self, post: Self) -> bool {
        &&& Self::same_config(pre, post)
        &&& post.state == pre.state
        &&& post.open_at == pre.open_at
        &&& post.closed_failures == pre.closed_failures
        &&& post.half_open_probes == pre.half_open_probes
        &&& pre.clock.last() <= post.clock.last()
    }

    /// One event of the breaker's life: a call that rejected, succeeded or
    /// failed, or a movement of the clock.
    pub open spec fn event_step(pre: Self, post: Self) -> bool {
        ||| Self::rejected_step(pre, post)
        ||| Self::succeeded_step(pre, post)
        ||| Self::failed_step(pre, post)
        ||| Self::tick_step(pre, post)
    }

    /// Any single event — rejection, success, failure, or a clock movement —
    /// carries a well-formed breaker to a well-formed breaker.
    pub proof fn lemma_any_step_preserves_inv(pre: TimeCB<C>, post: TimeCB<C>)
        requires
            pre.inv(),
            Self::event_step(pre, post),
        ensures
            post.inv(),
    {
    }

    /// A trace: consecutive breakers are related by one event each.
    pub open spec fn trace_ok(tr: Seq<TimeCB<C>>) -> bool {
        forall|i: int| 0 <= i < tr.len() - 1 ==> Self::event_step(#[trigger] tr[i], tr[i + 1])
    }

    /// Along any trace of calls and clock movements, however long, a breaker
    /// that starts well-formed is well-formed at every point: no sequence of
    /// events ever violates the invariant.
    pub proof fn lemma_trace_preserves_inv(tr: Seq<TimeCB<C>>)
        requires
            tr.len() > 0,
            tr[0].inv(),
            Self::trace_ok(tr),
        ensures
            forall|i: int| 0 <= i < tr.len() ==> (#[trigger] tr[i]).inv(),
    {
        assert forall|i: int| 0 <= i < tr.len() implies (#[trigger] tr[i]).inv() by {
            Self::lemma_trace_inv_at(tr, i);
        }
    }

    proof fn lemma_trace_inv_at(tr: Seq<TimeCB<C>>, i: int)
        requires
            tr.len() > 0,
            tr[0].inv(),
            Self::trace_ok(tr),
            0 <= i < tr.len(),
        ensures
            tr[i].inv(),
        decreases i,
    {
        if i > 0 {
            Self::lemma_trace_inv_at(tr, i - 1);
            Self::lemma_any_step_preserves_inv(tr[i - 1], tr[i]);
        }
    }

    /// A successful call on a closed breaker leaves it closed with a clean
    /// failure history and does not touch the clock.
    pub proof fn lemma_closed_success_stays_closed(pre: TimeCB<C>, post: TimeCB<C>)
        requires
            pre.inv(),
            pre.spec_state() is Closed,
            Self::succeeded_step(pre, post),
        ensures
            post.spec_state() is Closed,
            post.closed_failures == 0,
            post.clock == pre.clock,
    {
    }

    /// While open on a deterministic clock that has not yet reached the
    /// cooldown deadline, a call can only reject: the operation is not
    /// invoked and nothing but the clock's reading moves.
    pub proof fn lemma_open_before_deadline_only_rejects(
        pre: TimeCB<C>,
        post: TimeCB<C>,
        res: CircuitResult,
    )
        requires
            pre.inv(),
            pre.spec_state() is Open,
            pre.clock.deterministic(),
            pre.clock.last() < pre.deadline(),
            res is Rejected ==> Self::rejected_step(pre, post),
            res is Succeeded ==> Self::succeeded_step(pre, post),
            res is Failed ==> Self::failed_step(pre, post),
        ensures
            res is Rejected,
            post.spec_state() is Open,
            post.open_at == pre.open_at,
            post.closed_failures == pre.closed_failures,
    {
    }

    /// While open on a deterministic clock that has reached the cooldown
    /// deadline, a call never rejects: the operation is probed within that
    /// same call, which closes the breaker on success and, on failure,
    /// either holds it half-open or reopens it when a single probe is the
    /// whole allowance.
    pub proof fn lemma_open_after_deadline_probes(
        pre: TimeCB<C>,
        post: TimeCB<C>,
        res: CircuitResult,
    )
        requires
            pre.inv(),
            pre.spec_state() is Open,
            pre.clock.deterministic(),
            pre.deadline() <= pre.clock.last(),
            res is Rejected ==> Self::rejected_step(pre, post),
            res is Succeeded ==> Self::succeeded_step(pre, post),
            res is Failed ==> Self::failed_step(pre, post),
        ensures
            !(res is Rejected),
            res is Succeeded ==> post.spec_state() is Closed,
            res is Failed && pre.half_open_probes_threshold > 1 ==> post.spec_state() is HalfOpen,
            res is Failed && pre.half_open_probes_threshold == 1 ==> post.spec_state() is Open,
    {
    }

    /// A failing probe below the probes threshold leaves the breaker
    /// half-open with the probe counted and the recorded opening moment
    /// untouched; the probe that reaches the threshold reopens the breaker
    /// with a freshly recorded opening moment.
    pub proof fn lemma_probe_failure(pre: TimeCB<C>, post: TimeCB<C>)
        requires
            pre.inv(),
            pre.spec_state() is HalfOpen,
            Self::failed_step(pre, post),
        ensures
            pre.half_open_probes + 1 < pre.half_open_probes_threshold ==> post.spec_state()
                is HalfOpen && post.half_open_probes == pre.half_open_probes + 1 && post.open_at
                == pre.open_at,
            pre.half_open_probes + 1 == pre.half_open_probes_threshold ==> post.spec_state()
                is Open && post.open_at == Some(post.clock.last()) && pre.clock.last()
                <= post.clock.last(),
    {
    }
}

} // verus!
