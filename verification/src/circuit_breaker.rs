//! Threshold circuit breaker: failures accumulate while closed and are never
//! cleared by an intervening success.
//!
//! This variant is self-contained: it has its own state and result types and
//! does not implement the shared breaker trait.

use vstd::prelude::*;

verus! {

/// Observable states of the threshold breaker.
#[derive(Debug, Clone, Copy, PartialEq, Eq)]
pub enum CircuitState {
    Closed,
    Open,
    HalfOpen,
}

/// What one guarded call reported.
#[derive(Debug, Clone, PartialEq, Eq)]
pub enum CircuitResult {
    Rejected,
    Failed,
    Succeeded,
}

/// Cumulative-failure breaker.  While closed, failures are counted and never
/// forgiven: `failure_threshold` failures in total, in any mixture with
/// successes, trip the breaker open.
///
/// Note: when a half-open probe fails, this breaker clears its failure
/// counter to zero as it reopens, so after such a reopening the counter no
/// longer matches the threshold; while open or half-open the counter is
/// either the threshold or zero.  `CountCB` instead leaves the counter at the
/// threshold when it reopens.
#[derive(Debug)]
pub struct CircuitBreaker {
    pub state: CircuitState,
    pub failure_count: u8,
    pub failure_threshold: u8,
    pub half_open_attempts: u8,
    pub half_open_threshold: u8,
}

impl CircuitBreaker {
    /// The breaker `new` hands out: closed, with both counters at zero.
    pub open spec fn spec_new(failure_threshold: u8, half_open_threshold: u8) -> CircuitBreaker {
        CircuitBreaker {
            state: CircuitState::Closed,
            failure_count: 0,
            failure_threshold,
            half_open_attempts: 0,
            half_open_threshold,
        }
    }

    /// Well-formedness of the breaker's state and counters, preserved by
    /// every call.
    pub open spec fn inv(&self) -> bool {
        &&& self.failure_threshold > 0
        &&& self.half_open_threshold > 0
        &&& match self.state {
            CircuitState::Closed => self.failure_count < self.failure_threshold
                && self.half_open_attempts == 0,
            CircuitState::Open => (self.failure_count == self.failure_threshold
                || self.failure_count == 0) && self.half_open_attempts < self.half_open_threshold,
            CircuitState::HalfOpen => (self.failure_count == self.failure_threshold
                || self.failure_count == 0) && self.half_open_attempts == 0,
        }
    }

    /// The state that `state` reports.
    pub open spec fn spec_state(&self) -> CircuitState {
        self.state
    }

    /// The transition table of this breaker: from a breaker and the outcome
    /// of the guarded operation (ignored while open, where the operation is
    /// never invoked) to the next breaker and the reported result.
    pub open spec fn step(pre: CircuitBreaker, op_ok: bool) -> (CircuitBreaker, CircuitResult) {
        match pre.state {
            CircuitState::Closed => {
                if op_ok {
                    (pre, CircuitResult::Succeeded)
                } else if pre.failure_count + 1 == pre.failure_threshold {
                    (
                        CircuitBreaker {
                            state: CircuitState::Open,
                            failure_count: (pre.failure_count + 1) as u8,
                            ..pre
                        },
                        CircuitResult::Failed,
                    )
                } else {
                    (
                        CircuitBreaker { failure_count: (pre.failure_count + 1) as u8, ..pre },
                        CircuitResult::Failed,
                    )
                }
            },
            CircuitState::Open => {
                if pre.half_open_attempts + 1 == pre.half_open_threshold {
                    (
                        CircuitBreaker {
                            state: CircuitState::HalfOpen,
                            half_open_attempts: 0,
                            ..pre
                        },
                        CircuitResult::Rejected,
                    )
                } else {
                    (
                        CircuitBreaker {
                            half_open_attempts: (pre.half_open_attempts + 1) as u8,
                            ..pre
                        },
                        CircuitResult::Rejected,
                    )
                }
            },
            CircuitState::HalfOpen => {
                if op_ok {
                    (
                        CircuitBreaker { state: CircuitState::Closed, failure_count: 0, ..pre },
                        CircuitResult::Succeeded,
                    )
                } else {
                    (
                        CircuitBreaker {
                            state: CircuitState::Open,
                            failure_count: 0,
                            half_open_attempts: 0,
                            ..pre
                        },
                        CircuitResult::Failed,
                    )
                }
            },
        }
    }

    /// Create a breaker with the given thresholds; both must be positive.
    pub fn new(failure_threshold: u8, half_open_threshold: u8) -> (cb: CircuitBreaker)
        requires
            failure_threshold > 0,
            half_open_threshold > 0,
        ensures
            cb == Self::spec_new(failure_threshold, half_open_threshold),
            cb.inv(),
    {
        CircuitBreaker {
            state: CircuitState::Closed,
            failure_count: 0,
            failure_threshold,
            half_open_attempts: 0,
            half_open_threshold,
        }
    }

    /// Guard one invocation of `f`: run it, reject it, or probe with it,
    /// depending on the breaker's state.  The operation is invoked at most
    /// once and never retried; it is never invoked while the breaker is
    /// open, and then the call reports `Rejected`.
    pub fn call<F, R>(&mut self, f: F) -> (res: CircuitResult) where F: FnOnce() -> Result<R, ()>
        requires
            old(self).inv(),
            call_requires(f, ()),
        ensures
            final(self).inv(),
            res is Rejected ==> Self::step(*old(self), true) == (*final(self), res)
                && old(self).state is Open,
            res is Succeeded ==> Self::step(*old(self), true) == (*final(self), res)
                && (exists|r: Result<R, ()>| #[trigger] call_ensures(f, (), r) && r is Ok),
            res is Failed ==> Self::step(*old(self), false) == (*final(self), res)
                && (exists|r: Result<R, ()>| #[trigger] call_ensures(f, (), r) && r is Err),
    {
        match self.state {
            CircuitState::Closed => {
                let result = f();
                match result {
                    Ok(_) => CircuitResult::Succeeded,
                    Err(_) => {
                        self.failure_count = self.failure_count + 1;
                        if self.failure_count == self.failure_threshold {
                            self.state = CircuitState::Open;
                        }
                        CircuitResult::Failed
                    },
                }
            },
            CircuitState::Open => {
                self.half_open_attempts = self.half_open_attempts + 1;
                if self.half_open_attempts == self.half_open_threshold {
                    self.state = CircuitState::HalfOpen;
                    self.half_open_attempts = 0;
                }
                CircuitResult::Rejected
            },
            CircuitState::HalfOpen => {
                let result = f();
                match result {
                    Ok(_) => {
                        self.state = CircuitState::Closed;
                        self.failure_count = 0;
                        CircuitResult::Succeeded
                    },
                    Err(_) => {
                        self.state = CircuitState::Open;
                        self.failure_count = 0;
                        self.half_open_attempts = 0;
                        CircuitResult::Failed
                    },
                }
            },
        }
    }

    /// The current state; a pure read.
    pub fn state(&self) -> (s: CircuitState)
        ensures
            s == self.spec_state(),
    {
        self.state
    }
}

impl CircuitBreaker {
    /// The breaker after a whole sequence of operation outcomes, one `step`
    /// per element (the outcome is ignored for steps taken while open).
    pub open spec fn run(pre: CircuitBreaker, ops: Seq<bool>) -> CircuitBreaker
        decreases ops.len(),
    {
        if ops.len() == 0 {
            pre
        } else {
            Self::run(Self::step(pre, ops[0]).0, ops.drop_first())
        }
    }

    /// Each step of the transition table preserves well-formedness.
    pub proof fn lemma_step_preserves_inv(pre: CircuitBreaker, op_ok: bool)
        requires
            pre.inv(),
        ensures
            Self::step(pre, op_ok).0.inv(),
    {
    }

    /// No sequence of outcomes, however long, drives a well-formed breaker
    /// into a state that violates its invariant.
    pub proof fn lemma_run_preserves_inv(pre: CircuitBreaker, ops: Seq<bool>)
        requires
            pre.inv(),
        ensures
            Self::run(pre, ops).inv(),
        decreases ops.len(),
    {
        if ops.len() > 0 {
            Self::lemma_step_preserves_inv(pre, ops[0]);
            Self::lemma_run_preserves_inv(Self::step(pre, ops[0]).0, ops.drop_first());
        }
    }

    /// Running one more outcome after a sequence is one more step.
    pub proof fn lemma_run_push(pre: CircuitBreaker, ops: Seq<bool>, op_ok: bool)
        ensures
            Self::run(pre, ops.push(op_ok)) == Self::step(Self::run(pre, ops), op_ok).0,
        decreases ops.len(),
    {
        if ops.len() == 0 {
            assert(ops.push(op_ok)[0] == op_ok);
            assert(ops.push(op_ok).drop_first() =~= Seq::<bool>::empty());
            assert(Self::run(pre, ops.push(op_ok)) == Self::run(
                Self::step(pre, op_ok).0,
                Seq::<bool>::empty(),
            ));
        } else {
            assert(ops.push(op_ok)[0] == ops[0]);
            assert(ops.push(op_ok).drop_first() =~= ops.drop_first().push(op_ok));
            assert(Self::run(pre, ops.push(op_ok)) == Self::run(
                Self::step(pre, ops[0]).0,
                ops.drop_first().push(op_ok),
            ));
            Self::lemma_run_push(Self::step(pre, ops[0]).0, ops.drop_first(), op_ok);
        }
    }

    /// A sequence of failures, every element `false`.
    pub open spec fn failures(n: int) -> Seq<bool> {
        Seq::new(n as nat, |i: int| false)
    }

    /// A freshly built breaker is closed, and a single successful call
    /// reports success and leaves it exactly as built.
    pub proof fn lemma_new_success_stays_closed(failure_threshold: u8, half_open_threshold: u8)
        requires
            failure_threshold > 0,
            half_open_threshold > 0,
        ensures
            Self::spec_new(failure_threshold, half_open_threshold).inv(),
            Self::spec_new(failure_threshold, half_open_threshold).spec_state() is Closed,
            Self::step(Self::spec_new(failure_threshold, half_open_threshold), true) == (
                Self::spec_new(failure_threshold, half_open_threshold),
                CircuitResult::Succeeded,
            ),
    {
    }

    /// From a fresh breaker, fewer failures than the threshold leave it
    /// closed with the failures counted, and exactly the threshold's worth of
    /// consecutive failures trips it open.
    pub proof fn lemma_failures_trip_at_threshold(
        failure_threshold: u8,
        half_open_threshold: u8,
        k: int,
    )
        requires
            failure_threshold > 0,
            half_open_threshold > 0,
            0 <= k <= failure_threshold,
        ensures
            ({
                let fresh = Self::spec_new(failure_threshold, half_open_threshold);
                let b = Self::run(fresh, Self::failures(k));
                if k < failure_threshold {
                    b == (CircuitBreaker { failure_count: k as u8, ..fresh })
                } else {
                    b == (CircuitBreaker {
                        state: CircuitState::Open,
                        failure_count: failure_threshold,
                        ..fresh
                    })
                }
            }),
        decreases k,
    {
        let fresh = Self::spec_new(failure_threshold, half_open_threshold);
        if k == 0 {
            assert(Self::failures(0) =~= Seq::<bool>::empty());
        } else {
            Self::lemma_failures_trip_at_threshold(failure_threshold, half_open_threshold, k - 1);
            assert(Self::failures(k) =~= Self::failures(k - 1).push(false));
            Self::lemma_run_push(fresh, Self::failures(k - 1), false);
        }
    }

    /// While open, calls are rejected and counted until `half_open_threshold`
    /// of them have been rejected, at which point the breaker is half-open
    /// with the attempt counter cleared.  The operations' outcomes play no
    /// role: the operation is never invoked while open.
    pub proof fn lemma_open_rejects_until_half_open(b: CircuitBreaker, ops: Seq<bool>)
        requires
            b.inv(),
            b.spec_state() is Open,
            b.half_open_attempts + ops.len() <= b.half_open_threshold,
        ensures
            ({
                let c = Self::run(b, ops);
                if b.half_open_attempts + ops.len() < b.half_open_threshold {
                    c == (CircuitBreaker {
                        half_open_attempts: (b.half_open_attempts + ops.len()) as u8,
                        ..b
                    })
                } else if ops.len() == 0 {
                    c == b
                } else {
                    c == (CircuitBreaker {
                        state: CircuitState::HalfOpen,
                        half_open_attempts: 0,
                        ..b
                    })
                }
            }),
        decreases ops.len(),
    {
        if ops.len() > 0 {
            let b1 = Self::step(b, ops[0]).0;
            if b1.spec_state() is Open {
                Self::lemma_open_rejects_until_half_open(b1, ops.drop_first());
            } else {
                assert(ops.drop_first().len() == 0);
                assert(Self::run(b1, ops.drop_first()) == b1);
            }
        }
    }

    /// A failing probe reopens the breaker and clears the failure counter to
    /// zero, so the counter no longer matches the threshold; this is the
    /// documented divergence from `CountCB`, whose counter stays pinned at
    /// the threshold across reopenings.
    pub proof fn lemma_failed_probe_clears_failure_count(b: CircuitBreaker)
        requires
            b.inv(),
            b.spec_state() is HalfOpen,
        ensures
            Self::step(b, false).0.spec_state() is Open,
            Self::step(b, false).0.failure_count == 0,
            Self::step(b, false).0.inv(),
    {
    }
}

} // verus!
