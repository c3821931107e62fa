//! Count-based circuit breaker: failures accumulate while closed, but any
//! success while closed clears the failure counter.

use vstd::prelude::*;

use crate::cb::{CircuitBreaker, CircuitResult, CircuitState};

verus! {

/// Count-based breaker.  While closed it counts consecutive failures and
/// trips open at `closed_failures_threshold`; while open it counts rejected
/// attempts and moves to half-open after `half_open_threshold` of them; a
/// successful probe closes it again, a failing probe reopens it while the
/// failure counter stays at the threshold.
#[derive(Debug)]
pub struct CountCB {
    pub state: CircuitState,
    pub closed_failures: u8,
    pub closed_failures_threshold: u8,
    pub half_open_attempts: u8,
    pub half_open_threshold: u8,
}

impl CountCB {
    /// The breaker `new` hands out: closed, with both counters at zero.
    pub open spec fn spec_new(failure_threshold: u8, half_open_threshold: u8) -> CountCB {
        CountCB {
            state: CircuitState::Closed,
            closed_failures: 0,
            closed_failures_threshold: failure_threshold,
            half_open_attempts: 0,
            half_open_threshold,
        }
    }

    /// The transition table of this breaker: from a breaker and the outcome
    /// of the guarded operation (ignored while open, where the operation is
    /// never invoked) to the next breaker and the reported result.
    pub open spec fn step(pre: CountCB, op_ok: bool) -> (CountCB, CircuitResult) {
        match pre.state {
            CircuitState::Closed => {
                if op_ok {
                    (CountCB { closed_failures: 0, ..pre }, CircuitResult::Succeeded)
                } else if pre.closed_failures + 1 == pre.closed_failures_threshold {
                    (
                        CountCB {
                            state: CircuitState::Open,
                            closed_failures: (pre.closed_failures + 1) as u8,
                            ..pre
                        },
                        CircuitResult::Failed,
                    )
                } else {
                    (
                        CountCB { closed_failures: (pre.closed_failures + 1) as u8, ..pre },
                        CircuitResult::Failed,
                    )
                }
            },
            CircuitState::Open => {
                if pre.half_open_attempts + 1 == pre.half_open_threshold {
                    (
                        CountCB { state: CircuitState::HalfOpen, half_open_attempts: 0, ..pre },
                        CircuitResult::Rejected,
                    )
                } else {
                    (
                        CountCB {
                            half_open_attempts: (pre.half_open_attempts + 1) as u8,
                            ..pre
                        },
                        CircuitResult::Rejected,
                    )
                }
            },
            CircuitState::HalfOpen => {
                if op_ok {
                    (
                        CountCB { state: CircuitState::Closed, closed_failures: 0, ..pre },
                        CircuitResult::Succeeded,
                    )
                } else {
                    (
                        CountCB { state: CircuitState::Open, half_open_attempts: 0, ..pre },
                        CircuitResult::Failed,
                    )
                }
            },
        }
    }

    /// Create a breaker with the given thresholds; both must be positive.
    pub fn new(failure_threshold: u8, half_open_threshold: u8) -> (cb: CountCB)
        requires
            failure_threshold > 0,
            half_open_threshold > 0,
        ensures
            cb == Self::spec_new(failure_threshold, half_open_threshold),
            cb.inv(),
    {
        CountCB {
            state: CircuitState::Closed,
            closed_failures: 0,
            closed_failures_threshold: failure_threshold,
            half_open_attempts: 0,
            half_open_threshold,
        }
    }
}

impl CircuitBreaker for CountCB {
    open spec fn inv(&self) -> bool {
        &&& self.closed_failures_threshold > 0
        &&& self.half_open_threshold > 0
        &&& match self.state {
            CircuitState::Closed => self.closed_failures < self.closed_failures_threshold
                && self.half_open_attempts == 0,
            CircuitState::Open => self.closed_failures == self.closed_failures_threshold
                && self.half_open_attempts < self.half_open_threshold,
            CircuitState::HalfOpen => self.closed_failures == self.closed_failures_threshold
                && self.half_open_attempts == 0,
        }
    }

    open spec fn spec_state(&self) -> CircuitState {
        self.state
    }

    open spec fn rejected_step(pre: CountCB, post: CountCB) -> bool {
        Self::step(pre, true) == (post, CircuitResult::Rejected)
    }

    open spec fn succeeded_step(pre: CountCB, post: CountCB) -> bool {
        Self::step(pre, true) == (post, CircuitResult::Succeeded)
    }

    open spec fn failed_step(pre: CountCB, post: CountCB) -> bool {
        Self::step(pre, false) == (post, CircuitResult::Failed)
    }

    fn call<F, R>(&mut self, f: F) -> (res: CircuitResult) where F: FnOnce() -> Result<R, ()> {
        match self.state {
            CircuitState::Closed => {
                let result = f();
                match result {
                    Ok(_) => {
                        self.closed_failures = 0;
                        CircuitResult::Succeeded
                    },
                    Err(_) => {
                        self.closed_failures = self.closed_failures + 1;
                        if self.closed_failures == self.closed_failures_threshold {
                            self.state = CircuitState::Open;
                        }
                        CircuitResult::Failed
                    },
                }
            },
            CircuitState::Open => {
                self.half_open_attempts = self.half_open_attempts + 1;
                if self.half_open_attempts == self.half_open_threshold {
                    self.state = CircuitState::HalfOpen;
                    self.half_open_attempts = 0;
                }
                CircuitResult::Rejected
            },
            CircuitState::HalfOpen => {
                let result = f();
                match result {
                    Ok(_) => {
                        self.state = CircuitState::Closed;
                        self.closed_failures = 0;
                        CircuitResult::Succeeded
                    },
                    Err(_) => {
                        self.state = CircuitState::Open;
                        self.half_open_attempts = 0;
                        CircuitResult::Failed
                    },
                }
            },
        }
    }

    fn state(&self) -> CircuitState {
        self.state
    }
}

impl CountCB {
    /// The breaker after a whole sequence of operation outcomes, one `step`
    /// per element (the outcome is ignored for steps taken while open).
    pub open spec fn run(pre: CountCB, ops: Seq<bool>) -> CountCB
        decreases ops.len(),
    {
        if ops.len() == 0 {
            pre
        } else {
            Self::run(Self::step(pre, ops[0]).0, ops.drop_first())
        }
    }

    /// Each step of the transition table preserves well-formedness.
    pub proof fn lemma_step_preserves_inv(pre: CountCB, op_ok: bool)
        requires
            pre.inv(),
        ensures
            Self::step(pre, op_ok).0.inv(),
    {
    }

    /// No sequence of outcomes, however long, drives a well-formed breaker
    /// into a state that violates its invariant.
    pub proof fn lemma_run_preserves_inv(pre: CountCB, ops: Seq<bool>)
        requires
            pre.inv(),
        ensures
            Self::run(pre, ops).inv(),
        decreases ops.len(),
    {
        if ops.len() > 0 {
            Self::lemma_step_preserves_inv(pre, ops[0]);
            Self::lemma_run_preserves_inv(Self::step(pre, ops[0]).0, ops.drop_first());
        }
    }

    /// Running one more outcome after a sequence is one more step.
    pub proof fn lemma_run_push(pre: CountCB, ops: Seq<bool>, op_ok: bool)
        ensures
            Self::run(pre, ops.push(op_ok)) == Self::step(Self::run(pre, ops), op_ok).0,
        decreases ops.len(),
    {
        if ops.len() == 0 {
            assert(ops.push(op_ok)[0] == op_ok);
            assert(ops.push(op_ok).drop_first() =~= Seq::<bool>::empty());
            assert(Self::run(pre, ops.push(op_ok)) == Self::run(
                Self::step(pre, op_ok).0,
                Seq::<bool>::empty(),
            ));
        } else {
            assert(ops.push(op_ok)[0] == ops[0]);
            assert(ops.push(op_ok).drop_first() =~= ops.drop_first().push(op_ok));
            assert(Self::run(pre, ops.push(op_ok)) == Self::run(
                Self::step(pre, ops[0]).0,
                ops.drop_first().push(op_ok),
            ));
            Self::lemma_run_push(Self::step(pre, ops[0]).0, ops.drop_first(), op_ok);
        }
    }

    /// Running a concatenation is running the two halves in order.
    pub proof fn lemma_run_append(pre: CountCB, ops1: Seq<bool>, ops2: Seq<bool>)
        ensures
            Self::run(pre, ops1 + ops2) == Self::run(Self::run(pre, ops1), ops2),
        decreases ops1.len(),
    {
        if ops1.len() == 0 {
            assert(ops1 + ops2 =~= ops2);
        } else {
            assert((ops1 + ops2).drop_first() =~= ops1.drop_first() + ops2);
            Self::lemma_run_append(Self::step(pre, ops1[0]).0, ops1.drop_first(), ops2);
        }
    }

    /// A sequence of failures, every element `false`.
    pub open spec fn failures(n: int) -> Seq<bool> {
        Seq::new(n as nat, |i: int| false)
    }

    /// A freshly built breaker is closed, and a single successful call
    /// reports success and leaves it exactly as built.
    pub proof fn lemma_new_success_stays_closed(failure_threshold: u8, half_open_threshold: u8)
        requires
            failure_threshold > 0,
            half_open_threshold > 0,
        ensures
            Self::spec_new(failure_threshold, half_open_threshold).inv(),
            Self::spec_new(failure_threshold, half_open_threshold).spec_state() is Closed,
            Self::step(Self::spec_new(failure_threshold, half_open_threshold), true) == (
                Self::spec_new(failure_threshold, half_open_threshold),
                CircuitResult::Succeeded,
            ),
    {
    }

    /// From a fresh breaker, fewer failures than the threshold leave it
    /// closed with the failures counted, and exactly the threshold's worth of
    /// consecutive failures trips it open.
    pub proof fn lemma_failures_trip_at_threshold(
        failure_threshold: u8,
        half_open_threshold: u8,
        k: int,
    )
        requires
            failure_threshold > 0,
            half_open_threshold > 0,
            0 <= k <= failure_threshold,
        ensures
            ({
                let fresh = Self::spec_new(failure_threshold, half_open_threshold);
                let b = Self::run(fresh, Self::failures(k));
                if k < failure_threshold {
                    b == (CountCB { closed_failures: k as u8, ..fresh })
                } else {
                    b == (CountCB {
                        state: CircuitState::Open,
                        closed_failures: failure_threshold,
                        ..fresh
                    })
                }
            }),
        decreases k,
    {
        let fresh = Self::spec_new(failure_threshold, half_open_threshold);
        if k == 0 {
            assert(Self::failures(0) =~= Seq::<bool>::empty());
        } else {
            Self::lemma_failures_trip_at_threshold(failure_threshold, half_open_threshold, k - 1);
            assert(Self::failures(k) =~= Self::failures(k - 1).push(false));
            Self::lemma_run_push(fresh, Self::failures(k - 1), false);
        }
    }

    /// While open, calls are rejected and counted until `half_open_threshold`
    /// of them have been rejected, at which point the breaker is half-open
    /// with the attempt counter cleared.  The operations' outcomes play no
    /// role: the operation is never invoked while open.
    pub proof fn lemma_open_rejects_until_half_open(b: CountCB, ops: Seq<bool>)
        requires
            b.inv(),
            b.spec_state() is Open,
            b.half_open_attempts + ops.len() <= b.half_open_threshold,
        ensures
            ({
                let c = Self::run(b, ops);
                if b.half_open_attempts + ops.len() < b.half_open_threshold {
                    c == (CountCB {
                        half_open_attempts: (b.half_open_attempts + ops.len()) as u8,
                        ..b
                    })
                } else if ops.len() == 0 {
                    c == b
                } else {
                    c == (CountCB { state: CircuitState::HalfOpen, half_open_attempts: 0, ..b })
                }
            }),
        decreases ops.len(),
    {
        if ops.len() > 0 {
            let b1 = Self::step(b, ops[0]).0;
            if b1.spec_state() is Open {
                Self::lemma_open_rejects_until_half_open(b1, ops.drop_first());
            } else {
                assert(ops.drop_first().len() == 0);
                assert(Self::run(b1, ops.drop_first()) == b1);
            }
        }
    }

    /// A failing probe reopens the breaker while the failure counter stays
    /// pinned at the threshold, so the open-state invariant survives repeated
    /// open/half-open cycles.
    pub proof fn lemma_failed_probe_keeps_failure_count(b: CountCB)
        requires
            b.inv(),
            b.spec_state() is HalfOpen,
        ensures
            Self::step(b, false).0.spec_state() is Open,
            Self::step(b, false).0.closed_failures == b.closed_failures_threshold,
            Self::step(b, false).0.inv(),
    {
    }

    /// Success wipes the failure history: one short of the threshold, then a
    /// success, then one short of the threshold again never opens the breaker
    /// at any point, while the threshold's worth of consecutive failures
    /// does.
    pub proof fn lemma_success_resets_failure_window(
        failure_threshold: u8,
        half_open_threshold: u8,
    )
        requires
            failure_threshold > 0,
            half_open_threshold > 0,
        ensures
            ({
                let fresh = Self::spec_new(failure_threshold, half_open_threshold);
                let evs = Self::failures(failure_threshold - 1) + seq![true] + Self::failures(
                    failure_threshold - 1,
                );
                forall|k: int|
                    0 <= k <= evs.len() ==> (#[trigger] Self::run(
                        fresh,
                        evs.take(k),
                    )).spec_state() is Closed
            }),
            Self::run(
                Self::spec_new(failure_threshold, half_open_threshold),
                Self::failures(failure_threshold as int),
            ).spec_state() is Open,
    {
        let ft = failure_threshold as int;
        let fresh = Self::spec_new(failure_threshold, half_open_threshold);
        let evs = Self::failures(ft - 1) + seq![true] + Self::failures(ft - 1);
        Self::lemma_failures_trip_at_threshold(failure_threshold, half_open_threshold, ft);
        assert forall|k: int| 0 <= k <= evs.len() implies (#[trigger] Self::run(
            fresh,
            evs.take(k),
        )).spec_state() is Closed by {
            if k <= ft - 1 {
                assert(evs.take(k) =~= Self::failures(k));
                Self::lemma_failures_trip_at_threshold(failure_threshold, half_open_threshold, k);
            } else {
                let head = Self::failures(ft - 1).push(true);
                assert(evs.take(k) =~= head + Self::failures(k - ft));
                Self::lemma_run_append(fresh, head, Self::failures(k - ft));
                Self::lemma_failures_trip_at_threshold(
                    failure_threshold,
                    half_open_threshold,
                    ft - 1,
                );
                Self::lemma_run_push(fresh, Self::failures(ft - 1), true);
                assert(Self::run(fresh, head) == fresh);
                Self::lemma_failures_trip_at_threshold(
                    failure_threshold,
                    half_open_threshold,
                    k - ft,
                );
            }
        }
    }
}

} // verus!
