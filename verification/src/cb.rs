//! Core circuit-breaker types and the capability every breaker variant offers.

use vstd::prelude::*;

verus! {

/// Observable states of a circuit breaker.
#[derive(Debug, Clone, Copy, PartialEq, Eq)]
pub enum CircuitState {
    /// Normal operation: calls pass through to the guarded operation.
    Closed,
    /// Tripped: calls are rejected (count-based breakers) or rejected until a
    /// timeout elapses (time-based breakers).
    Open,
    /// Probation: a limited number of probe calls reach the operation.
    HalfOpen,
}

/// What one guarded call reported.
#[derive(Debug, Clone, PartialEq, Eq)]
pub enum CircuitResult {
    /// The operation was never invoked.
    Rejected,
    /// The operation ran and failed.
    Failed,
    /// The operation ran and succeeded.
    Succeeded,
}

/// The capability shared by every breaker variant.
///
/// Each implementation supplies a well-formedness predicate `inv` together
/// with three step relations that pin down exactly how one `call` may change
/// the breaker.  `call` reports `Succeeded` or `Failed` only when the wrapped
/// operation actually returned `Ok` or `Err`, and `Rejected` only when the
/// operation was never invoked; the matching step relation connects the
/// breaker before the call to the breaker after it.
pub trait CircuitBreaker: Sized {
    /// Well-formedness of the breaker's state and counters, preserved by
    /// every call.
    spec fn inv(&self) -> bool;

    /// The state that `state` reports.
    spec fn spec_state(&self) -> CircuitState;

    /// How a call that rejected the operation relates the breaker before the
    /// call to the breaker after it.
    spec fn rejected_step(pre: Self, post: Self) -> bool;

    /// How a call whose operation succeeded relates the breaker before the
    /// call to the breaker after it.
    spec fn succeeded_step(pre: Self, post: Self) -> bool;

    /// How a call whose operation failed relates the breaker before the call
    /// to the breaker after it.
    spec fn failed_step(pre: Self, post: Self) -> bool;

    /// Guard one invocation of `f`: run it, reject it, or probe with it,
    /// depending on the breaker's state.  The operation is invoked at most
    /// once and never retried.
    fn call<F, R>(&mut self, f: F) -> (res: CircuitResult) where F: FnOnce() -> Result<R, ()>
        requires
            old(self).inv(),
            call_requires(f, ()),
        ensures
            final(self).inv(),
            res is Rejected ==> Self::rejected_step(*old(self), *final(self)),
            res is Succeeded ==> Self::succeeded_step(*old(self), *final(self))
                && (exists|r: Result<R, ()>| #[trigger] call_ensures(f, (), r) && r is Ok),
            res is Failed ==> Self::failed_step(*old(self), *final(self))
                && (exists|r: Result<R, ()>| #[trigger] call_ensures(f, (), r) && r is Err),
    ;

    /// The current state; a pure read.
    fn state(&self) -> (s: CircuitState)
        ensures
            s == self.spec_state(),
    ;
}

} // verus!
