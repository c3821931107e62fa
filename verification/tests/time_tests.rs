//! Tests for the time-based breaker, driven by the manual clock.

use breakers::cb::{CircuitBreaker, CircuitResult, CircuitState};
use breakers::time::{ManualClock, TimeCB};

#[test]
fn time_test_closed_success() {
    let clock = ManualClock::new(0);
    let open_timeout = 1;
    let half_open_probes_threshold = 1;
    let closed_failures_threshold = 2;
    let mut cb = TimeCB::with_clock(
        open_timeout,
        half_open_probes_threshold,
        closed_failures_threshold,
        clock,
    );
    assert_eq!(cb.state(), CircuitState::Closed);

    let result = cb.call(|| Ok::<(), ()>(()));
    assert_eq!(result, CircuitResult::Succeeded);
    assert_eq!(cb.state(), CircuitState::Closed);
}

#[test]
fn time_test_closed_failure_stays_closed() {
    let clock = ManualClock::new(0);
    let open_timeout = 1;
    let half_open_probes_threshold = 1;
    let closed_failures_threshold = 2;
    let mut cb = TimeCB::with_clock(
        open_timeout,
        half_open_probes_threshold,
        closed_failures_threshold,
        clock,
    );
    assert_eq!(cb.state(), CircuitState::Closed);

    let result = cb.call(|| Err::<(), ()>(()));
    assert_eq!(result, CircuitResult::Failed);
    assert_eq!(cb.state(), CircuitState::Closed);
}

#[test]
fn time_test_closed_to_open() {
    let clock = ManualClock::new(0);
    let open_timeout = 1;
    let half_open_probes_threshold = 1;
    let closed_failures_threshold = 2;
    let mut cb = TimeCB::with_clock(
        open_timeout,
        half_open_probes_threshold,
        closed_failures_threshold,
        clock,
    );
    assert_eq!(cb.state(), CircuitState::Closed);

    let result = cb.call(|| Err::<(), ()>(()));
    assert_eq!(result, CircuitResult::Failed);
    assert_eq!(cb.state(), CircuitState::Closed);

    let result = cb.call(|| Err::<(), ()>(()));
    assert_eq!(result, CircuitResult::Failed);
    assert_eq!(cb.state(), CircuitState::Open);
}

#[test]
fn test_open_rejects_calls_immediately() {
    let clock = ManualClock::new(0);
    let open_timeout = 1;
    let half_open_probes_threshold = 1;
    let closed_failures_threshold = 2;
    let mut cb = TimeCB::with_clock(
        open_timeout,
        half_open_probes_threshold,
        closed_failures_threshold,
        clock,
    );
    assert_eq!(cb.state(), CircuitState::Closed);

    let result = cb.call(|| Err::<(), ()>(()));
    assert_eq!(result, CircuitResult::Failed);
    assert_eq!(cb.state(), CircuitState::Closed);

    let result = cb.call(|| Err::<(), ()>(()));
    assert_eq!(result, CircuitResult::Failed);
    assert_eq!(cb.state(), CircuitState::Open);

    let result = cb.call(|| Ok::<(), ()>(()));
    assert_eq!(result, CircuitResult::Rejected);
    assert_eq!(cb.state(), CircuitState::Open);
}

#[test]
fn test_open_rejects_until_timeout_then_allows_half_open_call() {
    let clock = ManualClock::new(0);
    let open_timeout = 1;
    let half_open_probes_threshold = 1;
    let closed_failures_threshold = 2;
    let mut cb = TimeCB::with_clock(
        open_timeout,
        half_open_probes_threshold,
        closed_failures_threshold,
        clock,
    );
    assert_eq!(cb.state(), CircuitState::Closed);

    let result = cb.call(|| Err::<(), ()>(()));
    assert_eq!(result, CircuitResult::Failed);
    assert_eq!(cb.state(), CircuitState::Closed);

    cb.tick(1);

    let result = cb.call(|| Err::<(), ()>(()));
    assert_eq!(result, CircuitResult::Failed);
    assert_eq!(cb.state(), CircuitState::Open);

    cb.tick(1);

    let result = cb.call(|| Ok::<(), ()>(()));
    assert_eq!(result, CircuitResult::Succeeded);
    assert_eq!(cb.state(), CircuitState::Closed);
}

#[test]
fn test_half_open_success_closes_breaker() {
    let clock = ManualClock::new(0);
    let open_timeout = 1;
    let half_open_probes_threshold = 1;
    let closed_failures_threshold = 2;
    let mut cb = TimeCB::with_clock(
        open_timeout,
        half_open_probes_threshold,
        closed_failures_threshold,
        clock,
    );
    assert_eq!(cb.state(), CircuitState::Closed);

    let result = cb.call(|| Err::<(), ()>(()));
    assert_eq!(result, CircuitResult::Failed);
    assert_eq!(cb.state(), CircuitState::Closed);

    cb.tick(1);

    let result = cb.call(|| Err::<(), ()>(()));
    assert_eq!(result, CircuitResult::Failed);
    assert_eq!(cb.state(), CircuitState::Open);

    cb.tick(1);

    let result = cb.call(|| Ok::<(), ()>(()));
    assert_eq!(result, CircuitResult::Succeeded);
    assert_eq!(cb.state(), CircuitState::Closed);
}

#[test]
fn test_half_open_failure_opens_breaker() {
    let clock = ManualClock::new(0);
    let open_timeout = 1;
    let half_open_probes_threshold = 1;
    let closed_failures_threshold = 2;
    let mut cb = TimeCB::with_clock(
        open_timeout,
        half_open_probes_threshold,
        closed_failures_threshold,
        clock,
    );
    assert_eq!(cb.state(), CircuitState::Closed);

    let result = cb.call(|| Err::<(), ()>(()));
    assert_eq!(result, CircuitResult::Failed);
    assert_eq!(cb.state(), CircuitState::Closed);

    cb.tick(1);

    let result = cb.call(|| Err::<(), ()>(()));
    assert_eq!(result, CircuitResult::Failed);
    assert_eq!(cb.state(), CircuitState::Open);

    cb.tick(1);

    let result = cb.call(|| Err::<(), ()>(()));
    assert_eq!(result, CircuitResult::Failed);
    assert_eq!(cb.state(), CircuitState::Open);
}

#[test]
fn test_half_open_respects_probes_threshold() {
    let clock = ManualClock::new(0);
    let half_open_probes_threshold = 2;
    let closed_failures_threshold = 2;
    let mut cb = TimeCB::with_clock(
        1,
        half_open_probes_threshold,
        closed_failures_threshold,
        clock,
    );
    assert_eq!(cb.state(), CircuitState::Closed);

    let result = cb.call(|| Err::<(), ()>(()));
    assert_eq!(result, CircuitResult::Failed);
    assert_eq!(cb.state(), CircuitState::Closed);

    cb.tick(1);

    let result = cb.call(|| Err::<(), ()>(()));
    assert_eq!(result, CircuitResult::Failed);
    assert_eq!(cb.state(), CircuitState::Open);

    cb.tick(1);

    let result = cb.call(|| Err::<(), ()>(()));
    assert_eq!(result, CircuitResult::Failed);
    assert_eq!(cb.state(), CircuitState::HalfOpen);

    let result = cb.call(|| Err::<(), ()>(()));
    assert_eq!(result, CircuitResult::Failed);
    assert_eq!(cb.state(), CircuitState::Open);

    let result = cb.call(|| Ok::<(), ()>(()));
    assert_eq!(result, CircuitResult::Rejected);
    assert_eq!(cb.state(), CircuitState::Open);
}

#[test]
fn time_reopen_records_fresh_timestamp() {
    // After the second failing probe reopens the breaker, the recorded
    // opening moment is the reopening instant, so the cooldown starts over.
    let clock = ManualClock::new(0);
    let mut cb = TimeCB::with_clock(3, 1, 1, clock);
    cb.call(|| Err::<(), ()>(()));
    assert_eq!(cb.state(), CircuitState::Open);
    assert_eq!(cb.open_at, Some(0));

    cb.tick(3);
    let result = cb.call(|| Err::<(), ()>(()));
    assert_eq!(result, CircuitResult::Failed);
    assert_eq!(cb.state(), CircuitState::Open);
    assert_eq!(cb.open_at, Some(3));

    cb.tick(2);
    let result = cb.call(|| Ok::<(), ()>(()));
    assert_eq!(result, CircuitResult::Rejected);
    assert_eq!(cb.state(), CircuitState::Open);
}

#[test]
fn time_real_clock_allows_probe_after_timeout() {
    // With the real clock and a one-nanosecond timeout, the cooldown is
    // over almost immediately, so a later call probes and closes the
    // breaker; this would never happen if the clock's readings stood still.
    let mut cb = TimeCB::new(1, 1, 1);
    let result = cb.call(|| Err::<(), ()>(()));
    assert_eq!(result, CircuitResult::Failed);
    assert_eq!(cb.state(), CircuitState::Open);

    let mut closed = false;
    for _ in 0..1_000_000 {
        let result = cb.call(|| Ok::<(), ()>(()));
        if result == CircuitResult::Succeeded {
            closed = true;
            break;
        }
    }
    assert!(closed);
    assert_eq!(cb.state(), CircuitState::Closed);
}

#[test]
fn time_random_sequence_never_panics() {
    // A long pseudo-random mixture of successes, failures and clock
    // movements, checking that the state read-back is always one of the
    // three states.
    let clock = ManualClock::new(0);
    let mut cb = TimeCB::with_clock(5, 5, 10, clock);
    let mut x: u64 = 42;
    for _ in 0..100_000 {
        x = x.wrapping_mul(6364136223846793005).wrapping_add(1442695040888963407);
        match (x >> 33) % 3 {
            0 => {
                cb.call(|| Ok::<(), ()>(()));
            }
            1 => {
                cb.call(|| Err::<(), ()>(()));
            }
            _ => {
                cb.tick(1);
            }
        }
        let s = cb.state();
        assert!(matches!(
            s,
            CircuitState::Closed | CircuitState::Open | CircuitState::HalfOpen
        ));
    }
}
