//! Circuit-breaker state machines and load-balancer selection policies.
//!
//! The breaker half of the crate offers three interchangeable gates that wrap
//! calls to an unreliable operation: a cumulative threshold breaker, a
//! count-based breaker that forgives failures on success, and a time-based
//! breaker whose recovery is driven by a pluggable clock.  The load-balancer
//! half offers round-robin and least-connections server selection over a
//! fixed pool.

pub mod cb;
pub mod circuit_breaker;
pub mod count;
pub mod lb;
pub mod least_connections;
pub mod round_robin;
pub mod time;
