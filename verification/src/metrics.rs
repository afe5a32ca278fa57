//! The plain values behind the telemetry: status labels and the numeric
//! encoding of the circuit-breaker state.  The counters themselves are kept
//! by the metrics backend outside the library.

use vstd::prelude::*;

verus! {

/// The circuit breaker's position.
#[derive(Clone, Copy, Debug, PartialEq, Eq, Structural)]
pub enum CircuitBreakerState {
    Closed,
    Open,
    HalfOpen,
}

/// The gauge value a breaker state is exported as: 0 closed, 1 open, 2
/// half-open.
pub fn circuit_breaker_level(state: CircuitBreakerState) -> (r: u8)
    ensures
        r == (match state {
            CircuitBreakerState::Closed => 0int,
            CircuitBreakerState::Open => 1int,
            CircuitBreakerState::HalfOpen => 2int,
        }),
{
    match state {
        CircuitBreakerState::Closed => 0,
        CircuitBreakerState::Open => 1,
        CircuitBreakerState::HalfOpen => 2,
    }
}

/// The status label of an attempt.
pub fn status_label(success: bool) -> (r: String)
    ensures
        r@ == (if success {
            "success"@
        } else {
            "failed"@
        }),
{
    if success {
        "success".to_owned()
    } else {
        "failed".to_owned()
    }
}

} // verus!
