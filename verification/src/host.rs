//! What the engine takes from outside: the monotonic clock of the standard
//! library and a source of random bytes.
//!
//! Nothing in this file is proved. Each item says what is taken on trust,
//! which is very little: the results depend on time and chance, so the
//! engine is verified for every value they may have.

use vstd::prelude::*;

verus! {

/// `std::time::Instant`, a point in time on the monotonic clock. Its
/// contents are hidden; the engine only stores one and asks how long ago
/// it was.
#[verifier::external_type_specification]
#[verifier::external_body]
pub struct ExInstant(std::time::Instant);

/// `Instant::now` reads the clock. Nothing is claimed of the result.
pub assume_specification[ std::time::Instant::now ]() -> (now: std::time::Instant)
;

/// `Instant::elapsed` measures the time since an instant. Nothing is
/// claimed of the result.
pub assume_specification[ std::time::Instant::elapsed ](start: &std::time::Instant) -> (elapsed:
    std::time::Duration)
;

/// `Duration::as_nanos` gives a duration in whole nanoseconds. Nothing is
/// claimed of the result.
pub assume_specification[ std::time::Duration::as_nanos ](duration: &std::time::Duration) -> (nanos:
    u128)
;

/// Draws one byte with `rand::random`, which uses the generator of the
/// calling thread. Nothing is claimed of the byte: every value is possible.
#[verifier::external_body]
pub(crate) fn random_byte() -> (byte: u8) {
    rand::random::<u8>()
}

} // verus!
