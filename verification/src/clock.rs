//! The monotonic clock of std, as the sampling code sees it.
//!
//! Every reading of the clock depends on the time of the call, so none of these
//! items states anything of its result: the logic that uses a reading takes it
//! as a plain number of nanoseconds and is verified for every value of it.

use std::time::Duration;
use std::time::Instant;
use vstd::prelude::*;

verus! {

/// `std::time::Instant`, carried through the library as an opaque value.
#[verifier::external_type_specification]
#[verifier::external_body]
pub struct ExInstant(Instant);

/// Calls `std::time::Instant::now`. The result is the time of the call, so no
/// clause is stated of it.
#[verifier::external_body]
pub(crate) fn instant_now() -> (now: Instant) {
    Instant::now()
}

/// Calls `std::time::Instant::elapsed`: the time since `start`, zero where the
/// clock reads earlier than `start`. It depends on the time of the call, so no
/// clause is stated of it.
#[verifier::external_body]
pub(crate) fn instant_elapsed(start: &Instant) -> (elapsed: Duration) {
    start.elapsed()
}

/// Calls `std::time::Instant::saturating_duration_since`: the time from
/// `earlier` to `later`, zero where `later` comes first. `Instant` holds no
/// plain value that a clause could speak of, so none is stated.
#[verifier::external_body]
pub(crate) fn instant_since(later: &Instant, earlier: &Instant) -> (span: Duration) {
    later.saturating_duration_since(*earlier)
}

/// Calls `std::time::Duration::as_nanos`: the whole length of `span` in
/// nanoseconds. `Duration` holds no plain value that a clause could speak of,
/// so none is stated.
#[verifier::external_body]
pub(crate) fn duration_nanos(span: &Duration) -> (nanos: u128) {
    span.as_nanos()
}

} // verus!
