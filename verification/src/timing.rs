use vstd::prelude::*;
use std::time::Instant;

verus! {

#[verifier::external_type_specification]
#[verifier::external_body]
pub struct ExInstant(Instant);

/// One timed pass over an operation. Elapsed time is kept in whole microseconds;
/// as an unsigned count it is never negative.
pub struct TimingSample {
    pub elapsed_micros: u64,
}

/// Relies on std::time::Instant::now: a reading of the host's monotonic clock.
/// Nothing is promised of the reading.
#[verifier::external_body]
pub(crate) fn clock_now() -> (t: Instant) {
    Instant::now()
}

/// Relies on std::time::Instant::saturating_duration_since: the time elapsed from
/// `start` to `end`, or zero if `start` is the later reading. Nothing is promised
/// of the value.
#[verifier::external_body]
pub(crate) fn micros_between(start: &Instant, end: &Instant) -> (micros: u64) {
    end.saturating_duration_since(*start).as_micros() as u64
}

/// Relies on core::hint::black_box: an identity function that the compiler must
/// treat as making its argument observable, defeating dead-code elimination of
/// the measured result.
pub assume_specification<T>[ core::hint::black_box::<T> ](v: T) -> (r: T)
    ensures
        r == v,
;

} // verus!
