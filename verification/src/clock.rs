//! The wall clock.

use vstd::prelude::*;

verus! {

/// Asks `std::time::SystemTime::elapsed` how long ago the Unix epoch was and
/// hands the answer back in nanoseconds, or nothing where the clock of the
/// host stands before the epoch.
///
/// Verus does not read the body. Nothing is claimed of the answer: two
/// calls may give any two values, in any order.
#[verifier::external_body]
pub(crate) fn elapsed_since_epoch() -> (elapsed: Option<u128>) {
    match std::time::UNIX_EPOCH.elapsed() {
        Ok(duration) => Some(duration.as_nanos()),
        Err(_) => None,
    }
}

/// The time that a clock reading stands for, in nanoseconds since the Unix
/// epoch: a clock that stands before the epoch reads as the epoch.
pub(crate) fn nanos_of(reading: Option<u128>) -> (now: u128)
    ensures
        now == (match reading {
            Some(nanos) => nanos,
            None => 0,
        }),
{
    match reading {
        Some(nanos) => nanos,
        None => 0,
    }
}

} // verus!
