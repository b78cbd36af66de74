//! The time of day.

use vstd::prelude::*;
use crate::order::Timestamp;

verus! {

/// The time now: `std::time::SystemTime::now`, turned into seconds and
/// nanoseconds since the Unix epoch by `prost_types::Timestamp::from`.
///
/// Nothing is claimed of the time itself. The conversion leaves the
/// nanoseconds between 0 and 999,999,999, also for a clock that stands before
/// the epoch, where it counts the seconds down and the fraction forward.
#[verifier::external_body]
pub(crate) fn current_time() -> (now: Timestamp)
    ensures
        now.is_normalized(),
{
    let stamp = prost_types::Timestamp::from(std::time::SystemTime::now());
    Timestamp { seconds: stamp.seconds, nanos: stamp.nanos }
}

} // verus!
