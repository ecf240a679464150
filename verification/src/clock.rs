//! Time stamps for alerts.

use std::time::{Duration, UNIX_EPOCH};
use vstd::prelude::*;

verus! {

/// The length of a span of time in nanoseconds. A `Duration` holds whole
/// nanoseconds.
pub uninterp spec fn total_nanos(span: Duration) -> nat;

/// `SystemTime::elapsed` on the Unix epoch, or `None` where the system clock
/// stands before the epoch. What the clock shows is open, so nothing is claimed
/// of the result.
#[verifier::external_body]
fn since_epoch() -> (elapsed: Option<Duration>) {
    UNIX_EPOCH.elapsed().ok()
}

/// `Duration::as_secs`: the whole seconds that a span of time contains. The
/// fraction of a second that is left over is cut off.
pub assume_specification[ Duration::as_secs ](span: &Duration) -> (secs: u64)
    ensures
        secs == total_nanos(*span) / 1_000_000_000,
;

/// The time stamp for a reading of the clock, which is the span since the
/// epoch: its whole seconds. A clock before the epoch counts as the epoch.
pub open spec fn reading_stamp(elapsed: Option<Duration>) -> nat {
    match elapsed {
        Some(span) => total_nanos(span) / 1_000_000_000,
        None => 0,
    }
}

/// One reading of the clock shows no later time than another. `None` stands for
/// any time before the epoch.
pub open spec fn no_later(a: Option<Duration>, b: Option<Duration>) -> bool {
    match (a, b) {
        (Some(a), Some(b)) => total_nanos(a) <= total_nanos(b),
        (Some(_), None) => false,
        (None, _) => true,
    }
}

/// Turns a reading of the clock into a time stamp.
pub fn timestamp_of_reading(elapsed: Option<Duration>) -> (secs: u64)
    ensures
        secs == reading_stamp(elapsed),
        elapsed is None ==> secs == 0,
        elapsed matches Some(span) ==> secs * 1_000_000_000 <= total_nanos(span) < (secs + 1)
            * 1_000_000_000,
{
    match elapsed {
        Some(span) => span.as_secs(),
        None => 0,
    }
}

/// The current time in whole seconds since the Unix epoch: the time stamp for
/// some reading of the system clock. Which reading it is rests on the moment of
/// the call.
pub fn current_timestamp() -> (secs: u64)
    ensures
        exists|elapsed: Option<Duration>| secs == #[trigger] reading_stamp(elapsed),
{
    timestamp_of_reading(since_epoch())
}

/// A later reading gives no smaller time stamp.
pub proof fn law_time_stamps_are_monotone(a: Option<Duration>, b: Option<Duration>)
    requires
        no_later(a, b),
    ensures
        reading_stamp(a) <= reading_stamp(b),
{
}

/// A time stamp is the number of whole seconds in the span since the epoch: no
/// more than the span, and less than a second short of it. Before the epoch it
/// is zero.
pub proof fn law_a_stamp_counts_whole_seconds(elapsed: Option<Duration>)
    ensures
        elapsed matches Some(span) ==> reading_stamp(elapsed) * 1_000_000_000 <= total_nanos(span)
            < (reading_stamp(elapsed) + 1) * 1_000_000_000,
        elapsed is None ==> reading_stamp(elapsed) == 0,
{
}

} // verus!
