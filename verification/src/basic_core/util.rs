//! The clock.

use std::time::{Duration, SystemTime, UNIX_EPOCH};
use vstd::prelude::*;

verus! {

/// A time, carried from the clock.
#[verifier::external_type_specification]
#[verifier::external_body]
pub struct ExSystemTime(SystemTime);

/// The nanoseconds of a span of time.
pub uninterp spec fn nanos_in(d: Duration) -> int;

/// The nanoseconds from the Unix epoch to a time, negative where the time lies before the epoch.
pub uninterp spec fn nanos_since_epoch(time: SystemTime) -> int;

/// `SystemTime::now` reads the clock. Which time it is depends on the clock.
pub assume_specification[ SystemTime::now ]() -> (r: SystemTime);

/// `Duration::as_secs` gives the whole seconds of a span, without the fraction.
pub assume_specification[ Duration::as_secs ](d: &Duration) -> (r: u64)
    ensures
        r as int == nanos_in(*d) / 1_000_000_000,
;

/// `SystemTime::duration_since` the Unix epoch gives the span from the epoch to the time. Nothing, where
/// the time lies before the epoch.
#[verifier::external_body]
fn since_epoch(time: SystemTime) -> (r: Option<Duration>)
    ensures
        match r {
            Some(d) => nanos_since_epoch(time) >= 0 && nanos_in(d) == nanos_since_epoch(time),
            None => nanos_since_epoch(time) < 0,
        },
{
    time.duration_since(UNIX_EPOCH).ok()
}

/// The whole seconds from the Unix epoch to a time, or 0 where the time lies before the epoch.
pub open spec fn timestamp_of(time: SystemTime) -> int {
    if nanos_since_epoch(time) < 0 {
        0
    } else {
        nanos_since_epoch(time) / 1_000_000_000
    }
}

/// A time in seconds since the Unix epoch.
pub fn timestamp_secs(time: SystemTime) -> (r: u64)
    ensures
        r == timestamp_of(time),
{
    match since_epoch(time) {
        Some(span) => span.as_secs(),
        None => 0,
    }
}

/// The time in seconds since the Unix epoch.
pub fn current_timestamp_secs() -> (r: u64)
    ensures
        exists|now: SystemTime| r == #[trigger] timestamp_of(now),
{
    let now = SystemTime::now();
    timestamp_secs(now)
}

// ---------------------------------------------------------------------------------------------
// Laws.


/// A time is given by the whole seconds that have passed since the epoch, and one before the epoch by
/// none. Later times are not given by fewer seconds.
pub proof fn law_seconds_pass(earlier: SystemTime, later: SystemTime, r: u64, s: u64)
    requires
        call_ensures(timestamp_secs, (earlier,), r),
        call_ensures(timestamp_secs, (later,), s),
        nanos_since_epoch(earlier) <= nanos_since_epoch(later),
    ensures
        r <= s,
        nanos_since_epoch(earlier) >= 0 ==> r * 1_000_000_000 <= nanos_since_epoch(earlier) < (r + 1)
            * 1_000_000_000,
        nanos_since_epoch(earlier) < 0 ==> r == 0,
{
}

} // verus!
