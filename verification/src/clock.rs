//! Spans of time and the system clock.

use std::time::Duration;
use std::time::SystemTime;
use std::time::UNIX_EPOCH;
use vstd::prelude::*;

verus! {

/// The length of a span in nanoseconds.
pub uninterp spec fn nanos_of(span: Duration) -> nat;

/// `Duration::as_nanos`: the whole length of the span. A span holds at most `u64::MAX` seconds and
/// less than one second more.
#[verifier::external_body]
pub(crate) fn span_nanos(span: Duration) -> (r: u128)
    ensures
        r == nanos_of(span),
        r < 1_000_000_000 * 0x1_0000_0000_0000_0000,
{
    span.as_nanos()
}

/// `Duration::from_secs`: a span of that many seconds.
#[verifier::external_body]
pub(crate) fn span_from_secs(secs: u64) -> (r: Duration)
    ensures
        nanos_of(r) == secs * 1_000_000_000,
{
    Duration::from_secs(secs)
}

/// `Duration::from_millis`: a span of that many milliseconds.
#[verifier::external_body]
pub(crate) fn span_from_millis(millis: u64) -> (r: Duration)
    ensures
        nanos_of(r) == millis * 1_000_000,
{
    Duration::from_millis(millis)
}

#[verifier::external_type_specification]
#[verifier::external_body]
pub struct ExSystemTime(SystemTime);

/// `SystemTime::now`: reads the system clock; nothing is claimed of what it shows.
pub assume_specification[ SystemTime::now ]() -> SystemTime;

/// `SystemTime::duration_since` the Unix epoch: `None` when the clock shows an earlier time. How
/// long the span is depends on the clock and is not stated.
#[verifier::external_body]
pub(crate) fn since_unix_epoch(now: SystemTime) -> Option<Duration> {
    now.duration_since(UNIX_EPOCH).ok()
}

} // verus!
