//! The time of an event, as the store holds it: whole seconds since the Unix
//! epoch in a signed 32-bit integer.

use vstd::prelude::*;
use std::time::{Duration, SystemTime, UNIX_EPOCH};

verus! {

/// `std::time::SystemTime`, a point in time of the system clock. It is only
/// carried from one call to the next.
#[verifier::external_type_specification]
#[verifier::external_body]
pub struct ExSystemTime(std::time::SystemTime);

/// The system clock's time, from `SystemTime::now`. Nothing is claimed of it.
#[verifier::external_body]
fn now() -> (time: SystemTime) {
    SystemTime::now()
}

/// How long after the Unix epoch `time` lies, from `SystemTime::duration_since`,
/// or `None` where it lies before the epoch. Nothing is claimed of the span.
#[verifier::external_body]
fn since_epoch(time: &SystemTime) -> (span: Option<Duration>) {
    time.duration_since(UNIX_EPOCH).ok()
}

/// The whole seconds of a span, from `Duration::as_secs`. A span is opaque
/// here, so nothing is claimed of the number.
#[verifier::external_body]
fn whole_seconds(span: &Duration) -> (seconds: u64) {
    span.as_secs()
}

/// The time stamp for `seconds` after the epoch, or `None` where the number
/// does not fit the store's integer.
pub fn timestamp(seconds: u64) -> (stamp: Option<i32>)
    ensures
        stamp == (if seconds <= i32::MAX {
            Some(seconds as i32)
        } else {
            None
        }),
{
    if seconds <= i32::MAX as u64 {
        Some(seconds as i32)
    } else {
        None
    }
}

/// The current time as a time stamp. There is none where the clock stands
/// before the epoch or too far after it for the store's integer.
pub fn current_time() -> (stamp: Option<i32>)
    ensures
        stamp matches Some(t) ==> t >= 0,
{
    let time = now();
    match since_epoch(&time) {
        Some(span) => timestamp(whole_seconds(&span)),
        None => None,
    }
}

} // verus!
