//! The wall clock.  What it reads cannot be foretold, so nothing is
//! promised of it: every rule that depends on the time is stated in a
//! function that takes the reading as an argument.

use std::time::{SystemTime, UNIX_EPOCH};
use vstd::prelude::*;

verus! {

/// Calls `SystemTime::now` and gives the whole milliseconds since the Unix
/// epoch, or zero when the clock reads earlier than the epoch.
#[verifier::external_body]
pub(crate) fn current_epoch_millis() -> u128 {
    SystemTime::now().duration_since(UNIX_EPOCH).map(|d| d.as_millis()).unwrap_or(0)
}

/// The whole seconds in a count of milliseconds, held to what a `u64`
/// can carry.
pub open spec fn whole_seconds(millis: u128) -> u64 {
    if millis / 1000 > u64::MAX {
        u64::MAX
    } else {
        (millis / 1000) as u64
    }
}

/// The whole seconds in a count of milliseconds.
pub fn seconds_of(millis: u128) -> (secs: u64)
    ensures
        secs == whole_seconds(millis),
{
    let secs: u128 = millis / 1000;
    if secs > u64::MAX as u128 {
        u64::MAX
    } else {
        secs as u64
    }
}

/// The present second since the Unix epoch.
pub fn current_epoch_sec() -> u64 {
    seconds_of(current_epoch_millis())
}

} // verus!
