use std::time::{SystemTime, UNIX_EPOCH};
use vstd::prelude::*;

verus! {

/// Relies on `std::time::SystemTime::now`: reads the system clock; the rest
/// of the body only converts the reading to a plain count of nanoseconds
/// since the Unix epoch.  `duration_since` reports a clock that reads before
/// the epoch as an error; that reading is converted to zero, so the call
/// cannot abort.  A reading too far in the future wraps in the 64-bit count.
/// Nothing can be promised of what the clock reads.
#[verifier::external_body]
fn read_clock_nanos() -> i64 {
    let now = SystemTime::now();
    match now.duration_since(UNIX_EPOCH) {
        Ok(since_the_epoch) => since_the_epoch.as_nanos() as i64,
        Err(_) => 0,
    }
}

/// The current moment, as nanoseconds since the Unix epoch; a clock reading
/// before the epoch yields zero.  The reading depends on the machine's
/// clock, so no two calls are related to each other.
pub fn current_timestamp() -> i64 {
    read_clock_nanos()
}

} // verus!
