//! Wall-clock time, read through the system clock.

use vstd::prelude::*;

verus! {

/// Relies on `std::time::SystemTime::now` and `duration_since`: the elapsed
/// milliseconds since the Unix epoch when the clock is at or past it, and
/// nothing when the clock is set before it. Nothing is assumed of the value:
/// the clock may move arbitrarily between calls.
#[verifier::external_body]
fn epoch_millis() -> (r: Option<u64>) {
    match std::time::SystemTime::now().duration_since(std::time::UNIX_EPOCH) {
        Ok(d) => Some(d.as_millis() as u64),
        Err(_) => None,
    }
}

/// The current time in milliseconds; zero for clocks set before the epoch.
pub fn now_millis() -> (r: u64) {
    match epoch_millis() {
        Some(t) => t,
        None => 0,
    }
}

} // verus!
