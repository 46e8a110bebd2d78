//! The clock.
use vstd::prelude::*;

verus! {

/// Calls `std::time::SystemTime::elapsed` on the Unix epoch and gives the
/// milliseconds; zero where the clock stands before the epoch. It reads the
/// clock, so nothing is said of what comes.
#[verifier::external_body]
pub(crate) fn unix_millis() -> (r: u128) {
    std::time::UNIX_EPOCH.elapsed().unwrap_or_default().as_millis()
}

} // verus!
