//! The system clock, read once per call.

use vstd::prelude::*;

verus! {

/// Whole seconds since the Unix epoch by `std::time::SystemTime::now`,
/// through `duration_since(UNIX_EPOCH)` and `as_secs`. A clock set before
/// 1970 reads as 0. Nothing is promised of the value: it is the time.
#[verifier::external_body]
pub(crate) fn unix_now_secs() -> (secs: u64) {
    match std::time::SystemTime::now().duration_since(std::time::UNIX_EPOCH) {
        Ok(d) => d.as_secs(),
        Err(_) => 0,
    }
}

} // verus!
