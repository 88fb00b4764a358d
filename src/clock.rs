//! The wall clock.
use vstd::prelude::*;

verus! {

/// Relies on std's SystemTime::now: seconds since the Unix epoch, or 0 when the
/// clock reads earlier than the epoch. Nothing is promised of the value.
#[verifier::external_body]
pub(crate) fn now_secs() -> (r: u64) {
    match std::time::SystemTime::now().duration_since(std::time::UNIX_EPOCH) {
        Ok(d) => d.as_secs(),
        Err(_) => 0,
    }
}

} // verus!
