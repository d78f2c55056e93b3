//! The process clock, shared by the cache store and the persistence paths.

use vstd::prelude::*;

verus! {

/// Relies on `std::time::SystemTime::now`: seconds since the Unix epoch,
/// or zero if the clock stands before the epoch. Nothing can be promised
/// about the value.
#[verifier::external_body]
pub fn get_current_timestamp() -> u64 {
    std::time::SystemTime::now()
        .duration_since(std::time::UNIX_EPOCH)
        .map(|d| d.as_secs())
        .unwrap_or(0)
}

} // verus!
