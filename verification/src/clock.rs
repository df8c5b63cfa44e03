//! The wall clock and the random source, as seen by the library.
//!
//! Nothing is stated of the values these return: they depend on the
//! machine and on chance. Every function that calls them says what holds
//! whatever came back.

use vstd::prelude::*;

verus! {

/// Milliseconds since the Unix epoch: std `SystemTime::now()`,
/// `duration_since(UNIX_EPOCH)`, `as_millis()` truncated to `u64`, and 0
/// when the clock reads before the epoch. Nothing is stated of the value.
#[verifier::external_body]
pub fn now_ms() -> (res: u64) {
    std::time::SystemTime::now()
        .duration_since(std::time::UNIX_EPOCH)
        .map(|d| d.as_millis() as u64)
        .unwrap_or(0)
}

/// Whole seconds since the Unix epoch: std `SystemTime::now()`,
/// `duration_since(UNIX_EPOCH)`, `as_secs()`, and 0 before the epoch.
/// Nothing is stated of the value.
#[verifier::external_body]
pub(crate) fn epoch_secs() -> (res: u64) {
    std::time::SystemTime::now()
        .duration_since(std::time::UNIX_EPOCH)
        .map(|d| d.as_secs())
        .unwrap_or(0)
}

/// `rand::random::<u64>()`: a value from the thread-local generator.
/// Nothing is stated of it.
#[verifier::external_body]
pub(crate) fn random_u64() -> (res: u64) {
    rand::random::<u64>()
}

} // verus!
