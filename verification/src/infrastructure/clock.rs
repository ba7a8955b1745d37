use vstd::prelude::*;

verus! {

/// Milliseconds since the Unix epoch by `std::time::SystemTime::now`, or
/// `None` when the system clock reads a time before the epoch. Nothing is
/// promised of the value: it is whatever the clock shows.
#[verifier::external_body]
pub(crate) fn unix_millis() -> (now: Option<u64>) {
    std::time::SystemTime::now().duration_since(std::time::UNIX_EPOCH).ok().map(|d| d.as_millis() as u64)
}

/// The current time in milliseconds since the Unix epoch; zero when the
/// clock reads a time before the epoch.
pub fn clock_millis() -> u64 {
    match unix_millis() {
        Some(ms) => ms,
        None => 0,
    }
}

} // verus!
