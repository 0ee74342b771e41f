//! Readings of the machine's clocks. What they give depends on when they are
//! taken, so nothing is promised of them; the functions that use a reading
//! are verified for every value it may have.

use vstd::prelude::*;

verus! {

/// `web_time::Instant`: an opaque point in time.
#[verifier::external_type_specification]
#[verifier::external_body]
pub struct ExInstant(web_time::Instant);

/// Whole seconds since the Unix epoch, by `web_time::SystemTime::now` and
/// `SystemTime::duration_since`; none when the clock stands before the epoch.
/// Nothing is claimed of the value.
#[verifier::external_body]
pub(crate) fn unix_seconds() -> (secs: Option<u64>) {
    web_time::SystemTime::now().duration_since(web_time::UNIX_EPOCH).map(|d| d.as_secs()).ok()
}

/// `web_time::Instant::now`. Nothing is claimed of the value.
#[verifier::external_body]
pub(crate) fn instant_now() -> (now: web_time::Instant) {
    web_time::Instant::now()
}

/// Whole seconds since `start`, by `web_time::Instant::elapsed`. Nothing is
/// claimed of the value.
#[verifier::external_body]
pub(crate) fn seconds_since(start: &web_time::Instant) -> (secs: u64) {
    start.elapsed().as_secs()
}

/// Whole milliseconds since `start`, by `web_time::Instant::elapsed`, modulo
/// 2^64. Nothing is claimed of the value.
#[verifier::external_body]
pub(crate) fn milliseconds_since(start: &web_time::Instant) -> (ms: u64) {
    start.elapsed().as_millis() as u64
}

} // verus!
