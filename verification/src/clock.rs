//! Wall-clock readings. Every time-dependent decision of the library takes a
//! reading as an argument; only the functions here look at the clock.
use vstd::prelude::*;

verus! {

/// Milliseconds since the Unix epoch from `std::time::SystemTime::now()`
/// (`duration_since(UNIX_EPOCH)`, 0 if the clock is before the epoch).
/// Nothing is stated of the value: it is whatever the clock shows.
#[verifier::external_body]
fn system_time_ms() -> (t: u64) {
    std::time::SystemTime::now()
        .duration_since(std::time::UNIX_EPOCH)
        .unwrap_or_default()
        .as_millis() as u64
}

/// The current time in milliseconds since the Unix epoch, as a `u64`.
pub fn clock_ms() -> (t: u64) {
    system_time_ms()
}

/// The current time in milliseconds since the Unix epoch, as an `i64`
/// (the value wraps like an `as` cast past `i64::MAX`).
pub fn now_ms() -> (t: i64) {
    let t = system_time_ms();
    #[verifier::truncate]
    (t as i64)
}

/// Whole seconds from `at_ms` to `now_ms`, 0 when `at_ms` lies in the future
/// (as `Instant::elapsed().as_secs()` saturates at zero).
pub open spec fn elapsed_secs(now_ms: u64, at_ms: u64) -> nat {
    if now_ms >= at_ms {
        ((now_ms - at_ms) / 1000) as nat
    } else {
        0
    }
}

/// Computes `elapsed_secs`.
pub fn elapsed_secs_between(now_ms: u64, at_ms: u64) -> (s: u64)
    ensures
        s == elapsed_secs(now_ms, at_ms),
{
    if now_ms >= at_ms {
        (now_ms - at_ms) / 1000
    } else {
        0
    }
}

} // verus!
