//! Wall-clock reading.

use vstd::prelude::*;

verus! {

/// Relies on std::time::SystemTime: the seconds since the Unix epoch, 0 if
/// the clock reads earlier than the epoch. Two calls may return anything in
/// any order; nothing is promised of the value.
#[verifier::external_body]
pub fn get_time() -> u64 {
    std::time::SystemTime::now().duration_since(std::time::SystemTime::UNIX_EPOCH).map(
        |d| d.as_secs(),
    ).unwrap_or(0)
}

/// The wall clock as a signed 64-bit value, clamped to fit.
pub fn get_time_i64() -> (r: i64)
    ensures
        r >= 0,
{
    let t = get_time();
    if t > i64::MAX as u64 {
        i64::MAX
    } else {
        t as i64
    }
}

} // verus!
