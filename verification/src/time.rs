//! Clock readings.  Each caller group keeps its own entry point; all
//! three report milliseconds since the Unix epoch and zero for a clock
//! set before it.
use vstd::prelude::*;

verus! {

/// Relies on `SystemTime::now` and `duration_since(UNIX_EPOCH)`: the
/// elapsed milliseconds, or zero when the clock reads before the epoch
/// or past what an `i64` holds.
#[verifier::external_body]
pub fn now_unix_ms() -> (r: i64)
    ensures
        r >= 0,
{
    std::time::SystemTime::now()
        .duration_since(std::time::UNIX_EPOCH)
        .map(|duration| i64::try_from(duration.as_millis()).unwrap_or(0))
        .unwrap_or(0)
}

/// Relies on `SystemTime::now`, as `now_unix_ms`: the account-profile
/// timestamps.
#[verifier::external_body]
pub fn now_ms() -> (r: i64)
    ensures
        r >= 0,
{
    std::time::SystemTime::now()
        .duration_since(std::time::UNIX_EPOCH)
        .map(|duration| i64::try_from(duration.as_millis()).unwrap_or(0))
        .unwrap_or(0)
}

/// Relies on `SystemTime::now`, as `now_unix_ms`: the usage-scan
/// timestamps.
#[verifier::external_body]
pub fn now_timestamp_ms() -> (r: i64)
    ensures
        r >= 0,
{
    std::time::SystemTime::now()
        .duration_since(std::time::UNIX_EPOCH)
        .map(|duration| i64::try_from(duration.as_millis()).unwrap_or(0))
        .unwrap_or(0)
}

} // verus!
