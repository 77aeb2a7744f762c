//! Time sources. Every value here depends on the system clock at the moment
//! of the call, so nothing exact can be promised of the results; each
//! function names the outside call it relies on.

use vstd::prelude::*;

use chrono::TimeZone;

verus! {

/// Relies on std's `SystemTime::now`: the seconds since the unix epoch read
/// from the system clock, or 0 should the clock sit before the epoch.
#[verifier::external_body]
pub(crate) fn now_unix_seconds() -> u64 {
    match std::time::SystemTime::now().duration_since(std::time::UNIX_EPOCH) {
        Ok(d) => d.as_secs(),
        Err(_) => 0,
    }
}

/// Relies on `u64::to_string` (std's `Display` for integers): the value's
/// decimal digits.
#[verifier::external_body]
pub(crate) fn decimal_string(n: u64) -> String {
    n.to_string()
}

/// Relies on chrono's `TimeZone::timestamp_opt`, `FixedOffset::east_opt` and
/// `DateTime::format`: the unix time rendered as a calendar date and time in
/// UTC+9, or the empty string should the time fall outside chrono's range.
#[verifier::external_body]
pub(crate) fn kst_string_of(secs: u64) -> String {
    let offset = match chrono::FixedOffset::east_opt(32400) {
        Some(o) => o,
        None => return String::new(),
    };
    match chrono::Utc.timestamp_opt(secs as i64, 0).single() {
        Some(dt) => dt.with_timezone(&offset).format("%Y-%m-%d %H:%M:%S").to_string(),
        None => String::new(),
    }
}

/// The current UTC time as an RFC 3339 string. Relies on chrono's
/// `Utc::now` and `DateTime::to_rfc3339`.
#[verifier::external_body]
pub fn current_timestamp() -> String {
    chrono::Utc::now().to_rfc3339()
}

} // verus!
