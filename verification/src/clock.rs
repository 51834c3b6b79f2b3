//! The wall clock.

use vstd::prelude::*;

verus! {

/// The current time in milliseconds since the epoch.
///
/// Trusted: calls `chrono::Utc::now` and `DateTime::timestamp_millis`. The
/// value differs from call to call; `Utc::now` measures the time since the
/// epoch, so it is never negative.
#[verifier::external_body]
pub(crate) fn now_millis() -> (r: i64)
    ensures
        r >= 0,
{
    chrono::Utc::now().timestamp_millis()
}

/// The current local time written as year, month, day, an underscore, hour,
/// minute and second.
///
/// Trusted: calls `chrono::Local::now` and formats it with the pattern
/// `%Y%m%d_%H%M%S`. The text depends on the time and on the time zone of the
/// machine; `chrono` writes the year with at least four characters and each
/// other part with two, so the text has at least fifteen.
#[verifier::external_body]
pub(crate) fn local_stamp() -> (r: String)
    ensures
        r@.len() >= 15,
{
    chrono::Local::now().format("%Y%m%d_%H%M%S").to_string()
}

} // verus!
