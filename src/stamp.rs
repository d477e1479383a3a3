//! Identifiers and wall-clock time, taken from outside crates.

use vstd::prelude::*;

verus! {

/// Relies on `uuid::Uuid::new_v4` and its `Display`, the hyphenated form:
/// a fresh random identifier, 36 characters long.
#[verifier::external_body]
pub(crate) fn fresh_id() -> (r: String)
    ensures
        r@.len() == 36,
{
    uuid::Uuid::new_v4().to_string()
}

/// Relies on `chrono::Utc::now` and `DateTime::timestamp_millis`: the current
/// time in milliseconds since the Unix epoch.
#[verifier::external_body]
pub(crate) fn now_millis() -> (r: i64) {
    chrono::Utc::now().timestamp_millis()
}

/// What `chrono` renders for an instant, given in milliseconds since the Unix
/// epoch, with the pattern `%Y-%m-%d %H:%M:%S` in UTC.
pub uninterp spec fn time_text(ms: int) -> Seq<char>;

/// Relies on `chrono::DateTime::from_timestamp_millis` and `format`: the UTC
/// calendar date and time of an instant; empty for an instant out of chrono's range.
#[verifier::external_body]
pub(crate) fn format_time(ms: i64) -> (r: String)
    ensures
        r@ == time_text(ms as int),
{
    match chrono::DateTime::from_timestamp_millis(ms) {
        Some(t) => t.format("%Y-%m-%d %H:%M:%S").to_string(),
        None => String::new(),
    }
}

} // verus!
