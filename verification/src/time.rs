//! Timestamps at the broker's wire format: RFC 3339 text with millisecond
//! precision, modelled as milliseconds since the Unix epoch (UTC).
use vstd::prelude::*;

verus! {

/// The UTC timestamp, in milliseconds since the Unix epoch, that an RFC 3339
/// string denotes; nothing when the string does not parse.
pub uninterp spec fn rfc3339_parse_millis(s: Seq<char>) -> Option<i64>;

/// The RFC 3339 rendering, with millisecond precision and a `Z` suffix, of a
/// UTC timestamp given in milliseconds since the Unix epoch.
pub uninterp spec fn rfc3339_millis_text(ms: i64) -> Seq<char>;

/// Relies on chrono's `DateTime::parse_from_rfc3339` and `with_timezone`:
/// the outcome depends on the characters alone; a string that parses is
/// converted to UTC and reported as milliseconds since the Unix epoch.
#[verifier::external_body]
pub(crate) fn parse_rfc3339_millis(s: &String) -> (r: Option<i64>)
    ensures
        r == rfc3339_parse_millis(s@),
{
    match chrono::DateTime::parse_from_rfc3339(s) {
        Ok(dt) => Some(dt.with_timezone(&chrono::Utc).timestamp_millis()),
        Err(_) => None,
    }
}

/// Relies on chrono's `DateTime::from_timestamp_millis` and
/// `to_rfc3339_opts(SecondsFormat::Millis, true)`: formatting depends on the
/// milliseconds alone; every value admitted here is far inside the range
/// chrono documents as representable (about 262 000 years either way).
#[verifier::external_body]
pub(crate) fn format_rfc3339_millis(ms: i64) -> (r: String)
    requires
        -8_000_000_000_000_000 <= ms <= 8_000_000_000_000_000,
    ensures
        r@ == rfc3339_millis_text(ms),
{
    let dt = chrono::DateTime::from_timestamp_millis(ms).expect("timestamp in range");
    dt.to_rfc3339_opts(chrono::SecondsFormat::Millis, true)
}

/// Relies on chrono's `Utc::now`: the clock may report any value, so nothing
/// is promised of the result.
#[verifier::external_body]
pub(crate) fn now_millis() -> i64 {
    chrono::Utc::now().timestamp_millis()
}

} // verus!
