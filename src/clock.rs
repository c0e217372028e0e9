use vstd::prelude::*;

verus! {

/// The latest instant, in seconds since the Unix epoch, that falls in the
/// year 9999.
pub const LAST_FOUR_DIGIT_YEAR_SECOND: i64 = 253402300799;

/// The RFC 3339 text of a UTC instant given in whole seconds since the Unix
/// epoch, with a `Z` suffix and no fractional part.
pub uninterp spec fn rfc3339_of(secs: int) -> Seq<char>;

/// Relies on chrono's `Utc::now` and `DateTime::timestamp`: the current UTC
/// time in whole seconds. `Utc::now` panics on a clock before the epoch, so
/// a value that comes back is not negative.
#[verifier::external_body]
pub(crate) fn utc_now_seconds() -> (r: i64)
    ensures
        r >= 0,
{
    chrono::Utc::now().timestamp()
}

/// Relies on chrono's `DateTime::<Utc>::from_timestamp` and
/// `to_rfc3339_opts(SecondsFormat::Secs, true)`: the text of an instant,
/// which exists for every instant up to the end of the year 9999.
#[verifier::external_body]
fn format_rfc3339(secs: i64) -> (r: Option<String>)
    ensures
        r matches Some(s) ==> s@ == rfc3339_of(secs as int),
        0 <= secs <= LAST_FOUR_DIGIT_YEAR_SECOND ==> r is Some,
{
    chrono::DateTime::<chrono::Utc>::from_timestamp(secs, 0)
        .map(|d| d.to_rfc3339_opts(chrono::SecondsFormat::Secs, true))
}

/// The exchange text of a timestamp (for instance `2024-01-02T03:04:05Z`),
/// or `None` for an instant that chrono cannot represent.
pub fn timestamp_text(secs: i64) -> (r: Option<String>)
    ensures
        r matches Some(s) ==> s@ == rfc3339_of(secs as int),
        0 <= secs <= LAST_FOUR_DIGIT_YEAR_SECOND ==> r is Some,
{
    format_rfc3339(secs)
}

} // verus!
