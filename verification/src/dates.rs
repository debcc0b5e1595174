//! Calendar days of timestamps.

use vstd::prelude::*;

verus! {

/// The calendar day of a timestamp with date, time and UTC offset, as chrono
/// reads RFC 3339 and writes the day with `%Y-%m-%d`; `None` where chrono
/// reads no such timestamp from the text. The day is that of the timestamp's
/// own offset: nothing is converted to another time zone.
pub uninterp spec fn rfc3339_day(s: Seq<char>) -> Option<Seq<char>>;

/// The calendar day of a date and time without offset, as chrono reads the
/// format `%Y-%m-%dT%H:%M:%S%.f` (the fraction of a second may be missing) and
/// writes the day with `%Y-%m-%d`; `None` where the text does not fit the
/// format.
pub uninterp spec fn naive_day(s: Seq<char>) -> Option<Seq<char>>;

/// The view of an optional string.
pub open spec fn opt_text(o: Option<String>) -> Option<Seq<char>> {
    match o {
        Some(s) => Some(s@),
        None => None,
    }
}

/// The day of a timestamp: read as one with an offset first and, where that
/// fails, as one without.
pub open spec fn day_of(s: Seq<char>) -> Option<Seq<char>> {
    match rfc3339_day(s) {
        Some(d) => Some(d),
        None => naive_day(s),
    }
}

/// Calls chrono's `DateTime::parse_from_rfc3339` and, on success, formats the
/// value with `%Y-%m-%d`. The result is named by `rfc3339_day`.
#[verifier::external_body]
pub(crate) fn parse_rfc3339_day(s: &str) -> (r: Option<String>)
    ensures
        opt_text(r) == rfc3339_day(s@),
{
    match chrono::DateTime::parse_from_rfc3339(s) {
        Ok(dt) => Some(dt.format("%Y-%m-%d").to_string()),
        Err(_) => None,
    }
}

/// Calls chrono's `NaiveDateTime::parse_from_str` with the format
/// `%Y-%m-%dT%H:%M:%S%.f` and, on success, formats the value with `%Y-%m-%d`.
/// The result is named by `naive_day`.
#[verifier::external_body]
pub(crate) fn parse_naive_day(s: &str) -> (r: Option<String>)
    ensures
        opt_text(r) == naive_day(s@),
{
    match chrono::NaiveDateTime::parse_from_str(s, "%Y-%m-%dT%H:%M:%S%.f") {
        Ok(dt) => Some(dt.format("%Y-%m-%d").to_string()),
        Err(_) => None,
    }
}

/// The calendar day of a timestamp, or `None` where neither form of timestamp
/// fits the text.
pub fn timestamp_day(s: &str) -> (r: Option<String>)
    ensures
        opt_text(r) == day_of(s@),
{
    match parse_rfc3339_day(s) {
        Some(d) => Some(d),
        None => parse_naive_day(s),
    }
}

} // verus!
