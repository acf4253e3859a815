//! Dates, recurrences and identifiers, each computed by the library that
//! owns the rules.

use vstd::prelude::*;

verus! {

/// The pattern of an instant in a document: date, `T`, time, `Z`.
pub open spec fn utc_pattern() -> Seq<char> {
    "%Y%m%dT%H%M%SZ"@
}

/// The pattern of an instant in a document without the closing `Z`.
pub open spec fn plain_pattern() -> Seq<char> {
    "%Y%m%dT%H%M%S"@
}

/// The pattern of a date in a document.
pub open spec fn date_pattern() -> Seq<char> {
    "%Y%m%d"@
}

/// An instant written in UTC after the pattern of a document, where the
/// calendar can express it.
pub uninterp spec fn instant_text(secs: i64) -> Option<Seq<char>>;

/// An instant written after RFC 3339, where the calendar can express it.
pub uninterp spec fn rfc3339_text(secs: i64) -> Option<Seq<char>>;

/// The instant at the given time of day, in UTC, on the date that `text`
/// holds when read after `pattern`, where it holds one.
pub uninterp spec fn date_instant(
    text: Seq<char>,
    pattern: Seq<char>,
    hour: u32,
    minute: u32,
    second: u32,
) -> Option<i64>;

/// The instant, in UTC, that `text` holds when read after `pattern`, where
/// it holds one.
pub uninterp spec fn datetime_instant(text: Seq<char>, pattern: Seq<char>) -> Option<i64>;

/// The path of an address, or the complaint about an address that cannot be
/// read.
pub uninterp spec fn address_path(url: Seq<char>) -> Result<Seq<char>, Seq<char>>;

/// The current time, written after the pattern of a document.
///
/// Trusted: `chrono::Utc::now`, formatted. Nothing is known of the result.
#[verifier::external_body]
pub(crate) fn now_stamp() -> String {
    chrono::Utc::now().format("%Y%m%dT%H%M%SZ").to_string()
}

/// Writes an instant in UTC after the pattern of a document.
///
/// Trusted: `chrono::DateTime::from_timestamp`, which gives nothing for an
/// instant beyond the calendar's reach, then `format` with the pattern. The
/// text depends on the instant alone.
#[verifier::external_body]
pub(crate) fn format_instant(secs: i64, pattern: &str) -> (r: Option<String>)
    requires
        pattern@ == utc_pattern(),
    ensures
        r.deep_view() == instant_text(secs),
{
    chrono::DateTime::from_timestamp(secs, 0).map(|d| d.format(pattern).to_string())
}

/// Writes an instant after RFC 3339.
///
/// Trusted: `chrono::DateTime::from_timestamp`, then `to_rfc3339`. The text
/// depends on the instant alone.
#[verifier::external_body]
pub(crate) fn format_rfc3339(secs: i64) -> (r: Option<String>)
    ensures
        r.deep_view() == rfc3339_text(secs),
{
    chrono::DateTime::from_timestamp(secs, 0).map(|d| d.to_rfc3339())
}

/// Reads a date and gives the instant at a time of day on it.
///
/// Trusted: `chrono::NaiveDate::parse_from_str`, `and_hms_opt` and the
/// instant's `timestamp`. The outcome depends on the arguments alone.
#[verifier::external_body]
pub(crate) fn parse_date(text: &str, pattern: &str, hour: u32, minute: u32, second: u32) -> (r:
    Option<i64>)
    ensures
        r == date_instant(text@, pattern@, hour, minute, second),
{
    chrono::NaiveDate::parse_from_str(text, pattern).ok().and_then(
        |d| d.and_hms_opt(hour, minute, second),
    ).map(|d| d.and_utc().timestamp())
}

/// Reads a date with a time of day and gives the instant, taken as UTC.
///
/// Trusted: `chrono::NaiveDateTime::parse_from_str` and the instant's
/// `timestamp`. The outcome depends on the arguments alone.
#[verifier::external_body]
pub(crate) fn parse_datetime(text: &str, pattern: &str) -> (r: Option<i64>)
    ensures
        r == datetime_instant(text@, pattern@),
{
    chrono::NaiveDateTime::parse_from_str(text, pattern).ok().map(|d| d.and_utc().timestamp())
}

/// The first occurrences of a recurrence as instants, where the text
/// describes one.
///
/// Trusted: `rrule::RRuleSet`'s `FromStr`, then `all` with the limit, each
/// date as its instant. A time without a zone in the text is read in the
/// zone of the machine, so nothing is known of the result.
#[verifier::external_body]
pub(crate) fn expand_recurrence(text: &str, limit: u16) -> Option<Vec<i64>> {
    match text.parse::<rrule::RRuleSet>() {
        Ok(set) => Some(set.all(limit).dates.iter().map(|d| d.timestamp()).collect()),
        Err(_) => None,
    }
}

/// A new random identifier.
///
/// Trusted: `uuid::Uuid::new_v4`, written out by its `Display`, which gives
/// the hyphenated form of 36 characters. Nothing else is known of the
/// result.
#[verifier::external_body]
pub(crate) fn fresh_uid() -> (uid: String)
    ensures
        uid@.len() == 36,
{
    uuid::Uuid::new_v4().to_string()
}

/// Reads an address and gives its path.
///
/// Trusted: `http::Uri`'s `FromStr`, then `path`; the complaint is the
/// error's text. The outcome depends on the address alone.
#[verifier::external_body]
pub(crate) fn parse_address(url: &str) -> (r: Result<String, String>)
    ensures
        match r {
            Ok(path) => address_path(url@) == Ok::<Seq<char>, Seq<char>>(path@),
            Err(e) => address_path(url@) == Err::<Seq<char>, Seq<char>>(e@),
        },
{
    match url.parse::<http::Uri>() {
        Ok(uri) => Ok(uri.path().to_string()),
        Err(e) => Err(e.to_string()),
    }
}

} // verus!
