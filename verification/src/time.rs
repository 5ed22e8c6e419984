//! Date and time values, held in chrono's types.
use vstd::prelude::*;

use chrono::{DateTime, NaiveDateTime, Offset, TimeZone, Utc};

use crate::text::contains_spec;

verus! {

/// chrono's date and time without a time zone.
#[verifier::external_type_specification]
#[verifier::external_body]
pub struct ExNaiveDateTime(NaiveDateTime);

/// Whether chrono's RFC 3339 parser accepts a text.
pub uninterp spec fn rfc3339_accepts(s: Seq<char>) -> bool;

/// The instant chrono reads from an RFC 3339 text, as a UTC date-time.
pub uninterp spec fn rfc3339_instant(s: Seq<char>) -> NaiveDateTime;

/// chrono's `DateTime::parse_from_rfc3339`, the parsed instant taken as a UTC
/// date-time.  The contract claims that whether it succeeds, and the instant
/// it reads, are fixed functions of the text (named `rfc3339_accepts` and
/// `rfc3339_instant`).
#[verifier::external_body]
pub(crate) fn parse_rfc3339_utc(s: &str) -> (r: Option<NaiveDateTime>)
    ensures
        r.is_some() == rfc3339_accepts(s@),
        r.is_some() ==> r == Some(rfc3339_instant(s@)),
{
    DateTime::parse_from_rfc3339(s).ok().map(|dt| dt.naive_utc())
}

/// `s` ends with `suffix`.
pub open spec fn ends_with(s: Seq<char>, suffix: Seq<char>) -> bool {
    suffix.len() <= s.len() && s.subrange(s.len() - suffix.len(), s.len() as int) == suffix
}

/// The shape of a date printed with the pattern `%b %-d, %Y at %-I:%M %p`:
/// it holds `, ` and ` at ` and ends with `AM` or `PM`.
pub open spec fn publish_text_shape(s: Seq<char>) -> bool {
    &&& contains_spec(s, ", "@)
    &&& contains_spec(s, " at "@)
    &&& (ends_with(s, "AM"@) || ends_with(s, "PM"@))
}

/// The wall-clock date-time of a UTC date-time at an offset of
/// `offset_seconds` east of UTC, as chrono computes it for a zone.
pub uninterp spec fn shifted_date_time(utc: NaiveDateTime, offset_seconds: i32) -> NaiveDateTime;

/// The text chrono prints for a wall-clock date-time with the pattern
/// `%b %-d, %Y at %-I:%M %p` (as in `Jan 2, 2026 at 1:05 PM`).
pub uninterp spec fn publish_text_of(local: NaiveDateTime) -> Seq<char>;

/// chrono's conversion of a UTC date-time into the machine's local time zone
/// (`Local.from_utc_datetime`), printed with the pattern
/// `%b %-d, %Y at %-I:%M %p`, together with the zone's offset from UTC at that
/// instant in seconds (`offset().fix().local_minus_utc()`).  The contract
/// claims that the offset lies strictly within a day (as chrono's fixed
/// offsets do), that the text is the printing of the UTC date-time shifted by
/// that offset, and the shape the pattern gives every date (its literal `, `
/// and ` at `, and the `AM`/`PM` of `%p` at the end).  Which offset the
/// machine's zone has is left unsaid.
#[verifier::external_body]
pub(crate) fn local_publish_text(utc: &NaiveDateTime) -> (r: (String, i32))
    ensures
        -86400 < r.1 < 86400,
        r.0@ == publish_text_of(shifted_date_time(*utc, r.1)),
        publish_text_shape(r.0@),
{
    let local = chrono::Local.from_utc_datetime(utc);
    let offset = local.offset().fix().local_minus_utc();
    (local.format("%b %-d, %Y at %-I:%M %p").to_string(), offset)
}

/// Whether a count of seconds since the Unix epoch lies in chrono's range:
/// from the first second of the year -262143 to the last second of the year
/// 262142 (chrono's `NaiveDate` years run from `(i32::MIN >> 13) + 1` to
/// `(i32::MAX >> 13) - 1`).
pub open spec fn timestamp_in_range(seconds: i64) -> bool {
    -8_334_601_228_800 <= seconds <= 8_210_266_876_799
}

/// The date-time chrono gives for a count of seconds since the Unix epoch,
/// read in UTC.
pub uninterp spec fn utc_date_time(seconds: i64) -> NaiveDateTime;

/// chrono's `DateTime::<Utc>::from_timestamp(seconds, 0)`, taken as a date-time
/// without a zone.  The contract claims that it succeeds exactly inside the
/// range of chrono's dates (`timestamp_in_range`), and that the date-time it
/// gives is a fixed function of `seconds` (named `utc_date_time`).
#[verifier::external_body]
pub(crate) fn utc_from_timestamp(seconds: i64) -> (r: Option<NaiveDateTime>)
    ensures
        r == if timestamp_in_range(seconds) {
            Some(utc_date_time(seconds))
        } else {
            None
        },
{
    DateTime::<Utc>::from_timestamp(seconds, 0).map(|dt| dt.naive_utc())
}

} // verus!
