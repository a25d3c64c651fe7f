//! Instants are held as milliseconds since the Unix epoch, UTC.

use vstd::prelude::*;

verus! {

/// The instant, in milliseconds since the epoch, that `DateTime::parse_from_str`
/// reads from `text` under the strftime pattern `format`, if it reads one.
pub uninterp spec fn parsed_with_format_of(text: Seq<char>, format: Seq<char>) -> Option<int>;

/// The instant that `NaiveDateTime::parse_from_str` reads from `text` under
/// `format`, the date and time taken as UTC, if it reads one.
pub uninterp spec fn parsed_utc_with_format_of(text: Seq<char>, format: Seq<char>) -> Option<int>;

/// The instant that `DateTime::parse_from_rfc3339` reads from `text`, if any.
pub uninterp spec fn parsed_rfc3339_of(text: Seq<char>) -> Option<int>;

/// The RFC 3339 text of an instant (`DateTime::to_rfc3339`), or `None` where
/// the instant is outside the calendar's range.
pub uninterp spec fn rfc3339_text_of(millis: int) -> Option<Seq<char>>;

/// The `%Y-%m-%dT%H:%M:%SZ` text of an instant (`DateTime::format`), or
/// `None` where the instant is outside the calendar's range.
pub uninterp spec fn zulu_text_of(millis: int) -> Option<Seq<char>>;

/// Relies on `chrono::DateTime::parse_from_str` to read a date under a
/// strftime pattern, and on `timestamp_millis` to turn it into milliseconds.
#[verifier::external_body]
pub(crate) fn parse_with_format(text: &str, format: &str) -> (r: Option<i64>)
    ensures
        match r {
            Some(m) => parsed_with_format_of(text@, format@) == Some(m as int),
            None => parsed_with_format_of(text@, format@).is_none(),
        },
{
    chrono::DateTime::parse_from_str(text, format).ok().map(|d| d.timestamp_millis())
}

/// Relies on `chrono::NaiveDateTime::parse_from_str` to read a date and time
/// that carry no offset, and on `and_utc` and `timestamp_millis` to take
/// them as UTC.
#[verifier::external_body]
pub(crate) fn parse_utc_with_format(text: &str, format: &str) -> (r: Option<i64>)
    ensures
        match r {
            Some(m) => parsed_utc_with_format_of(text@, format@) == Some(m as int),
            None => parsed_utc_with_format_of(text@, format@).is_none(),
        },
{
    chrono::NaiveDateTime::parse_from_str(text, format).ok().map(|d| d.and_utc().timestamp_millis())
}

/// Relies on `chrono::DateTime::parse_from_rfc3339` to read an RFC 3339 date.
#[verifier::external_body]
pub(crate) fn parse_rfc3339(text: &str) -> (r: Option<i64>)
    ensures
        match r {
            Some(m) => parsed_rfc3339_of(text@) == Some(m as int),
            None => parsed_rfc3339_of(text@).is_none(),
        },
{
    chrono::DateTime::parse_from_rfc3339(text).ok().map(|d| d.timestamp_millis())
}

/// Relies on `chrono::DateTime::<Utc>::from_timestamp_millis`, which gives
/// `None` outside the calendar's range, and on `DateTime::to_rfc3339`.
#[verifier::external_body]
pub(crate) fn rfc3339_text(millis: i64) -> (r: Option<String>)
    ensures
        match r {
            Some(t) => rfc3339_text_of(millis as int) == Some(t@),
            None => rfc3339_text_of(millis as int).is_none(),
        },
{
    chrono::DateTime::<chrono::Utc>::from_timestamp_millis(millis).map(|d| d.to_rfc3339())
}

/// Relies on `chrono::DateTime::<Utc>::from_timestamp_millis`, which gives
/// `None` outside the calendar's range, and on `DateTime::format` with the
/// pattern `%Y-%m-%dT%H:%M:%SZ`.
#[verifier::external_body]
pub(crate) fn zulu_text(millis: i64) -> (r: Option<String>)
    ensures
        match r {
            Some(t) => zulu_text_of(millis as int) == Some(t@),
            None => zulu_text_of(millis as int).is_none(),
        },
{
    chrono::DateTime::<chrono::Utc>::from_timestamp_millis(millis).map(
        |d| d.format("%Y-%m-%dT%H:%M:%SZ").to_string(),
    )
}

pub open spec fn format_rfc3339() -> Seq<char> {
    "%Y-%m-%dT%H:%M:%S%:z"@
}

pub open spec fn format_no_colon() -> Seq<char> {
    "%Y-%m-%dT%H:%M:%S%z"@
}

pub open spec fn format_zulu() -> Seq<char> {
    "%Y-%m-%dT%H:%M:%SZ"@
}

pub open spec fn format_space() -> Seq<char> {
    "%Y-%m-%d %H:%M:%S%:z"@
}

pub open spec fn format_space_no_colon() -> Seq<char> {
    "%Y-%m-%d %H:%M:%S%z"@
}

/// The instant the first accepted format reads from `text`; the formats are
/// tried in a fixed order: RFC 3339, RFC 3339 without the colon in the
/// offset, a date and time followed by `Z` for UTC, and the two forms with a space for the `T`.
pub open spec fn aws_date(text: Seq<char>) -> Option<int> {
    if parsed_with_format_of(text, format_rfc3339()).is_some() {
        parsed_with_format_of(text, format_rfc3339())
    } else if parsed_with_format_of(text, format_no_colon()).is_some() {
        parsed_with_format_of(text, format_no_colon())
    } else if parsed_utc_with_format_of(text, format_zulu()).is_some() {
        parsed_utc_with_format_of(text, format_zulu())
    } else if parsed_with_format_of(text, format_space()).is_some() {
        parsed_with_format_of(text, format_space())
    } else {
        parsed_with_format_of(text, format_space_no_colon())
    }
}

/// Reads a date written in any of the accepted formats, the first that
/// matches winning.
pub fn parse_aws_date_robust(text: &str) -> (r: Option<i64>)
    ensures
        match r {
            Some(m) => aws_date(text@) == Some(m as int),
            None => aws_date(text@).is_none(),
        },
{
    if let Some(m) = parse_with_format(text, "%Y-%m-%dT%H:%M:%S%:z") {
        return Some(m);
    }
    if let Some(m) = parse_with_format(text, "%Y-%m-%dT%H:%M:%S%z") {
        return Some(m);
    }
    if let Some(m) = parse_utc_with_format(text, "%Y-%m-%dT%H:%M:%SZ") {
        return Some(m);
    }
    if let Some(m) = parse_with_format(text, "%Y-%m-%d %H:%M:%S%:z") {
        return Some(m);
    }
    parse_with_format(text, "%Y-%m-%d %H:%M:%S%z")
}

pub open spec fn opt_int(o: Option<i64>) -> Option<int> {
    match o {
        Some(m) => Some(m as int),
        None => None,
    }
}

/// Whether something that expires at `e` is still valid at `now`: only a
/// strictly later expiration counts, and no expiration is never fresh.
pub open spec fn fresh_spec(e: Option<int>, now: int) -> bool {
    match e {
        Some(m) => m > now,
        None => false,
    }
}

/// Whether something that expires at `expiration` is still valid at `now`.
pub fn is_fresh(expiration: Option<i64>, now: i64) -> (r: bool)
    ensures
        r == fresh_spec(opt_int(expiration), now as int),
{
    match expiration {
        Some(e) => e > now,
        None => false,
    }
}

/// The instant `lifetime_secs` seconds after `now`; a negative lifetime
/// counts as zero and a sum beyond the range of `i64` is held at its top.
pub open spec fn expiration_after_spec(now: i64, lifetime_secs: i32) -> int {
    if lifetime_secs <= 0 {
        now as int
    } else if now + lifetime_secs * 1000 > i64::MAX {
        i64::MAX as int
    } else {
        now + lifetime_secs * 1000
    }
}

pub fn expiration_after(now: i64, lifetime_secs: i32) -> (r: i64)
    ensures
        r == expiration_after_spec(now, lifetime_secs),
{
    if lifetime_secs <= 0 {
        now
    } else {
        let add: i64 = (lifetime_secs as i64) * 1000;
        if now > i64::MAX - add {
            i64::MAX
        } else {
            now + add
        }
    }
}

} // verus!
