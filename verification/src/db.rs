use vstd::prelude::*;

use crate::dto::opt_string_view;
use crate::text::owned;

verus! {

// ---------------------------------------------------------------------------
// Instants
//
// An instant is held as chrono gives it out: whole seconds since
// 1970-01-01T00:00:00Z and the nanoseconds within the second (from 1e9 up
// for a leap second), so that chrono makes the same instant of it again.
// ---------------------------------------------------------------------------

/// The instant that chrono's RFC 3339 parser reads from a text, if any.
pub uninterp spec fn rfc3339_instant(s: Seq<char>) -> Option<(i64, u32)>;

/// The instant that chrono's `DateTime::parse_from_str` reads from a text
/// with an offset in the given format, if any.
pub uninterp spec fn offset_format_instant(s: Seq<char>, fmt: Seq<char>) -> Option<(i64, u32)>;

/// The instant that chrono's `NaiveDateTime::parse_from_str` reads from a
/// text without an offset in the given format, taken as UTC, if any.
pub uninterp spec fn naive_format_instant(s: Seq<char>, fmt: Seq<char>) -> Option<(i64, u32)>;

/// The instant that chrono makes of a millisecond count, if it lies in the
/// range that chrono's date type can hold.
pub uninterp spec fn millis_instant(ms: int) -> Option<(i64, u32)>;

/// The ISO-8601 text (UTC, milliseconds, `Z` suffix) that chrono writes for
/// an instant, if chrono can hold it.
pub uninterp spec fn iso_text(secs: int, nanos: int) -> Option<Seq<char>>;

/// Calls chrono's `DateTime::parse_from_rfc3339` and takes the parsed
/// instant (`timestamp`, `timestamp_subsec_nanos`); `None` where chrono
/// refuses the text. The result is named [`rfc3339_instant`].
#[verifier::external_body]
fn parse_rfc3339(s: &str) -> (res: Option<(i64, u32)>)
    ensures
        res == rfc3339_instant(s@),
{
    chrono::DateTime::parse_from_rfc3339(s).ok().map(|dt| (dt.timestamp(), dt.timestamp_subsec_nanos()))
}

/// Calls chrono's `DateTime::parse_from_str`, which needs an offset in the
/// text, and takes the parsed instant. The result is named
/// [`offset_format_instant`].
#[verifier::external_body]
fn parse_with_offset(s: &str, fmt: &str) -> (res: Option<(i64, u32)>)
    ensures
        res == offset_format_instant(s@, fmt@),
{
    chrono::DateTime::parse_from_str(s, fmt).ok().map(|dt| (dt.timestamp(), dt.timestamp_subsec_nanos()))
}

/// Calls chrono's `NaiveDateTime::parse_from_str` and takes the parsed local
/// time as UTC. The result is named [`naive_format_instant`].
#[verifier::external_body]
fn parse_naive(s: &str, fmt: &str) -> (res: Option<(i64, u32)>)
    ensures
        res == naive_format_instant(s@, fmt@),
{
    chrono::NaiveDateTime::parse_from_str(s, fmt).ok().map(
        |n| (n.and_utc().timestamp(), n.and_utc().timestamp_subsec_nanos()),
    )
}

/// Calls chrono's `DateTime::from_timestamp_millis` and takes the instant.
/// The result is named [`millis_instant`]; as the source shows, an instant
/// that comes out is the count split into whole seconds (rounded down) and
/// the rest in nanoseconds.
#[verifier::external_body]
fn checked_millis(ms: i64) -> (res: Option<(i64, u32)>)
    ensures
        res == millis_instant(ms as int),
        res matches Some((s, n)) ==> s as int == ms as int / 1000 && n as int == (ms as int % 1000)
            * 1_000_000,
{
    chrono::DateTime::from_timestamp_millis(ms).map(|dt| (dt.timestamp(), dt.timestamp_subsec_nanos()))
}

/// Calls chrono's `DateTime::from_timestamp` and writes the instant with
/// `to_rfc3339_opts(SecondsFormat::Millis, true)`, as JavaScript's
/// `Date.toISOString()` does; `None` where chrono cannot hold the instant.
/// The text is named [`iso_text`].
#[verifier::external_body]
pub fn to_iso_string(instant: (i64, u32)) -> (res: Option<String>)
    ensures
        opt_string_view(res) == iso_text(instant.0 as int, instant.1 as int),
{
    chrono::DateTime::from_timestamp(instant.0, instant.1).map(
        |dt| dt.to_rfc3339_opts(chrono::SecondsFormat::Millis, true),
    )
}

/// The formats with an offset that are tried after RFC 3339, in order.
pub open spec fn offset_formats() -> Seq<Seq<char>> {
    seq!["%Y-%m-%d %H:%M:%S%.f %z"@, "%Y-%m-%d %H:%M:%S%.f%z"@, "%Y-%m-%dT%H:%M:%S%.f%z"@]
}

/// The formats without an offset (read as UTC) that are tried last, in order.
pub open spec fn naive_formats() -> Seq<Seq<char>> {
    seq!["%Y-%m-%d %H:%M:%S%.f"@, "%Y-%m-%dT%H:%M:%S%.f"@]
}

/// The first reading of `s` that succeeds: RFC 3339, then each format with
/// an offset, then each format without one.
pub open spec fn parsed_instant(s: Seq<char>) -> Option<(i64, u32)> {
    let f = offset_formats();
    let g = naive_formats();
    if rfc3339_instant(s) is Some {
        rfc3339_instant(s)
    } else if offset_format_instant(s, f[0]) is Some {
        offset_format_instant(s, f[0])
    } else if offset_format_instant(s, f[1]) is Some {
        offset_format_instant(s, f[1])
    } else if offset_format_instant(s, f[2]) is Some {
        offset_format_instant(s, f[2])
    } else if naive_format_instant(s, g[0]) is Some {
        naive_format_instant(s, g[0])
    } else {
        naive_format_instant(s, g[1])
    }
}

/// Reads a stored date-time text leniently: RFC 3339 as well as the
/// variants that other writers of the database left, such as
/// `2026-06-11 12:00:00.000 +00:00` or a time without an offset (UTC).
pub fn parse_datetime_str(s: &str) -> (res: Option<(i64, u32)>)
    ensures
        res == parsed_instant(s@),
{
    proof {
        reveal_strlit("%Y-%m-%d %H:%M:%S%.f %z");
        reveal_strlit("%Y-%m-%d %H:%M:%S%.f%z");
        reveal_strlit("%Y-%m-%dT%H:%M:%S%.f%z");
        reveal_strlit("%Y-%m-%d %H:%M:%S%.f");
        reveal_strlit("%Y-%m-%dT%H:%M:%S%.f");
    }
    let r = parse_rfc3339(s);
    if r.is_some() {
        return r;
    }
    let r = parse_with_offset(s, "%Y-%m-%d %H:%M:%S%.f %z");
    if r.is_some() {
        return r;
    }
    let r = parse_with_offset(s, "%Y-%m-%d %H:%M:%S%.f%z");
    if r.is_some() {
        return r;
    }
    let r = parse_with_offset(s, "%Y-%m-%dT%H:%M:%S%.f%z");
    if r.is_some() {
        return r;
    }
    let r = parse_naive(s, "%Y-%m-%d %H:%M:%S%.f");
    if r.is_some() {
        return r;
    }
    parse_naive(s, "%Y-%m-%dT%H:%M:%S%.f")
}

// ---------------------------------------------------------------------------
// Column values
// ---------------------------------------------------------------------------

/// A value read from a database column. A floating-point column value is
/// handed over as `Integer`, truncated toward zero; text as read (invalid
/// UTF-8 replaced).
pub enum StoredValue {
    Null,
    Integer(i64),
    Text(String),
    Blob(Vec<u8>),
}

/// The instant a stored date-time value holds: a millisecond count or a
/// date-time text; `None` where it holds none.
pub open spec fn stored_instant(value: StoredValue) -> Option<(i64, u32)> {
    match value {
        StoredValue::Integer(ms) => millis_instant(ms as int),
        StoredValue::Text(s) => parsed_instant(s@),
        _ => None,
    }
}

/// Reads a date-time column leniently: a millisecond count or a text in one
/// of the accepted forms. `None` where the value holds no instant (the
/// caller then takes the current time).
pub fn read_datetime(value: &StoredValue) -> (res: Option<(i64, u32)>)
    ensures
        res == stored_instant(*value),
{
    match value {
        StoredValue::Integer(ms) => checked_millis(*ms),
        StoredValue::Text(s) => parse_datetime_str(s.as_str()),
        _ => None,
    }
}

/// The ISO text of a stored date-time value, or `now` where it holds no
/// instant that can be written.
pub open spec fn datetime_text(value: StoredValue, now: Seq<char>) -> Seq<char> {
    match stored_instant(value) {
        Some(instant) => match iso_text(instant.0 as int, instant.1 as int) {
            Some(t) => t,
            None => now,
        },
        None => now,
    }
}

/// The ISO text of a stored date-time value; `now` (the current time as ISO
/// text) where the value holds no instant.
pub fn datetime_iso(value: &StoredValue, now: &str) -> (res: String)
    ensures
        res@ == datetime_text(*value, now@),
{
    match read_datetime(value) {
        Some(instant) => match to_iso_string(instant) {
            Some(t) => t,
            None => owned(now),
        },
        None => owned(now),
    }
}

} // verus!
