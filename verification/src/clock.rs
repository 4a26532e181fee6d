//! Date and time through `chrono`: RFC 3339 parsing of log bounds and the
//! rendering of log timestamps.
//!
//! `chrono::DateTime<Tz>` cannot be declared to Verus (its `TimeZone` bound is a
//! trait that Verus does not know), so a date-time never crosses into verified
//! code: each function below makes the `chrono` call that builds the date-time
//! and the one that reads it, and hands back plain values.
use vstd::prelude::*;

use crate::text::decimal;

verus! {

/// The outcome of `chrono::DateTime::parse_from_rfc3339` on a text: the seconds
/// since the Unix epoch of the date-time it reads (`DateTime::timestamp`), or the
/// text of its parse error.
pub uninterp spec fn rfc3339_parse(text: Seq<char>) -> Result<i64, Seq<char>>;

/// The text of `to_rfc3339_opts(SecondsFormat::Millis, use_z)` for the UTC
/// date-time at these seconds and nanoseconds since the epoch.
pub uninterp spec fn utc_rfc3339_millis(secs: i64, nanos: u32, use_z: bool) -> Seq<char>;

/// The day number (days since 1 January of year 1, counting that day as 1) of the
/// day that holds `secs` seconds since the Unix epoch.
pub open spec fn day_from_ce(secs: i64) -> int {
    (secs as int) / 86400 + 719163
}

/// The seconds since midnight of the instant `secs` seconds since the Unix epoch.
pub open spec fn second_of_day(secs: i64) -> int {
    (secs as int) % 86400
}

/// Whether `chrono::DateTime::<Utc>::from_timestamp(secs, nanos)` gives a date-time:
/// the day lies between 1 January of year -262143 and 31 December of year 262142,
/// and the nanoseconds are below two seconds, at or above one second only in the
/// last second of a minute (a leap second).
pub open spec fn utc_representable(secs: i64, nanos: u32) -> bool {
    &&& -95746129 <= day_from_ce(secs) <= 95745399
    &&& nanos < 2_000_000_000
    &&& (nanos < 1_000_000_000 || second_of_day(secs) % 60 == 59)
}

/// Two decimal digits of a value below 100.
pub open spec fn two_digits(v: int) -> Seq<char> {
    if v < 10 {
        seq!['0'] + decimal(v as nat)
    } else {
        decimal(v as nat)
    }
}

/// The text of `format("%H:%M:%S")` for the UTC date-time at these seconds and
/// nanoseconds: hours, minutes and seconds of the day in two digits each, a leap
/// second shown as second 60.
pub open spec fn utc_clock_time(secs: i64, nanos: u32) -> Seq<char> {
    let sod = second_of_day(secs);
    let second = sod % 60 + if nanos >= 1_000_000_000 {
        1int
    } else {
        0int
    };
    two_digits(sod / 3600) + ":"@ + two_digits((sod / 60) % 60) + ":"@ + two_digits(second)
}

/// `chrono::DateTime::parse_from_rfc3339` followed by `DateTime::timestamp`: the
/// seconds since the epoch of an RFC 3339 text, or the text of chrono's parse error.
#[verifier::external_body]
pub(crate) fn rfc3339_seconds(value: &str) -> (r: Result<i64, String>)
    ensures
        r is Ok <==> rfc3339_parse(value@) is Ok,
        r matches Ok(v) ==> rfc3339_parse(value@)->Ok_0 == v,
        r matches Err(m) ==> rfc3339_parse(value@)->Err_0 == m@,
{
    match chrono::DateTime::parse_from_rfc3339(value) {
        Ok(dt) => Ok(dt.timestamp()),
        Err(err) => Err(err.to_string()),
    }
}

/// `chrono::DateTime::<Utc>::from_timestamp` followed by `format("%H:%M:%S")` and
/// `to_string`: the time of day, or nothing when the instant is not representable.
#[verifier::external_body]
pub(crate) fn utc_clock_time_text(secs: i64, nanos: u32) -> (r: Option<String>)
    ensures
        r is Some <==> utc_representable(secs, nanos),
        r matches Some(t) ==> t@ == utc_clock_time(secs, nanos),
{
    match chrono::DateTime::<chrono::Utc>::from_timestamp(secs, nanos) {
        Some(dt) => Some(dt.format("%H:%M:%S").to_string()),
        None => None,
    }
}

/// `chrono::DateTime::<Utc>::from_timestamp` followed by
/// `to_rfc3339_opts(SecondsFormat::Millis, use_z)`: the RFC 3339 text with
/// milliseconds, or nothing when the instant is not representable.
#[verifier::external_body]
pub(crate) fn utc_rfc3339_millis_text(secs: i64, nanos: u32, use_z: bool) -> (r: Option<String>)
    ensures
        r is Some <==> utc_representable(secs, nanos),
        r matches Some(t) ==> t@ == utc_rfc3339_millis(secs, nanos, use_z),
{
    match chrono::DateTime::<chrono::Utc>::from_timestamp(secs, nanos) {
        Some(dt) => Some(dt.to_rfc3339_opts(chrono::SecondsFormat::Millis, use_z)),
        None => None,
    }
}

} // verus!
