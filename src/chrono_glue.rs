//! Calendar arithmetic, parsing and formatting, done by `chrono` on plain
//! values: a date-time is `(year, month, day, hour, minute, second)` and a
//! time of day is `(hour, minute, second, nanosecond)`.
use vstd::prelude::*;
use chrono::{Datelike, NaiveDate, NaiveDateTime, NaiveTime, Timelike};

verus! {

pub type StampParts = (i32, u32, u32, u32, u32, u32);

pub type ClockParts = (u32, u32, u32, u32);

pub open spec fn is_leap_year(y: int) -> bool {
    y % 4 == 0 && (y % 100 != 0 || y % 400 == 0)
}

pub open spec fn days_in_month(y: int, m: int) -> int {
    if m == 2 {
        if is_leap_year(y) { 29 } else { 28 }
    } else if m == 4 || m == 6 || m == 9 || m == 11 {
        30
    } else {
        31
    }
}

/// A proleptic Gregorian date in the range that `chrono::NaiveDate` covers.
pub open spec fn valid_date(y: int, m: int, d: int) -> bool {
    &&& -262143 <= y <= 262142
    &&& 1 <= m <= 12
    &&& 1 <= d <= days_in_month(y, m)
}

pub open spec fn valid_stamp(p: StampParts) -> bool {
    valid_date(p.0 as int, p.1 as int, p.2 as int) && p.3 < 24 && p.4 < 60 && p.5 < 60
}

/// A time of day as `chrono::NaiveTime` holds it: a nanosecond count of a
/// billion or more marks a leap second, which only the 59th second can have.
pub open spec fn valid_clock(c: ClockParts) -> bool {
    &&& c.0 < 24
    &&& c.1 < 60
    &&& c.2 < 60
    &&& c.3 < 2_000_000_000
    &&& c.3 >= 1_000_000_000 ==> c.2 == 59
}

/// What `NaiveDateTime::parse_from_str(s, fmt)` yields, as parts.
pub uninterp spec fn stamp_parsed(s: Seq<char>, fmt: Seq<char>) -> Option<StampParts>;

/// What `NaiveTime::parse_from_str(s, fmt)` yields, as parts.
pub uninterp spec fn clock_parsed(s: Seq<char>, fmt: Seq<char>) -> Option<ClockParts>;

/// What `NaiveTime::parse_and_remainder(s, fmt)` yields for the time, as parts.
pub uninterp spec fn clock_prefix_parsed(s: Seq<char>, fmt: Seq<char>) -> Option<ClockParts>;

/// What `s.parse::<NaiveTime>()` yields, as parts.
pub uninterp spec fn clock_text_parsed(s: Seq<char>) -> Option<ClockParts>;

/// What `(later - earlier).num_minutes()` gives for two `NaiveTime`s.
pub uninterp spec fn clock_minutes_between(later: ClockParts, earlier: ClockParts) -> int;

/// What `NaiveDateTime::format(fmt).to_string()` writes.
pub uninterp spec fn stamp_text(p: StampParts, fmt: Seq<char>) -> Seq<char>;

/// Relies on `NaiveDateTime::parse_from_str`: a parsed value is a valid
/// calendar date-time, and `Timelike::second` reports 0 to 59.
#[verifier::external_body]
pub(crate) fn parse_stamp(s: &str, fmt: &str) -> (r: Option<StampParts>)
    ensures
        r == stamp_parsed(s@, fmt@),
        r matches Some(p) ==> valid_stamp(p),
{
    NaiveDateTime::parse_from_str(s, fmt).ok().map(
        |t| (t.year(), t.month(), t.day(), t.hour(), t.minute(), t.second()),
    )
}

/// Relies on `NaiveTime::parse_from_str`: a parsed value is a valid time of day.
#[verifier::external_body]
pub(crate) fn parse_clock(s: &str, fmt: &str) -> (r: Option<ClockParts>)
    ensures
        r == clock_parsed(s@, fmt@),
        r matches Some(c) ==> valid_clock(c),
{
    NaiveTime::parse_from_str(s, fmt).ok().map(|t| (t.hour(), t.minute(), t.second(), t.nanosecond()))
}

/// Relies on `NaiveTime::parse_and_remainder`: the time read from the front of
/// `s`, whatever follows it; a parsed value is a valid time of day.
#[verifier::external_body]
pub(crate) fn parse_clock_prefix(s: &str, fmt: &str) -> (r: Option<ClockParts>)
    ensures
        r == clock_prefix_parsed(s@, fmt@),
        r matches Some(c) ==> valid_clock(c),
{
    NaiveTime::parse_and_remainder(s, fmt).ok().map(
        |(t, _)| (t.hour(), t.minute(), t.second(), t.nanosecond()),
    )
}

/// Relies on `NaiveTime`'s `FromStr` (`H:M`, optional `:S` and fraction); a
/// parsed value is a valid time of day.
#[verifier::external_body]
pub(crate) fn clock_from_text(s: &str) -> (r: Option<ClockParts>)
    ensures
        r == clock_text_parsed(s@),
        r matches Some(c) ==> valid_clock(c),
{
    s.parse::<NaiveTime>().ok().map(|t| (t.hour(), t.minute(), t.second(), t.nanosecond()))
}

/// Relies on `NaiveTime - NaiveTime` and `TimeDelta::num_minutes`: the signed
/// distance between two times of day in whole minutes.
#[verifier::external_body]
pub(crate) fn minutes_between(later: ClockParts, earlier: ClockParts) -> (r: i64)
    requires
        valid_clock(later),
        valid_clock(earlier),
    ensures
        r == clock_minutes_between(later, earlier),
{
    let a = NaiveTime::from_hms_nano_opt(later.0, later.1, later.2, later.3).unwrap();
    let b = NaiveTime::from_hms_nano_opt(earlier.0, earlier.1, earlier.2, earlier.3).unwrap();
    (a - b).num_minutes()
}

/// Relies on `NaiveDateTime::format` with the two fixed layouts used here,
/// both made of numeric fields and literals only.
#[verifier::external_body]
pub(crate) fn format_stamp(p: StampParts, fmt: &str) -> (r: String)
    requires
        valid_stamp(p),
        fmt@ == "%Y-%m-%dT%H:%M:%S"@ || fmt@ == "%Y-%m-%dT%H:%M"@,
    ensures
        r@ == stamp_text(p, fmt@),
{
    let date = NaiveDate::from_ymd_opt(p.0, p.1, p.2).unwrap();
    date.and_hms_opt(p.3, p.4, p.5).unwrap().format(fmt).to_string()
}

} // verus!
