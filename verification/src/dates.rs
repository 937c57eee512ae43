//! Calendar dates and instants, through `chrono`: date arithmetic, the
//! `YYYY-MM-DD` form, and reading the publish times the service returns.
use chrono::Datelike;
use vstd::prelude::*;

use crate::text::decimal;

verus! {

/// A day of the proleptic Gregorian calendar, as year, month and day.
#[derive(Debug, Clone, Copy, PartialEq, Eq, Structural)]
pub struct CalendarDate {
    pub year: i32,
    pub month: u32,
    pub day: u32,
}

/// `y-m-d` is a day that `chrono::NaiveDate::from_ymd_opt` accepts.
pub uninterp spec fn is_calendar_date(year: int, month: int, day: int) -> bool;

/// The day `days` days before `y-m-d`, when `y-m-d` is a day and the result
/// is within the range `chrono` supports
/// (`NaiveDate::checked_sub_signed` with `TimeDelta::days`).
pub uninterp spec fn date_minus_days(year: int, month: int, day: int, days: int) -> Option<
    (int, int, int),
>;

/// `chrono::NaiveDate::from_ymd_opt`, then `checked_sub_signed` by a
/// number of days. A date `chrono` makes has its month in `1..=12` and its
/// day in `1..=31`.
#[verifier::external_body]
fn shift_back(date: CalendarDate, days: u32) -> (r: Option<CalendarDate>)
    ensures
        r is Some <==> date_minus_days(date.year as int, date.month as int, date.day as int, days as int)
            is Some,
        r matches Some(d) ==> date_minus_days(
            date.year as int,
            date.month as int,
            date.day as int,
            days as int,
        ) == Some((d.year as int, d.month as int, d.day as int)) && 1 <= d.month <= 12 && 1 <= d.day
            <= 31 && is_calendar_date(d.year as int, d.month as int, d.day as int),
{
    let start = chrono::NaiveDate::from_ymd_opt(date.year, date.month, date.day)?;
    let earlier = start.checked_sub_signed(chrono::TimeDelta::days(days as i64))?;
    Some(CalendarDate { year: earlier.year(), month: earlier.month(), day: earlier.day() })
}

/// `n` written with at least `width` digits, zeros in front.
pub open spec fn zero_padded(n: nat, width: nat) -> Seq<char> {
    let d = decimal(n);
    if d.len() < width {
        Seq::new((width - d.len()) as nat, |i: int| '0') + d
    } else {
        d
    }
}

/// The year as `%Y` writes it: four digits for `0..=9999`, else a sign and
/// at least four digits.
pub open spec fn year_text(y: int) -> Seq<char> {
    if 0 <= y <= 9999 {
        zero_padded(y as nat, 4)
    } else if y < 0 {
        seq!['-'] + zero_padded((-y) as nat, 4)
    } else {
        seq!['+'] + zero_padded(y as nat, 4)
    }
}

/// A date as `%Y-%m-%d` writes it.
pub open spec fn ymd_text(y: int, m: int, d: int) -> Seq<char> {
    year_text(y) + seq!['-'] + zero_padded(m as nat, 2) + seq!['-'] + zero_padded(d as nat, 2)
}

/// `chrono::NaiveDate::from_ymd_opt`, then `format("%Y-%m-%d")`: the year by
/// `write_year` (four digits for 0..=9999, else sign and at least four),
/// month and day by `write_two` (two digits).
#[verifier::external_body]
fn iso_date(date: CalendarDate) -> (r: Option<String>)
    ensures
        r is Some <==> is_calendar_date(date.year as int, date.month as int, date.day as int),
        r matches Some(s) ==> s@ == ymd_text(date.year as int, date.month as int, date.day as int)
            && 1 <= date.month <= 12 && 1 <= date.day <= 31,
{
    let d = chrono::NaiveDate::from_ymd_opt(date.year, date.month, date.day)?;
    Some(d.format("%Y-%m-%d").to_string())
}

impl CalendarDate {
    /// The date `year-month-day`, when there is such a day.
    pub fn from_ymd(year: i32, month: u32, day: u32) -> (r: Option<CalendarDate>)
        ensures
            r is Some <==> is_calendar_date(year as int, month as int, day as int),
            r matches Some(d) ==> d.year == year && d.month == month && d.day == day,
    {
        let d = CalendarDate { year, month, day };
        match iso_date(d) {
            Some(_) => Some(d),
            None => None,
        }
    }

    /// The date in the form `YYYY-MM-DD`, when it is a day.
    pub fn iso_text(&self) -> (r: Option<String>)
        ensures
            r is Some <==> is_calendar_date(self.year as int, self.month as int, self.day as int),
            r matches Some(s) ==> s@ == ymd_text(self.year as int, self.month as int, self.day as int),
    {
        iso_date(*self)
    }

    /// The day `days` days earlier, when it is in `chrono`'s range.
    pub fn days_before(&self, days: u32) -> (r: Option<CalendarDate>)
        ensures
            r is Some <==> date_minus_days(self.year as int, self.month as int, self.day as int, days as int)
                is Some,
            r matches Some(d) ==> date_minus_days(
                self.year as int,
                self.month as int,
                self.day as int,
                days as int,
            ) == Some((d.year as int, d.month as int, d.day as int)),
    {
        shift_back(*self, days)
    }
}

/// The date range of the last `days` days, ending today: the texts of
/// `today - days` and of `today`.
pub open spec fn last_days_range(today: CalendarDate, days: int) -> Option<(Seq<char>, Seq<char>)> {
    if is_calendar_date(today.year as int, today.month as int, today.day as int) {
        match date_minus_days(today.year as int, today.month as int, today.day as int, days) {
            Some((y, m, d)) => Some(
                (ymd_text(y, m, d), ymd_text(today.year as int, today.month as int, today.day as int)),
            ),
            None => None,
        }
    } else {
        None
    }
}

/// The `YYYY-MM-DD` texts of `today - days` and of `today`.
pub fn last_days(today: CalendarDate, days: u32) -> (r: Option<(String, String)>)
    ensures
        match last_days_range(today, days as int) {
            Some((start, end)) => r matches Some(p) && p.0@ == start && p.1@ == end,
            None => r is None,
        },
{
    let end = match iso_date(today) {
        Some(e) => e,
        None => return None,
    };
    let earlier = match shift_back(today, days) {
        Some(d) => d,
        None => return None,
    };
    let start = match iso_date(earlier) {
        Some(s) => s,
        None => return None,
    };
    Some((start, end))
}

// ---------------------------------------------------------------------------
// Instants
// ---------------------------------------------------------------------------

/// The instant an RFC 3339 text denotes, in seconds since the Unix epoch
/// (`DateTime::parse_from_rfc3339`, then `timestamp`).
pub uninterp spec fn rfc3339_instant(text: Seq<char>) -> Option<int>;

/// The date and time `text` reads as with the `chrono` format `fmt`, taken
/// as UTC, in seconds since the Unix epoch (`NaiveDateTime::parse_from_str`,
/// then `and_utc().timestamp()`).
pub uninterp spec fn naive_instant(text: Seq<char>, fmt: Seq<char>) -> Option<int>;

/// `chrono::DateTime::parse_from_rfc3339`, as seconds since the epoch.
#[verifier::external_body]
fn rfc3339_seconds(text: &str) -> (r: Option<i64>)
    ensures
        r is Some <==> rfc3339_instant(text@) is Some,
        r matches Some(t) ==> rfc3339_instant(text@) == Some(t as int),
{
    match chrono::DateTime::parse_from_rfc3339(text) {
        Ok(dt) => Some(dt.timestamp()),
        Err(_) => None,
    }
}

/// `chrono::NaiveDateTime::parse_from_str`, as seconds since the epoch in
/// UTC. `chrono` keeps years within `-262143..=262142`, so the seconds are
/// within nine trillion of the epoch.
#[verifier::external_body]
fn naive_seconds(text: &str, fmt: &str) -> (r: Option<i64>)
    ensures
        r is Some <==> naive_instant(text@, fmt@) is Some,
        r matches Some(t) ==> naive_instant(text@, fmt@) == Some(t as int) && -9_000_000_000_000 <= t
            <= 9_000_000_000_000,
{
    match chrono::NaiveDateTime::parse_from_str(text, fmt) {
        Ok(ndt) => Some(ndt.and_utc().timestamp()),
        Err(_) => None,
    }
}

/// Eight hours, in seconds: the offset of the service's local time (UTC+8).
pub open spec fn beijing_offset() -> int {
    28800
}

/// When a publish time denotes, in seconds since the epoch: an RFC 3339
/// text as it says; else the first of `%Y-%m-%dT%H:%M:%S%.f`,
/// `%Y-%m-%dT%H:%M:%S` and `%Y-%m-%d %H:%M:%S` that reads it, taken as
/// local time of UTC+8.
pub open spec fn publish_instant_of(raw: Seq<char>) -> Option<int> {
    match rfc3339_instant(raw) {
        Some(t) => Some(t),
        None => match naive_instant(raw, "%Y-%m-%dT%H:%M:%S%.f"@) {
            Some(t) => Some(t - beijing_offset()),
            None => match naive_instant(raw, "%Y-%m-%dT%H:%M:%S"@) {
                Some(t) => Some(t - beijing_offset()),
                None => match naive_instant(raw, "%Y-%m-%d %H:%M:%S"@) {
                    Some(t) => Some(t - beijing_offset()),
                    None => None,
                },
            },
        },
    }
}

/// Reads a publish time of the service as an instant, in seconds since the
/// epoch; `None` when no known form reads it.
pub fn publish_instant(raw: &str) -> (r: Option<i64>)
    ensures
        match publish_instant_of(raw@) {
            Some(t) => r == Some(t as i64) && r.unwrap() == t,
            None => r is None,
        },
{
    if let Some(t) = rfc3339_seconds(raw) {
        return Some(t);
    }
    if let Some(t) = naive_seconds(raw, "%Y-%m-%dT%H:%M:%S%.f") {
        return Some(t - 28800);
    }
    if let Some(t) = naive_seconds(raw, "%Y-%m-%dT%H:%M:%S") {
        return Some(t - 28800);
    }
    if let Some(t) = naive_seconds(raw, "%Y-%m-%d %H:%M:%S") {
        return Some(t - 28800);
    }
    None
}

} // verus!
