//! Calendar dates and times of day as plain values, and the parsing of the
//! applicant's "HH:MM" and "DD.MM" inputs.

use chrono::{Datelike, Timelike};
use vstd::prelude::*;

verus! {

/// Minutes in one day; a time of day is a minute count below it.
pub const MINUTES_PER_DAY: u32 = 1440;

/// A calendar date.
#[derive(Clone, Copy, Debug, PartialEq, Eq, Structural)]
pub struct Date {
    pub year: i32,
    pub month: u32,
    pub day: u32,
}

/// A point in time at minute granularity: a date and a minute of that day.
#[derive(Clone, Copy, Debug, PartialEq, Eq, Structural)]
pub struct Moment {
    pub date: Date,
    pub minute: u32,
}

/// `a` is strictly earlier than `b` in the calendar.
pub open spec fn date_lt(a: Date, b: Date) -> bool {
    a.year < b.year || (a.year == b.year && (a.month < b.month || (a.month == b.month && a.day
        < b.day)))
}

/// The slot at (`date`, `minute`) starts strictly before `now`.
pub open spec fn slot_before(date: Date, minute: u32, now: Moment) -> bool {
    date_lt(date, now.date) || (date == now.date && minute < now.minute)
}

impl Date {
    pub fn new(year: i32, month: u32, day: u32) -> (r: Date)
        ensures
            r == (Date { year, month, day }),
    {
        Date { year, month, day }
    }

    /// Whether `self` is strictly earlier than `other`.
    pub fn is_before(&self, other: &Date) -> (r: bool)
        ensures
            r == date_lt(*self, *other),
    {
        self.year < other.year || (self.year == other.year && (self.month < other.month || (
        self.month == other.month && self.day < other.day)))
    }
}

impl Moment {
    /// Whether a slot at (`date`, `minute`) starts strictly before `self`.
    pub fn is_after_slot(&self, date: &Date, minute: u32) -> (r: bool)
        ensures
            r == slot_before(*date, minute, *self),
    {
        date.is_before(&self.date) || (*date == self.date && minute < self.minute)
    }
}

/// Hour and minute that chrono reads from `s` with the format "%H:%M".
pub uninterp spec fn clock_parse(s: Seq<char>) -> Option<(u32, u32)>;

/// Year, month and day that chrono reads from `s` followed by "." and `year`,
/// with the format "%d.%m.%Y".
pub uninterp spec fn day_month_parse(s: Seq<char>, year: int) -> Option<(i32, u32, u32)>;

/// Relies on chrono's `NaiveTime::parse_from_str` with "%H:%M", and on
/// `Timelike::hour` (0 to 23) and `Timelike::minute` (0 to 59).
#[verifier::external_body]
fn chrono_clock(s: &str) -> (r: Option<(u32, u32)>)
    ensures
        r == clock_parse(s@),
        r matches Some((h, m)) ==> h < 24 && m < 60,
{
    chrono::NaiveTime::parse_from_str(s, "%H:%M").ok().map(|t| (t.hour(), t.minute()))
}

/// Relies on chrono's `NaiveDate::parse_from_str` with "%d.%m.%Y", and on
/// `Datelike::month` (1 to 12) and `Datelike::day` (1 to 31).
#[verifier::external_body]
fn chrono_day_month(s: &str, year: i32) -> (r: Option<(i32, u32, u32)>)
    ensures
        r == day_month_parse(s@, year as int),
        r matches Some((y, m, d)) ==> 1 <= m <= 12 && 1 <= d <= 31,
{
    let text = format!("{}.{}", s, year);
    chrono::NaiveDate::parse_from_str(&text, "%d.%m.%Y").ok().map(|d| (d.year(), d.month(), d.day()))
}

/// The minute of the day that "HH:MM" text denotes.
pub open spec fn clock_minutes(s: Seq<char>) -> Option<u32> {
    match clock_parse(s) {
        Some((h, m)) => Some((h * 60 + m) as u32),
        None => None,
    }
}

/// The date that "DD.MM" text denotes in `year`.
pub open spec fn day_in_year(s: Seq<char>, year: int) -> Option<Date> {
    match day_month_parse(s, year) {
        Some((y, m, d)) => Some(Date { year: y, month: m, day: d }),
        None => None,
    }
}

/// Reads a time of day written "HH:MM" as minutes since midnight.
pub fn parse_time(s: &str) -> (r: Option<u32>)
    ensures
        r == clock_minutes(s@),
        r matches Some(m) ==> m < MINUTES_PER_DAY,
{
    match chrono_clock(s) {
        Some((h, m)) => Some(h * 60 + m),
        None => None,
    }
}

/// Reads a day written "DD.MM" as a date of `year`.
pub fn parse_day(s: &str, year: i32) -> (r: Option<Date>)
    ensures
        r == day_in_year(s@, year as int),
        r matches Some(d) ==> 1 <= d.month <= 12 && 1 <= d.day <= 31,
{
    match chrono_day_month(s, year) {
        Some((y, m, d)) => Some(Date { year: y, month: m, day: d }),
        None => None,
    }
}

} // verus!
