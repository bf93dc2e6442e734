//! Days, weeks and months on the UTC calendar.
//!
//! A day is its number in the proleptic Gregorian calendar, counted from
//! 1 January 1970 as day 0. What belongs to a day number alone (the instant
//! it starts at, its place in the week) is computed here; what needs the
//! calendar's months and years is asked of `chrono` and `chronoutil`.

use vstd::prelude::*;
use chrono::{Datelike, NaiveDate};

verus! {

/// Milliseconds in one day.
pub const MILLIS_PER_DAY: i64 = 86_400_000;

/// The first year that the calendar can represent.
pub const MIN_YEAR: i32 = -262_143;

/// The last year that the calendar can represent.
pub const MAX_YEAR: i32 = 262_142;

/// A half-open range of instants `[start, end)`, in milliseconds since the
/// start of day 0.
#[derive(Clone, Copy, Debug, PartialEq, Eq, Structural)]
pub struct Window {
    /// The first instant inside the range.
    pub start: i64,
    /// The first instant after the range.
    pub end: i64,
}

/// The number of the day that the instant `millis` falls on.
pub open spec fn day_of_millis(millis: int) -> int {
    millis / (MILLIS_PER_DAY as int)
}

/// The place of day `day` in its week: 0 for Monday up to 6 for Sunday.
/// Day 0 was a Thursday.
pub open spec fn weekday_of(day: int) -> int {
    (day + 3) % 7
}

/// The Monday of the week that day `day` lies in, weeks running from Monday
/// to Sunday.
pub open spec fn monday_of(day: int) -> int {
    day - weekday_of(day)
}

/// The instants of day `day`: from its midnight up to the next.
pub open spec fn window_of_day(day: int) -> (int, int) {
    (day * MILLIS_PER_DAY, (day + 1) * MILLIS_PER_DAY)
}

/// The day that an instant falls on.
pub fn epoch_day(millis: i64) -> (day: i64)
    ensures
        day == day_of_millis(millis as int),
{
    if millis >= 0 {
        millis / MILLIS_PER_DAY
    } else {
        (millis + 1) / MILLIS_PER_DAY - 1
    }
}

/// The place of a day in its week, 0 for Monday up to 6 for Sunday.
pub fn weekday(day: i32) -> (w: u8)
    ensures
        w == weekday_of(day as int),
{
    let shifted: i32 = (day % 7 + 10) % 7;
    shifted as u8
}

/// The Monday of the week that a day lies in.
pub fn week_start(day: i32) -> (monday: i64)
    ensures
        monday == monday_of(day as int),
{
    day as i64 - weekday(day) as i64
}

/// The instants of a day.
pub fn day_window(day: i32) -> (w: Window)
    ensures
        (w.start as int, w.end as int) == window_of_day(day as int),
{
    let start: i64 = day as i64 * MILLIS_PER_DAY;
    Window { start, end: start + MILLIS_PER_DAY }
}

/// A week starts on a Monday, at most six days before any of its days.
pub proof fn lemma_monday_of(day: int)
    ensures
        weekday_of(monday_of(day)) == 0,
        day - 6 <= monday_of(day) <= day,
{
}

/// Whether the calendar can represent dates of `year`.
pub open spec fn year_in_range(year: int) -> bool {
    MIN_YEAR <= year <= MAX_YEAR
}

/// The number of a month on a line of all months, month 1 of year 0 being
/// number 0.
pub open spec fn month_index(year: int, month: int) -> int {
    year * 12 + month - 1
}

/// The calendar date (year, month, day of the month) of a day number, or
/// nothing where the calendar does not reach that day: what `chrono` makes
/// of it.
pub uninterp spec fn civil_of_day(day: i32) -> Option<(i32, u32, u32)>;

/// The day number of a calendar date, or nothing where the calendar has no
/// such date: what `chrono` makes of it.
pub uninterp spec fn day_of_civil(year: i32, month: u32, day: u32) -> Option<i32>;

/// Asks `chrono` for the calendar date of a day number:
/// `NaiveDate::from_epoch_days`, read back through `Datelike::year`, `month`
/// and `day`.
///
/// Trusted: the result is [`civil_of_day`]; a date that comes back has a
/// year between [`MIN_YEAR`] and [`MAX_YEAR`], a month from 1 to 12 and a
/// day from 1 to 31.
#[verifier::external_body]
fn civil_from_day(day: i32) -> (r: Option<(i32, u32, u32)>)
    ensures
        r == civil_of_day(day),
        r matches Some((year, month, dom)) ==> year_in_range(year as int) && 1 <= month <= 12 && 1
            <= dom <= 31,
{
    match NaiveDate::from_epoch_days(day) {
        Some(date) => Some((date.year(), date.month(), date.day())),
        None => None,
    }
}

/// Asks `chrono` for the day number of a calendar date:
/// `NaiveDate::from_ymd_opt`, then `NaiveDate::to_epoch_days`.
///
/// Trusted: the result is [`day_of_civil`]; the first of a month exists
/// exactly when the month is one of 1 to 12 and the year is between
/// [`MIN_YEAR`] and [`MAX_YEAR`].
#[verifier::external_body]
fn day_from_civil(year: i32, month: u32, day: u32) -> (r: Option<i32>)
    ensures
        r == day_of_civil(year, month, day),
        r is Some && day == 1 ==> 1 <= month <= 12 && year_in_range(year as int),
        r is None && day == 1 ==> !(1 <= month <= 12 && year_in_range(year as int)),
{
    match NaiveDate::from_ymd_opt(year, month, day) {
        Some(date) => Some(date.to_epoch_days()),
        None => None,
    }
}

/// Asks `chronoutil` to move a calendar date by a number of months:
/// `chronoutil::delta::shift_months_opt` on the `NaiveDate` of the three numbers.
///
/// Trusted, for a day of the month up to 28, which every month has: a date
/// comes back exactly when the one given exists and the year arrived at is
/// between [`MIN_YEAR`] and [`MAX_YEAR`]; it keeps the day of the month and
/// lies `months` months from the one given.
#[verifier::external_body]
fn shift_date(year: i32, month: u32, day: u32, months: i32) -> (r: Option<(i32, u32, u32)>)
    requires
        months <= i32::MAX - 12,
    ensures
        r is Some && 1 <= day <= 28 ==> 1 <= month <= 12 && year_in_range(year as int)
            && year_in_range((month_index(year as int, month as int) + months) / 12),
        r is None && 1 <= day <= 28 ==> !(1 <= month <= 12 && year_in_range(year as int)
            && year_in_range((month_index(year as int, month as int) + months) / 12)),
        r matches Some((y, m, d)) ==> (1 <= day <= 28 ==> d == day && 1 <= m <= 12 && month_index(
            y as int,
            m as int,
        ) == month_index(year as int, month as int) + months),
{
    match NaiveDate::from_ymd_opt(year, month, day) {
        Some(date) => match chronoutil::delta::shift_months_opt(date, months) {
            Some(shifted) => Some((shifted.year(), shifted.month(), shifted.day())),
            None => None,
        },
        None => None,
    }
}

/// A date on the calendar.
#[derive(Clone, Copy, Debug, PartialEq, Eq, Structural)]
pub struct CivilDate {
    /// The year, 0 being the year before year 1.
    pub year: i32,
    /// The month, 1 for January up to 12 for December.
    pub month: u32,
    /// The day of the month, from 1.
    pub day: u32,
}

/// The calendar date of day `day`, or nothing where the calendar does not
/// reach it.
pub open spec fn civil_date(day: int) -> Option<CivilDate> {
    if i32::MIN <= day <= i32::MAX {
        match civil_of_day(day as i32) {
            Some((year, month, dom)) => Some(CivilDate { year, month, day: dom }),
            None => None,
        }
    } else {
        None
    }
}

/// Finds the calendar date of a day.
///
/// A date that is returned has a month from 1 to 12, a day from 1 to 31
/// and a year that the calendar can represent.
pub fn civil(day: i64) -> (r: Option<CivilDate>)
    ensures
        r == civil_date(day as int),
        r matches Some(date) ==> date.month().valid() && 1 <= date.day <= 31,
{
    if day < i32::MIN as i64 || day > i32::MAX as i64 {
        return None;
    }
    match civil_from_day(day as i32) {
        Some((year, month, dom)) => Some(CivilDate { year, month, day: dom }),
        None => None,
    }
}

impl CivilDate {
    /// The month that the date lies in.
    pub open spec fn month(self) -> Month {
        Month { year: self.year, month: self.month }
    }
}

/// A month of a year.
#[derive(Clone, Copy, Debug, PartialEq, Eq, Structural)]
pub struct Month {
    /// The year, 0 being the year before year 1.
    pub year: i32,
    /// The month of the year, 1 for January up to 12 for December.
    pub month: u32,
}

impl Month {
    /// Whether this is a month that the calendar can represent.
    pub open spec fn valid(self) -> bool {
        1 <= self.month <= 12 && year_in_range(self.year as int)
    }

    /// The month's number on the line of all months.
    pub open spec fn index(self) -> int {
        month_index(self.year as int, self.month as int)
    }

    /// The month with number `index`.
    pub open spec fn at(index: int) -> Month {
        Month { year: (index / 12) as i32, month: (index % 12 + 1) as u32 }
    }

    /// The month `months` months after this one (before it, where `months`
    /// is negative), or nothing where either month is off the calendar.
    pub open spec fn shifted_by(self, months: int) -> Option<Month> {
        if self.valid() && year_in_range((self.index() + months) / 12) {
            Some(Month::at(self.index() + months))
        } else {
            None
        }
    }

    /// The instant at which the month starts, or nothing where the month is
    /// off the calendar.
    pub open spec fn start_millis(self) -> Option<int> {
        match day_of_civil(self.year, self.month, 1) {
            Some(day) => Some(day * MILLIS_PER_DAY),
            None => None,
        }
    }

    /// Moves by `months` months, forward or back.
    pub fn shifted(&self, months: i32) -> (r: Option<Month>)
        ensures
            r == self.shifted_by(months as int),
    {
        if months > i32::MAX - 12 {
            return None;
        }
        match shift_date(self.year, self.month, 1, months) {
            Some((year, month, _)) => {
                let r = Month { year, month };
                assert(r == Month::at(self.index() + months));
                Some(r)
            },
            None => None,
        }
    }

    /// The instant at which the month starts: midnight on its first day.
    ///
    /// Succeeds exactly for the months that the calendar can represent.
    pub fn start(&self) -> (r: Option<i64>)
        ensures
            r is Some <==> self.valid(),
            match r {
                Some(millis) => self.start_millis() == Some(millis as int),
                None => self.start_millis() is None,
            },
    {
        match day_from_civil(self.year, self.month, 1) {
            Some(day) => Some(day as i64 * MILLIS_PER_DAY),
            None => None,
        }
    }
}

/// Shifting a month moves its number by as many months, and shifting back
/// returns to it.
pub proof fn lemma_shift_index(month: Month, months: int)
    requires
        month.shifted_by(months) is Some,
    ensures
        month.shifted_by(months).unwrap().valid(),
        month.shifted_by(months).unwrap().index() == month.index() + months,
        month.shifted_by(months).unwrap().shifted_by(-months) == Some(month),
{
}

} // verus!
