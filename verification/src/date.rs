//! Calendar dates of the proleptic Gregorian calendar, and the step from one
//! date to the next, which chrono takes.

use chrono::{Datelike, NaiveDate};
use vstd::prelude::*;

verus! {

/// The earliest year a [`Date`] can lie in.
pub const MIN_YEAR: i32 = -262_143;

/// The latest year a [`Date`] can lie in.
pub const MAX_YEAR: i32 = 262_142;

/// Whether `year` has a 29th of February.
pub open spec fn leap_year(year: int) -> bool {
    year % 4 == 0 && (year % 100 != 0 || year % 400 == 0)
}

/// How many days `month` (1 to 12) of `year` has.
pub open spec fn days_in_month(year: int, month: int) -> int {
    if month == 2 {
        if leap_year(year) {
            29
        } else {
            28
        }
    } else if month == 4 || month == 6 || month == 9 || month == 11 {
        30
    } else {
        31
    }
}

/// How many days `year` has.
pub open spec fn days_in_year(year: int) -> int {
    if leap_year(year) {
        366
    } else {
        365
    }
}

/// How many days of `year` lie before the first day of `month` (1 to 12;
/// 13 stands for the first month of the next year).
pub open spec fn days_before_month(year: int, month: int) -> int
    decreases month,
{
    if month <= 1 {
        0
    } else {
        days_before_month(year, month - 1) + days_in_month(year, month - 1)
    }
}

/// How many days lie between the end of the year 0 and the start of `year`
/// (fewer than none for a year before 1).
pub open spec fn days_before_year(year: int) -> int {
    let past = year - 1;
    365 * past + past / 4 - past / 100 + past / 400
}

/// A calendar date: year, month (1 to 12) and day of the month (from 1).
#[derive(Clone, Copy, Debug, PartialEq, Eq, Structural)]
pub struct Date {
    pub year: i32,
    pub month: u32,
    pub day: u32,
}

impl Date {
    /// The date names a day that the calendar has, in a year from
    /// [`MIN_YEAR`] to [`MAX_YEAR`].
    pub open spec fn valid(self) -> bool {
        &&& MIN_YEAR <= self.year <= MAX_YEAR
        &&& 1 <= self.month <= 12
        &&& 1 <= self.day <= days_in_month(self.year as int, self.month as int)
    }

    /// `self` is an earlier day than `other`.
    pub open spec fn before(self, other: Date) -> bool {
        ||| self.year < other.year
        ||| self.year == other.year && self.month < other.month
        ||| self.year == other.year && self.month == other.month && self.day < other.day
    }

    /// `self` is the same day as `other` or an earlier one.
    pub open spec fn at_or_before(self, other: Date) -> bool {
        self == other || self.before(other)
    }

    /// The last valid date: 31 December of [`MAX_YEAR`].
    pub open spec fn is_last(self) -> bool {
        self.year == MAX_YEAR && self.month == 12 && self.day == 31
    }

    /// The day after `self`.
    pub open spec fn successor(self) -> Date {
        if self.day < days_in_month(self.year as int, self.month as int) {
            Date { year: self.year, month: self.month, day: (self.day + 1) as u32 }
        } else if self.month < 12 {
            Date { year: self.year, month: (self.month + 1) as u32, day: 1 }
        } else {
            Date { year: (self.year + 1) as i32, month: 1, day: 1 }
        }
    }

    /// The number of the day in a count of all days, one after the other,
    /// in which 1 January of the year 1 is day 1.
    pub open spec fn day_number(self) -> int {
        days_before_year(self.year as int) + days_before_month(
            self.year as int,
            self.month as int,
        ) + self.day
    }

    /// Makes a date of `year`, `month` and `day`, or `None` where the
    /// calendar has no such day or the year is out of range.
    pub fn new(year: i32, month: u32, day: u32) -> (date: Option<Date>)
        ensures
            date == (if (Date { year, month, day }).valid() {
                Some(Date { year, month, day })
            } else {
                None
            }),
    {
        if year < MIN_YEAR || year > MAX_YEAR || month < 1 || month > 12 || day < 1 {
            return None;
        }
        let length: u32 = if month == 2 {
            if is_leap_year(year) {
                29
            } else {
                28
            }
        } else if month == 4 || month == 6 || month == 9 || month == 11 {
            30
        } else {
            31
        };
        if day <= length {
            Some(Date { year, month, day })
        } else {
            None
        }
    }

    /// Whether `self` is an earlier day than `other`.
    pub fn is_before(&self, other: &Date) -> (earlier: bool)
        ensures
            earlier == self.before(*other),
    {
        self.year < other.year || (self.year == other.year && (self.month < other.month || (
        self.month == other.month && self.day < other.day)))
    }
}

/// Computes whether `year` has a 29th of February.
pub fn is_leap_year(year: i32) -> (leap: bool)
    ensures
        leap == leap_year(year as int),
{
    year % 4 == 0 && (year % 100 != 0 || year % 400 == 0)
}

/// Asks chrono for the day after `date`: `NaiveDate::from_ymd_opt` makes
/// the date, `NaiveDate::succ_opt` steps to the next one, and `year`,
/// `month` and `day` read it.
///
/// Trusted: chrono accepts every valid date, and what it returns is the next
/// day of the proleptic Gregorian calendar, or `None` after the last day of
/// [`MAX_YEAR`], which is the last date it has.
#[verifier::external_body]
pub(crate) fn next_date(date: Date) -> (next: Option<Date>)
    requires
        date.valid(),
    ensures
        next == (if date.is_last() {
            None
        } else {
            Some(date.successor())
        }),
{
    let day = NaiveDate::from_ymd_opt(date.year, date.month, date.day).unwrap();
    match day.succ_opt() {
        Some(next) => Some(Date { year: next.year(), month: next.month(), day: next.day() }),
        None => None,
    }
}

/// The day after a valid date other than the last is a valid date, and a
/// later one.
pub proof fn lemma_successor_is_later(date: Date)
    requires
        date.valid(),
        !date.is_last(),
    ensures
        date.successor().valid(),
        date.before(date.successor()),
{
}

/// No valid date lies between a date and its successor: every valid date
/// after `date` is the successor or comes after it.
pub proof fn lemma_successor_is_nearest(date: Date, later: Date)
    requires
        date.valid(),
        later.valid(),
        date.before(later),
    ensures
        !date.is_last(),
        date.successor().at_or_before(later),
{
}

/// The day count goes up by one from each date to its successor.
pub proof fn lemma_successor_day_number(date: Date)
    requires
        date.valid(),
        !date.is_last(),
    ensures
        date.successor().day_number() == date.day_number() + 1,
{
    let year = date.year as int;
    if date.month == 12 && date.day == 31 {
        lemma_months_in_order(year, 12, 13);
        assert(days_before_year(year + 1) == days_before_year(year) + days_in_year(year));
    }
}

/// The months of a year lie after one another: a later month starts no
/// sooner than an earlier one ends, and the last ends with the year.
proof fn lemma_months_in_order(year: int, earlier: int, later: int)
    requires
        1 <= earlier < later <= 13,
    ensures
        days_before_month(year, earlier) + days_in_month(year, earlier) <= days_before_month(
            year,
            later,
        ),
        days_before_month(year, 13) == days_in_year(year),
    decreases later - earlier,
{
    assert(days_before_month(year, 13) == days_in_year(year)) by {
        reveal_with_fuel(days_before_month, 14);
    }
    if earlier + 1 < later {
        lemma_months_in_order(year, earlier, later - 1);
    }
}

/// The years lie after one another: a later year starts no sooner than an
/// earlier one ends.
proof fn lemma_years_in_order(earlier: int, later: int)
    requires
        earlier < later,
    ensures
        days_before_year(earlier) + days_in_year(earlier) <= days_before_year(later),
    decreases later - earlier,
{
    assert(days_before_year(later) == days_before_year(later - 1) + days_in_year(later - 1));
    if earlier + 1 < later {
        lemma_years_in_order(earlier, later - 1);
    }
}

/// An earlier valid date has a smaller day count than a later one.
proof fn lemma_day_number_grows(earlier: Date, later: Date)
    requires
        earlier.valid(),
        later.valid(),
        earlier.before(later),
    ensures
        earlier.day_number() < later.day_number(),
{
    if earlier.year < later.year {
        lemma_months_in_order(earlier.year as int, earlier.month as int, 13);
        lemma_years_in_order(earlier.year as int, later.year as int);
        assert(days_before_month(later.year as int, later.month as int) >= 0) by {
            if later.month > 1 {
                lemma_months_in_order(later.year as int, 1, later.month as int);
            }
        }
    } else if earlier.month < later.month {
        lemma_months_in_order(earlier.year as int, earlier.month as int, later.month as int);
    }
}

/// The day count orders valid dates as the calendar does, and tells any
/// two of them apart.
pub proof fn lemma_day_number_orders_dates(earlier: Date, later: Date)
    requires
        earlier.valid(),
        later.valid(),
    ensures
        earlier.before(later) <==> earlier.day_number() < later.day_number(),
        earlier == later <==> earlier.day_number() == later.day_number(),
{
    if earlier.before(later) {
        lemma_day_number_grows(earlier, later);
    } else if later.before(earlier) {
        lemma_day_number_grows(later, earlier);
    }
}

} // verus!
