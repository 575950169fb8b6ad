//! Instants: a calendar date together with a time of day.

use crate::date::Date;
use crate::time::TimeOfDay;
use vstd::prelude::*;

verus! {

/// A moment to the second: a date and a time of day on it.
#[derive(Clone, Copy, Debug, PartialEq, Eq, Structural)]
pub struct Instant {
    pub date: Date,
    pub time: TimeOfDay,
}

impl Instant {
    /// Date and time are both valid.
    pub open spec fn valid(self) -> bool {
        self.date.valid() && self.time.valid()
    }

    /// `self` is the same moment as `other` or an earlier one.
    pub open spec fn at_or_before(self, other: Instant) -> bool {
        self.date.before(other.date) || (self.date == other.date && self.time.at_or_before(
            other.time,
        ))
    }

    /// The first instant of `date`, 00:00:00.
    pub open spec fn start_of(date: Date) -> Instant {
        Instant { date, time: TimeOfDay { hour: 0, minute: 0, second: 0 } }
    }

    /// The last instant of `date`, 23:59:59.
    pub open spec fn end_of(date: Date) -> Instant {
        Instant { date, time: TimeOfDay { hour: 23, minute: 59, second: 59 } }
    }

    /// Makes an instant of a date and a time given by their fields, or
    /// `None` where the date or the time is not valid.
    pub fn new(year: i32, month: u32, day: u32, hour: u32, minute: u32, second: u32) -> (instant:
        Option<Instant>)
        ensures
            instant == (if (Date { year, month, day }).valid() && (TimeOfDay {
                hour,
                minute,
                second,
            }).valid() {
                Some(
                    Instant {
                        date: Date { year, month, day },
                        time: TimeOfDay { hour, minute, second },
                    },
                )
            } else {
                None
            }),
    {
        match (Date::new(year, month, day), TimeOfDay::new(hour, minute, second)) {
            (Some(date), Some(time)) => Some(Instant { date, time }),
            _ => None,
        }
    }

    /// The date this instant falls on.
    pub fn date(&self) -> (date: Date)
        ensures
            date == self.date,
    {
        self.date
    }

    /// The time of day of this instant.
    pub fn time(&self) -> (time: TimeOfDay)
        ensures
            time == self.time,
    {
        self.time
    }

    /// Whether `self` is the same moment as `other` or an earlier one.
    pub fn is_at_or_before(&self, other: &Instant) -> (earlier: bool)
        ensures
            earlier == self.at_or_before(*other),
    {
        self.date.is_before(&other.date) || (self.date == other.date
            && self.time.is_at_or_before(&other.time))
    }
}

impl Date {
    /// The instant at `hour`:`min`:`sec` on this date.
    pub fn and_hms(&self, hour: u32, min: u32, sec: u32) -> (instant: Instant)
        requires
            hour < 24,
            min < 60,
            sec < 60,
        ensures
            instant == (Instant { date: *self, time: TimeOfDay { hour, minute: min, second: sec } }),
    {
        Instant { date: *self, time: TimeOfDay { hour, minute: min, second: sec } }
    }
}

} // verus!
