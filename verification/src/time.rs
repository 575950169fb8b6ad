//! Times of day to the second, the whole minutes between two of them, and
//! reading one from text; chrono does the last two.

use chrono::{NaiveTime, Timelike};
use vstd::prelude::*;

verus! {

/// A time of day: hour (0 to 23), minute and second (0 to 59 each).
#[derive(Clone, Copy, Debug, PartialEq, Eq, Structural)]
pub struct TimeOfDay {
    pub hour: u32,
    pub minute: u32,
    pub second: u32,
}

/// What chrono's `NaiveTime::parse_from_str` makes of `text` under `format`:
/// hour, minute, second and nanosecond of the time it returns, or `None`
/// where it returns an error.
pub uninterp spec fn parsed_time_fields(text: Seq<char>, format: Seq<char>) -> Option<
    (u32, u32, u32, u32),
>;

impl TimeOfDay {
    /// Every field is within its range.
    pub open spec fn valid(self) -> bool {
        self.hour < 24 && self.minute < 60 && self.second < 60
    }

    /// Seconds since 00:00:00.
    pub open spec fn seconds_from_midnight(self) -> int {
        self.hour * 3600 + self.minute * 60 + self.second
    }

    /// `self` is no later in the day than `other`.
    pub open spec fn at_or_before(self, other: TimeOfDay) -> bool {
        self.seconds_from_midnight() <= other.seconds_from_midnight()
    }

    /// The whole minutes that pass from `self` to a `later` time of the same
    /// day; a started minute does not count.
    pub open spec fn minutes_to(self, later: TimeOfDay) -> int {
        (later.seconds_from_midnight() - self.seconds_from_midnight()) / 60
    }

    /// The time that `text` gives under `format`: what chrono reads, where
    /// that is a whole second of the day. Text that chrono rejects, and a
    /// leap second (a seconds field of 60), give `None`.
    pub open spec fn parsed(text: Seq<char>, format: Seq<char>) -> Option<TimeOfDay> {
        match parsed_time_fields(text, format) {
            Some((hour, minute, second, nanosecond)) => {
                let time = TimeOfDay { hour, minute, second };
                if nanosecond == 0 && time.valid() {
                    Some(time)
                } else {
                    None
                }
            },
            None => None,
        }
    }

    /// Makes a time of `hour`, `minute` and `second`, or `None` where one of
    /// them is out of range.
    pub fn new(hour: u32, minute: u32, second: u32) -> (time: Option<TimeOfDay>)
        ensures
            time == (if (TimeOfDay { hour, minute, second }).valid() {
                Some(TimeOfDay { hour, minute, second })
            } else {
                None
            }),
    {
        if hour < 24 && minute < 60 && second < 60 {
            Some(TimeOfDay { hour, minute, second })
        } else {
            None
        }
    }

    /// Whether `self` is no later in the day than `other`.
    pub fn is_at_or_before(&self, other: &TimeOfDay) -> (earlier: bool)
        ensures
            earlier == self.at_or_before(*other),
    {
        let own: u64 = self.hour as u64 * 3600 + self.minute as u64 * 60 + self.second as u64;
        let others: u64 = other.hour as u64 * 3600 + other.minute as u64 * 60
            + other.second as u64;
        own <= others
    }

    /// Reads a time of day from `text`, laid out as the strftime `format`
    /// says.
    pub fn parse_from_str(text: &str, format: &str) -> (time: Option<TimeOfDay>)
        ensures
            time == TimeOfDay::parsed(text@, format@),
    {
        match parse_time_fields(text, format) {
            Some((hour, minute, second, nanosecond)) => {
                if nanosecond == 0 {
                    TimeOfDay::new(hour, minute, second)
                } else {
                    None
                }
            },
            None => None,
        }
    }
}

/// Counts the whole minutes from `from` to `to` with chrono:
/// `NaiveTime::from_hms_opt` makes the two times, their difference is a
/// `TimeDelta`, and `TimeDelta::num_minutes` counts its whole minutes.
///
/// Trusted: chrono accepts every valid time, the difference of two times
/// without fraction is the difference of their seconds since midnight, and
/// `num_minutes` divides the seconds of a difference that is not negative
/// by 60 and drops the rest.
#[verifier::external_body]
pub(crate) fn whole_minutes_between(from: TimeOfDay, to: TimeOfDay) -> (minutes: i64)
    requires
        from.valid(),
        to.valid(),
        from.at_or_before(to),
    ensures
        minutes == from.minutes_to(to),
{
    let from = NaiveTime::from_hms_opt(from.hour, from.minute, from.second).unwrap();
    let to = NaiveTime::from_hms_opt(to.hour, to.minute, to.second).unwrap();
    (to - from).num_minutes()
}

/// Parses `text` with chrono's `NaiveTime::parse_from_str` under `format`
/// and reads the fields of the time it returns with `hour`, `minute`,
/// `second` and `nanosecond`.
///
/// Trusted: the outcome depends on the two strings alone.
#[verifier::external_body]
fn parse_time_fields(text: &str, format: &str) -> (fields: Option<(u32, u32, u32, u32)>)
    ensures
        fields == parsed_time_fields(text@, format@),
{
    match NaiveTime::parse_from_str(text, format) {
        Ok(time) => Some((time.hour(), time.minute(), time.second(), time.nanosecond())),
        Err(_) => None,
    }
}

} // verus!
