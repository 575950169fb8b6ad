//! The tariff: what a stay of so many minutes within one calendar day costs.

use crate::time::{whole_minutes_between, TimeOfDay};
use vstd::math::min;
use vstd::prelude::*;

verus! {

/// The most that one calendar day can cost.
pub const DAILY_CAP: i32 = 50;

/// The charge before the daily cap, for a stay of `hours` whole hours and
/// `remainder` further minutes (`0 <= remainder < 60`).
///
/// The first ten minutes are free. After that every whole hour costs 10, a
/// started half hour on top of it 7, and more than half an hour a full 10.
pub open spec fn tiered_fee(hours: int, remainder: int) -> int {
    if hours == 0 && remainder <= 10 {
        0
    } else if remainder == 0 {
        hours * 10
    } else if remainder <= 30 {
        hours * 10 + 7
    } else {
        hours * 10 + 10
    }
}

/// The charge for `minutes` minutes within one calendar day: the tiered
/// charge of its whole hours and remaining minutes, capped at
/// [`DAILY_CAP`].
pub open spec fn fee_for(minutes: int) -> int {
    min(tiered_fee(minutes / 60, minutes % 60), DAILY_CAP as int)
}

/// The time of day that `text` gives where it is written as hour, minute
/// and second with colons between them, the strftime format `%H:%M:%S`.
pub open spec fn clock_time(text: Seq<char>) -> Option<TimeOfDay> {
    TimeOfDay::parsed(text, "%H:%M:%S"@)
}

/// Computes the charge for a stay of `minutes` minutes within one day.
pub fn fee(minutes: i32) -> (charge: i32)
    requires
        minutes >= 0,
    ensures
        charge == fee_for(minutes as int),
        0 <= charge <= DAILY_CAP,
{
    let hours: i32 = minutes / 60;
    let minutes: i32 = minutes % 60;
    let fee: i32 = match (hours, minutes) {
        (0, 0..=10) => 0,
        (h, 0) => h * 10,
        (h, 1..=30) => h * 10 + 7,
        (h, 31..=59) => h * 10 + 10,
        _ => vstd::pervasive::unreached(),
    };
    if fee < DAILY_CAP {
        fee
    } else {
        DAILY_CAP
    }
}

/// Computes the charge for a stay from `from_time` to `to_time` on one day.
pub fn calculate_fee(from_time: TimeOfDay, to_time: TimeOfDay) -> (charge: i32)
    requires
        from_time.valid(),
        to_time.valid(),
        from_time.at_or_before(to_time),
    ensures
        charge == fee_for(from_time.minutes_to(to_time)),
        0 <= charge <= DAILY_CAP,
{
    let duration: i64 = whole_minutes_between(from_time, to_time);
    fee(duration as i32)
}

/// Computes the charge for a stay between two times of one day, each
/// written as `HH:MM:SS`.
pub fn calculate_fee_str(from_time: &str, to_time: &str) -> (charge: i32)
    requires
        clock_time(from_time@) is Some,
        clock_time(to_time@) is Some,
        clock_time(from_time@).unwrap().at_or_before(clock_time(to_time@).unwrap()),
    ensures
        charge == fee_for(clock_time(from_time@).unwrap().minutes_to(clock_time(to_time@).unwrap())),
        0 <= charge <= DAILY_CAP,
{
    let from_time = TimeOfDay::parse_from_str(from_time, "%H:%M:%S").unwrap();
    let to_time = TimeOfDay::parse_from_str(to_time, "%H:%M:%S").unwrap();
    calculate_fee(from_time, to_time)
}

/// Computes the charge as [`calculate_fee_str`] does, for any two strings:
/// `None` where one of them is no time of day or the second time is the
/// earlier one.
pub fn try_calculate_fee_str(from_time: &str, to_time: &str) -> (charge: Option<i32>)
    ensures
        charge == match (clock_time(from_time@), clock_time(to_time@)) {
            (Some(from), Some(to)) => if from.at_or_before(to) {
                Some(fee_for(from.minutes_to(to)) as i32)
            } else {
                None
            },
            _ => None,
        },
{
    match (
        TimeOfDay::parse_from_str(from_time, "%H:%M:%S"),
        TimeOfDay::parse_from_str(to_time, "%H:%M:%S"),
    ) {
        (Some(from), Some(to)) => {
            if from.is_at_or_before(&to) {
                Some(calculate_fee_str(from_time, to_time))
            } else {
                None
            }
        },
        _ => None,
    }
}

/// The first ten minutes are free.
pub proof fn lemma_grace_period_is_free(minutes: int)
    requires
        0 <= minutes <= 10,
    ensures
        fee_for(minutes) == 0,
{
}

/// A stay of `hours` whole hours, at least one, costs 10 for each hour, up
/// to the cap.
pub proof fn lemma_whole_hours(hours: int)
    requires
        hours >= 1,
    ensures
        fee_for(hours * 60) == min(hours * 10, DAILY_CAP as int),
{
}

/// A stay that ends within the first half of an hour costs 7 on top of 10
/// for each whole hour, up to the cap, once the ten free minutes are over.
pub proof fn lemma_started_half_hour(hours: int, remainder: int)
    requires
        hours >= 0,
        1 <= remainder <= 30,
        !(hours == 0 && remainder <= 10),
    ensures
        fee_for(hours * 60 + remainder) == min(hours * 10 + 7, DAILY_CAP as int),
{
}

/// A stay that ends within the second half of an hour costs as much as if
/// the hour were full, up to the cap.
pub proof fn lemma_past_half_hour(hours: int, remainder: int)
    requires
        hours >= 0,
        31 <= remainder <= 59,
    ensures
        fee_for(hours * 60 + remainder) == min(hours * 10 + 10, DAILY_CAP as int),
{
}

/// A longer stay never costs less.
pub proof fn lemma_fee_is_monotonic(shorter: int, longer: int)
    requires
        0 <= shorter <= longer,
    ensures
        fee_for(shorter) <= fee_for(longer),
{
}

/// No stay costs more than the cap, and none less than nothing.
pub proof fn lemma_fee_is_capped(minutes: int)
    ensures
        fee_for(minutes) <= DAILY_CAP,
        minutes >= 0 ==> 0 <= fee_for(minutes),
{
}

} // verus!
