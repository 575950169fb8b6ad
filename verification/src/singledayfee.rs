//! Splitting a stay at midnight: one record for each calendar day it
//! touches, each charged on its own.

use crate::date::{lemma_successor_day_number, next_date, Date};
use crate::fee::{fee_for, DAILY_CAP};
use crate::instant::Instant;
use vstd::prelude::*;

verus! {

/// The part of a stay that falls on one calendar day, and what it costs.
#[derive(Clone, Copy, Debug, PartialEq, Eq, Structural)]
pub struct SingleDayFee {
    /// When the vehicle came in, or the start of the day.
    pub start_time: Instant,
    /// When the vehicle left, or the end of the day.
    pub end_time: Instant,
    /// The charge for this day.
    pub fee: i32,
}

impl SingleDayFee {
    /// The record lies within one calendar day, does not end before it
    /// starts, and charges what the whole minutes from its start to its end
    /// cost.
    pub open spec fn well_formed(self) -> bool {
        &&& self.start_time.valid()
        &&& self.end_time.valid()
        &&& self.start_time.date == self.end_time.date
        &&& self.start_time.at_or_before(self.end_time)
        &&& self.fee == fee_for(self.start_time.time.minutes_to(self.end_time.time))
    }
}

/// The record of a stretch from `from` to `to` on one day: its charge is
/// that of the whole minutes between the two times of day.
pub open spec fn day_fee(from: Instant, to: Instant) -> SingleDayFee {
    SingleDayFee {
        start_time: from,
        end_time: to,
        fee: fee_for(from.time.minutes_to(to.time)) as i32,
    }
}

/// The records of the days from `first` up to `until`, the latter left out,
/// each from 00:00:00 to 23:59:59.
pub open spec fn full_days(first: Date, until: Date) -> Seq<SingleDayFee>
    decreases until.year - first.year, 12 - first.month, 31 - first.day,
{
    if first.valid() && until.valid() && first.before(until) {
        seq![day_fee(Instant::start_of(first), Instant::end_of(first))] + full_days(
            first.successor(),
            until,
        )
    } else {
        Seq::empty()
    }
}

/// The records of a stay from `start` to `end`, in order of time.
///
/// A stay within one day is one record. A longer one has a record from
/// `start` to the end of its day, one for every full day between, and one
/// from the start of the last day to `end`.
pub open spec fn day_segments(start: Instant, end: Instant) -> Seq<SingleDayFee> {
    if start.date == end.date {
        seq![day_fee(start, end)]
    } else {
        seq![day_fee(start, Instant::end_of(start.date))] + full_days(
            start.date.successor(),
            end.date,
        ) + seq![day_fee(Instant::start_of(end.date), end)]
    }
}

/// Splits the stay from `start_time` to `end_time` into its days.
pub fn calculate_fee(start_time: Instant, end_time: Instant) -> (result: Vec<SingleDayFee>)
    requires
        start_time.valid(),
        end_time.valid(),
        start_time.at_or_before(end_time),
    ensures
        result@ == day_segments(start_time, end_time),
        forall|i: int| 0 <= i < result@.len() ==> (#[trigger] result@[i]).well_formed(),
{
    proof {
        lemma_each_day_is_charged_on_its_own(start_time, end_time);
    }
    let mut result: Vec<SingleDayFee> = Vec::new();

    if start_time.date() == end_time.date() {
        result.push(
            SingleDayFee {
                start_time,
                end_time,
                fee: crate::fee::calculate_fee(start_time.time(), end_time.time()),
            },
        );
        return result;
    }
    let startday_start_time = start_time;
    let startday_end_time = start_time.date().and_hms(23, 59, 59);
    result.push(
        SingleDayFee {
            start_time: startday_start_time,
            end_time: startday_end_time,
            fee: crate::fee::calculate_fee(startday_start_time.time(), startday_end_time.time()),
        },
    );
    let mut day = next_date(start_time.date()).unwrap();
    while day.is_before(&end_time.date())
        invariant
            day.valid(),
            end_time.valid(),
            day.at_or_before(end_time.date),
            result@ + full_days(day, end_time.date) =~= seq![
                day_fee(start_time, Instant::end_of(start_time.date)),
            ] + full_days(start_time.date.successor(), end_time.date),
        decreases end_time.date.year - day.year, 12 - day.month, 31 - day.day,
    {
        let middle_start_time = day.and_hms(0, 0, 0);
        let middle_end_time = day.and_hms(23, 59, 59);
        result.push(
            SingleDayFee {
                start_time: middle_start_time,
                end_time: middle_end_time,
                fee: crate::fee::calculate_fee(middle_start_time.time(), middle_end_time.time()),
            },
        );
        day = next_date(day).unwrap();
    }

    let endday_start_time = end_time.date().and_hms(0, 0, 0);
    let endday_end_time = end_time;
    result.push(
        SingleDayFee {
            start_time: endday_start_time,
            end_time: endday_end_time,
            fee: crate::fee::calculate_fee(endday_start_time.time(), endday_end_time.time()),
        },
    );
    result
}

/// The records that a walk through a stay hands out from `cursor` on, one
/// day at a time, up to `end`.
///
/// On the last day the walk hands out the rest, from `cursor` to `end`, and
/// is over. Before it, the walk hands out the rest of the day of `cursor`
/// and goes on from the start of the next day.
pub open spec fn remaining_from(cursor: Instant, end: Instant) -> Seq<SingleDayFee>
    decreases end.date.year - cursor.date.year, 12 - cursor.date.month, 31 - cursor.date.day,
{
    if cursor.date == end.date {
        seq![day_fee(cursor, end)]
    } else if cursor.date.valid() && end.date.valid() && cursor.date.before(end.date) {
        seq![day_fee(cursor, Instant::end_of(cursor.date))] + remaining_from(
            Instant::start_of(cursor.date.successor()),
            end,
        )
    } else {
        Seq::empty()
    }
}

/// A walk through the days of a stay that makes each record when it is
/// asked for, and none ahead.
pub struct SingleDayFeeCalculator {
    start_time: Instant,
    end_time: Instant,
    /// Where the next record starts; `None` once the calendar has no day
    /// left to go to.
    day: Option<Instant>,
}

impl View for SingleDayFeeCalculator {
    type V = Seq<SingleDayFee>;

    /// The records still to come, in the order in which `next` hands them
    /// out.
    closed spec fn view(&self) -> Seq<SingleDayFee> {
        match self.day {
            Some(day) => remaining_from(day, self.end_time),
            None => Seq::empty(),
        }
    }
}

impl SingleDayFeeCalculator {
    #[verifier::type_invariant]
    spec fn well_formed(self) -> bool {
        &&& self.start_time.valid()
        &&& self.end_time.valid()
        &&& self.start_time.at_or_before(self.end_time)
        &&& self.day matches Some(day) ==> {
            &&& day.valid()
            &&& day.date == self.start_time.date ==> day == self.start_time
            &&& day.date != self.start_time.date ==> self.start_time.date.before(day.date) && day
                == Instant::start_of(day.date)
        }
    }

    /// Starts a walk through the stay from `start_time` to `end_time`.
    pub fn new(start_time: Instant, end_time: Instant) -> (calculator: SingleDayFeeCalculator)
        requires
            start_time.valid(),
            end_time.valid(),
            start_time.at_or_before(end_time),
        ensures
            calculator@ == remaining_from(start_time, end_time),
            calculator@ == day_segments(start_time, end_time),
    {
        proof {
            lemma_walk_matches_split(start_time, end_time);
        }
        SingleDayFeeCalculator { start_time, end_time, day: Some(start_time) }
    }

    /// Hands out the next record, or `None` when the walk is over.
    pub fn next(&mut self) -> (record: Option<SingleDayFee>)
        ensures
            old(self)@.len() == 0 ==> record is None && final(self)@ == old(self)@,
            old(self)@.len() > 0 ==> record == Some(old(self)@.first()) && final(self)@ == old(
                self,
            )@.drop_first(),
            record matches Some(day) ==> day.well_formed(),
    {
        proof {
            use_type_invariant(&*self);
        }
        let day = match self.day {
            Some(day) => day,
            None => {
                return None;
            },
        };
        if self.end_time.date().is_before(&day.date()) {
            return None;
        }
        let (day_start_time, day_end_time) = {
            if day.date() == self.end_time.date() {
                (day, self.end_time)
            } else if day.date() == self.start_time.date() {
                (self.start_time, self.start_time.date().and_hms(23, 59, 59))
            } else {
                (day.date().and_hms(0, 0, 0), day.date().and_hms(23, 59, 59))
            }
        };
        let record = SingleDayFee {
            start_time: day_start_time,
            end_time: day_end_time,
            fee: crate::fee::calculate_fee(day_start_time.time(), day_end_time.time()),
        };
        self.day = match next_date(day.date()) {
            Some(next) => Some(next.and_hms(0, 0, 0)),
            None => None,
        };
        Some(record)
    }

    /// Walks to the end and returns every record still to come.
    pub fn collect(self) -> (records: Vec<SingleDayFee>)
        ensures
            records@ == self@,
            forall|i: int| 0 <= i < records@.len() ==> (#[trigger] records@[i]).well_formed(),
    {
        let mut calculator = self;
        let mut records: Vec<SingleDayFee> = Vec::new();
        loop
            invariant
                records@ + calculator@ =~= self@,
                forall|i: int| 0 <= i < records@.len() ==> (#[trigger] records@[i]).well_formed(),
            ensures
                records@ == self@,
            decreases calculator@.len(),
        {
            match calculator.next() {
                Some(record) => {
                    records.push(record);
                },
                None => {
                    break ;
                },
            }
        }
        records
    }
}

/// What holds of the records of the full days from `first` up to `until`:
/// how many there are, that each spans the whole of a valid day before
/// `until`, and that the days follow one another from `first` on.
proof fn lemma_full_days(first: Date, until: Date)
    requires
        first.valid(),
        until.valid(),
        first.at_or_before(until),
    ensures
        full_days(first, until).len() == until.day_number() - first.day_number(),
        forall|i: int|
            0 <= i < full_days(first, until).len() ==> {
                let record = #[trigger] full_days(first, until)[i];
                let date = record.start_time.date;
                &&& record == day_fee(Instant::start_of(date), Instant::end_of(date))
                &&& date.valid()
                &&& date.before(until)
                &&& date.day_number() == first.day_number() + i
            },
        forall|i: int, j: int|
            0 <= i && j == i + 1 && j < full_days(first, until).len() ==> (#[trigger] full_days(
                first,
                until,
            )[j]).start_time.date == (#[trigger] full_days(
                first,
                until,
            )[i]).start_time.date.successor(),
        full_days(first, until).len() > 0 ==> full_days(first, until).first().start_time.date
            == first && full_days(first, until).last().start_time.date.successor() == until,
    decreases until.year - first.year, 12 - first.month, 31 - first.day,
{
    if first.before(until) {
        lemma_successor_day_number(first);
        lemma_full_days(first.successor(), until);
    }
}

/// From the start of a day on, a walk hands out the full days up to the
/// last day of the stay, and then the last day up to `end`.
proof fn lemma_walk_from_start_of_day(day: Date, end: Instant)
    requires
        day.valid(),
        end.valid(),
        day.at_or_before(end.date),
    ensures
        remaining_from(Instant::start_of(day), end) == full_days(day, end.date) + seq![
            day_fee(Instant::start_of(end.date), end),
        ],
    decreases end.date.year - day.year, 12 - day.month, 31 - day.day,
{
    if day.before(end.date) {
        lemma_walk_from_start_of_day(day.successor(), end);
        let head = seq![day_fee(Instant::start_of(day), Instant::end_of(day))];
        let last = seq![day_fee(Instant::start_of(end.date), end)];
        assert(head + (full_days(day.successor(), end.date) + last) =~= (head + full_days(
            day.successor(),
            end.date,
        )) + last);
    }
}

/// A stay that begins and ends on one day is one record, from `start` to
/// `end`, charged for the whole minutes between the two.
pub proof fn lemma_same_day_is_one_record(start: Instant, end: Instant)
    requires
        start.valid(),
        end.valid(),
        start.at_or_before(end),
        start.date == end.date,
    ensures
        day_segments(start, end).len() == 1,
        day_segments(start, end)[0].start_time == start,
        day_segments(start, end)[0].end_time == end,
        day_segments(start, end)[0].fee == fee_for(start.time.minutes_to(end.time)),
{
}

/// A stay has one record for each calendar day from the day of `start` to
/// the day of `end`: as many records as days, the first starting at `start`
/// and the last ending at `end`, each within one day, and the days
/// following one another.
pub proof fn lemma_one_record_per_day(start: Instant, end: Instant)
    requires
        start.valid(),
        end.valid(),
        start.at_or_before(end),
    ensures
        day_segments(start, end).len() == end.date.day_number() - start.date.day_number() + 1,
        day_segments(start, end).first().start_time == start,
        day_segments(start, end).last().end_time == end,
        forall|i: int|
            0 <= i < day_segments(start, end).len() ==> {
                let record = #[trigger] day_segments(start, end)[i];
                &&& record.start_time.date.valid()
                &&& record.start_time.date == record.end_time.date
                &&& record.start_time.date.day_number() == start.date.day_number() + i
            },
        forall|i: int, j: int|
            0 <= i && j == i + 1 && j < day_segments(start, end).len() ==> {
                let record = #[trigger] day_segments(start, end)[i];
                let next = #[trigger] day_segments(start, end)[j];
                &&& next.start_time.date == record.end_time.date.successor()
                &&& record.end_time.date.before(next.start_time.date)
            },
{
    if start.date != end.date {
        lemma_successor_day_number(start.date);
        lemma_full_days(start.date.successor(), end.date);
    }
}

/// Each record is well formed: it lies within one day and is charged for
/// its own minutes alone, whatever the days around it cost. A day of the
/// stay that is neither its first nor its last runs from 00:00:00 to
/// 23:59:59 and costs the cap.
pub proof fn lemma_each_day_is_charged_on_its_own(start: Instant, end: Instant)
    requires
        start.valid(),
        end.valid(),
        start.at_or_before(end),
    ensures
        forall|i: int|
            0 <= i < day_segments(start, end).len() ==> {
                let record = #[trigger] day_segments(start, end)[i];
                &&& record.well_formed()
                &&& 0 <= record.fee <= DAILY_CAP
            },
        forall|i: int|
            0 < i < day_segments(start, end).len() - 1 ==> {
                let record = #[trigger] day_segments(start, end)[i];
                &&& record.start_time == Instant::start_of(record.start_time.date)
                &&& record.end_time == Instant::end_of(record.start_time.date)
                &&& record.fee == DAILY_CAP
            },
{
    if start.date != end.date {
        lemma_full_days(start.date.successor(), end.date);
    }
}

/// Walking a stay day by day hands out the very records that splitting it
/// at once returns, in the same order.
pub proof fn lemma_walk_matches_split(start: Instant, end: Instant)
    requires
        start.valid(),
        end.valid(),
        start.at_or_before(end),
    ensures
        remaining_from(start, end) == day_segments(start, end),
{
    if start.date != end.date {
        lemma_walk_from_start_of_day(start.date.successor(), end);
        let head = seq![day_fee(start, Instant::end_of(start.date))];
        let last = seq![day_fee(Instant::start_of(end.date), end)];
        assert(head + (full_days(start.date.successor(), end.date) + last) =~= head + full_days(
            start.date.successor(),
            end.date,
        ) + last);
    }
}

} // verus!
