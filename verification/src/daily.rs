//! The daily report: the time tracked on each day from the Monday of last
//! week up to today.
//!
//! The reporter decides which day to fetch next and what to print for it;
//! fetching and printing are the caller's.

use vstd::prelude::*;
use crate::calendar::{
    civil, civil_date, day_of_millis, day_window, epoch_day, lemma_monday_of, monday_of,
    week_start, weekday, weekday_of, window_of_day, Window, MILLIS_PER_DAY,
};
use crate::entry::{
    duration_of, first_bad_duration, parse_durations, raw_views, sum, sum_durations,
    RawTimeEntry, RawTimeEntryView,
};
use crate::error::{Field, ReportError, SchemaError};
use crate::hours::{milli_hours, millis_to_milli_hours};

verus! {

/// The most days that one report covers.
pub const DAILY_BUDGET: u8 = 14;

/// What is printed for one day.
#[derive(Clone, Copy, Debug, PartialEq, Eq, Structural)]
pub struct DayLine {
    /// The time tracked on the day, in milliseconds.
    pub total_millis: i64,
    /// The same in thousandths of an hour, cut off.
    pub milli_hours: i64,
    /// The day's place in the week, 0 for Monday up to 6 for Sunday.
    pub weekday: u8,
    /// The day of the month, from 1.
    pub day_of_month: u32,
    /// The month, 1 for January up to 12 for December.
    pub month: u32,
}

/// The whole days in a span of `millis` milliseconds, cut off towards zero.
pub open spec fn whole_days(millis: int) -> int {
    if millis >= 0 {
        millis / (MILLIS_PER_DAY as int)
    } else {
        -((-millis) / (MILLIS_PER_DAY as int))
    }
}

/// Whether day `day` counts as today at the instant `now`: no whole day
/// lies between its midnight and `now`.
pub open spec fn is_today(day: int, now: int) -> bool {
    whole_days(window_of_day(day).0 - now) == 0
}

/// Where a daily report stands.
pub struct DailyState {
    /// The instant at which the report was started.
    pub now: int,
    /// The day to report next.
    pub current: int,
    /// How many more days may be reported.
    pub remaining: nat,
}

impl DailyState {
    /// The state in which a report started at `now` begins: at the Monday of
    /// the week before, with the whole budget.
    pub open spec fn start(now: int) -> DailyState {
        DailyState { now, current: monday_of(day_of_millis(now) - 7), remaining: 14 }
    }

    /// Whether the report is over.
    pub open spec fn finished(self) -> bool {
        self.remaining == 0
    }

    /// The state after the current day was reported: over where that day
    /// was today, else at the next day with one day less to go.
    pub open spec fn advanced(self) -> DailyState {
        if is_today(self.current, self.now) {
            DailyState { remaining: 0, ..self }
        } else {
            DailyState {
                current: self.current + 1,
                remaining: (self.remaining - 1) as nat,
                ..self
            }
        }
    }

    /// The days that are reported from this state on, in order.
    pub open spec fn days(self) -> Seq<int>
        decreases self.remaining,
    {
        if self.remaining == 0 {
            Seq::empty()
        } else {
            seq![self.current] + self.advanced().days()
        }
    }
}

/// Whether a report started at `now` stays within the days that have a
/// number of 32 bits.
pub open spec fn reportable(now: int) -> bool {
    i32::MIN <= monday_of(day_of_millis(now) - 7) && day_of_millis(now) <= i32::MAX
}

/// The durations that fetched entries state, where all of them state one.
pub open spec fn stated_durations(raws: Seq<RawTimeEntryView>) -> Seq<i64> {
    raws.map_values(|raw: RawTimeEntryView| duration_of(raw)->Ok_0)
}

/// Whether each of the fetched entries states a duration.
pub open spec fn all_state_durations(raws: Seq<RawTimeEntryView>) -> bool {
    forall|i: int| 0 <= i < raws.len() ==> (#[trigger] duration_of(raws[i])) is Ok
}

/// A day at or before today counts as today only if it is today.
pub proof fn lemma_is_today(day: int, now: int)
    requires
        day <= day_of_millis(now),
    ensures
        is_today(day, now) <==> day == day_of_millis(now),
{
}

/// The state of a daily report.
#[derive(Debug)]
pub struct DailyReporter {
    now_millis: i64,
    current: i32,
    remaining: u8,
}

impl View for DailyReporter {
    type V = DailyState;

    closed spec fn view(&self) -> DailyState {
        DailyState {
            now: self.now_millis as int,
            current: self.current as int,
            remaining: self.remaining as nat,
        }
    }
}

impl DailyReporter {
    /// Whether the state is one that a report can be in: within its budget
    /// and not past today.
    pub closed spec fn wf(&self) -> bool {
        &&& self.remaining <= DAILY_BUDGET
        &&& self.current <= day_of_millis(self.now_millis as int) <= i32::MAX
    }

    /// Starts a report at the instant `now_millis`, in milliseconds since
    /// the start of day 0.
    ///
    /// Fails only where the days to report have no number of 32 bits.
    pub fn new(now_millis: i64) -> (r: Result<DailyReporter, ReportError>)
        ensures
            match r {
                Ok(reporter) => reportable(now_millis as int) && reporter.wf() && reporter@
                    == DailyState::start(now_millis as int),
                Err(e) => e == ReportError::DateOutOfRange && !reportable(now_millis as int),
            },
    {
        let today = epoch_day(now_millis);
        proof {
            lemma_monday_of(today - 7);
        }
        if today - 7 < i32::MIN as i64 || today > i32::MAX as i64 {
            return Err(ReportError::DateOutOfRange);
        }
        let monday = week_start((today - 7) as i32);
        if monday < i32::MIN as i64 {
            return Err(ReportError::DateOutOfRange);
        }
        Ok(
            DailyReporter {
                now_millis,
                current: monday as i32,
                remaining: DAILY_BUDGET,
            },
        )
    }

    /// Whether the report is over.
    pub fn is_finished(&self) -> (r: bool)
        ensures
            r == self@.finished(),
    {
        self.remaining == 0
    }

    /// The instants to fetch the time entries of next: those of the current
    /// day, or nothing where the report is over.
    pub fn next_window(&self) -> (r: Option<Window>)
        ensures
            match r {
                Some(w) => !self@.finished() && (w.start as int, w.end as int) == window_of_day(
                    self@.current,
                ),
                None => self@.finished(),
            },
    {
        if self.remaining == 0 {
            None
        } else {
            Some(day_window(self.current))
        }
    }

    /// Takes the time entries fetched for the current day, returns what to
    /// print for it and moves on: to the next day, or to the end where the
    /// day was today or the budget is used up.
    ///
    /// `data` is the fetched batch, or `None` where the response carried no
    /// list of entries. Every entry counts, whatever task it refers to.
    /// Fails, leaving the state as it was, where an entry states no
    /// duration, where the total does not fit in 64 bits, or where the
    /// calendar does not reach the day; in that order.
    pub fn record(&mut self, data: &Option<Vec<RawTimeEntry>>) -> (r: Result<DayLine, ReportError>)
        requires
            old(self).wf(),
            !old(self)@.finished(),
        ensures
            final(self).wf(),
            match r {
                Ok(line) => {
                    &&& data matches Some(raws)
                    &&& all_state_durations(raw_views(raws@))
                    &&& line.total_millis == sum(stated_durations(raw_views(raws@)))
                    &&& line.milli_hours == milli_hours(line.total_millis as int)
                    &&& line.weekday == weekday_of(old(self)@.current)
                    &&& civil_date(old(self)@.current) matches Some(date)
                    &&& line.day_of_month == date.day
                    &&& line.month == date.month
                    &&& 1 <= line.month <= 12
                    &&& final(self)@ == old(self)@.advanced()
                },
                Err(ReportError::Schema(e)) => {
                    &&& final(self)@ == old(self)@
                    &&& match data {
                        None => e == SchemaError::Absent(Field::Data),
                        Some(raws) => first_bad_duration(raw_views(raws@), e),
                    }
                },
                Err(ReportError::Overflow) => {
                    &&& final(self)@ == old(self)@
                    &&& data matches Some(raws)
                    &&& all_state_durations(raw_views(raws@))
                    &&& !(i64::MIN <= sum(stated_durations(raw_views(raws@))) <= i64::MAX)
                },
                Err(ReportError::DateOutOfRange) => {
                    &&& final(self)@ == old(self)@
                    &&& data matches Some(raws)
                    &&& all_state_durations(raw_views(raws@))
                    &&& i64::MIN <= sum(stated_durations(raw_views(raws@))) <= i64::MAX
                    &&& civil_date(old(self)@.current) is None
                },
            },
    {
        let durations = match parse_durations(data) {
            Ok(durations) => durations,
            Err(e) => {
                return Err(ReportError::Schema(e));
            },
        };
        proof {
            let raws = data->Some_0;
            let views = raw_views(raws@);
            assert forall|i: int| 0 <= i < views.len() implies (#[trigger] duration_of(
                views[i],
            )) is Ok by {
                assert(duration_of(raws@[i]@) is Ok);
            }
            assert(durations@ =~= stated_durations(views)) by {
                assert forall|i: int| 0 <= i < views.len() implies durations@[i]
                    == stated_durations(views)[i] by {
                    assert(duration_of(raws@[i]@) == Ok::<i64, SchemaError>(durations@[i]));
                }
            }
        }
        let total_millis = match sum_durations(&durations) {
            Ok(total) => total,
            Err(_) => {
                return Err(ReportError::Overflow);
            },
        };
        let date = match civil(self.current as i64) {
            Some(date) => date,
            None => {
                return Err(ReportError::DateOutOfRange);
            },
        };
        let line = DayLine {
            total_millis,
            milli_hours: millis_to_milli_hours(total_millis),
            weekday: weekday(self.current),
            day_of_month: date.day,
            month: date.month,
        };
        let midnight = day_window(self.current).start;
        let since_midnight: i128 = self.now_millis as i128 - midnight as i128;
        proof {
            lemma_is_today(self.current as int, self.now_millis as int);
        }
        if since_midnight < MILLIS_PER_DAY as i128 {
            self.remaining = 0;
        } else {
            self.current = self.current + 1;
            self.remaining = self.remaining - 1;
        }
        Ok(line)
    }
}

/// From a state at or before today with enough days to go, the days
/// reported are those from the current one through today, no more.
pub proof fn lemma_days_through_today(state: DailyState)
    requires
        state.current <= day_of_millis(state.now),
        state.remaining > day_of_millis(state.now) - state.current,
    ensures
        state.days().len() == day_of_millis(state.now) - state.current + 1,
        forall|i: int| 0 <= i < state.days().len() ==> state.days()[i] == state.current + i,
    decreases state.remaining,
{
    lemma_is_today(state.current, state.now);
    if state.current == day_of_millis(state.now) {
        assert(state.advanced().days() =~= Seq::<int>::empty());
    } else {
        lemma_days_through_today(state.advanced());
    }
}

/// A daily report covers exactly the days from the Monday of the week
/// before the one it is started in through the day it is started on: at
/// least eight days and at most fourteen, in order, the last of them today.
pub proof fn law_daily_report_days(now: int)
    ensures
        ({
            let today = day_of_millis(now);
            let monday = monday_of(today - 7);
            let days = DailyState::start(now).days();
            &&& weekday_of(monday) == 0
            &&& days.len() == today - monday + 1
            &&& 8 <= days.len() <= 14
            &&& forall|i: int| 0 <= i < days.len() ==> days[i] == monday + i
            &&& days.first() == monday
            &&& days.last() == today
            &&& window_of_day(days.last()).0 <= now < window_of_day(days.last()).1
        }),
{
    lemma_monday_of(day_of_millis(now) - 7);
    lemma_days_through_today(DailyState::start(now));
}

} // verus!
