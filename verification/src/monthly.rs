//! The monthly billing report: the billable and total time of this month
//! and the two before it, and the bills that the billable time makes.
//!
//! The reporter decides which month to fetch next, counts what was fetched
//! and says what to print; fetching and printing are the caller's.

use vstd::prelude::*;
use vstd::string::StringExecFns;
use crate::billing::{bill_views, bills, bills_of, Bill};
use crate::calendar::{civil, civil_date, day_of_millis, epoch_day, lemma_shift_index, Month, Window};
use crate::catalog::{
    accumulate, billable_duration, countable, law_accumulate_is_cumulative, total_duration,
    TaskCatalog, TaskView,
};
use crate::entry::{
    entry_of, entry_views, first_bad_entry, parse_time_entries, raw_views, RawTimeEntry,
    RawTimeEntryView, TimeEntryView,
};
use crate::error::{Field, ReportError, SchemaError};
use crate::decimal::{format_i64, signed_text};
use crate::hours::{milli_hours, millis_to_milli_hours};
use crate::names::{month_name, month_name_of};

verus! {

/// The number of months that one report scans.
pub const MONTHS_SCANNED: u8 = 3;

/// What is printed for one month.
#[derive(Clone, Copy, Debug, PartialEq, Eq, Structural)]
pub struct MonthLine {
    /// The time of the month's entries that refer to a task of the catalog,
    /// in milliseconds.
    pub billable_millis: i64,
    /// The time of all the month's entries, in milliseconds.
    pub total_millis: i64,
    /// The billable time in thousandths of an hour, cut off.
    pub billable_milli_hours: i64,
    /// The total time in thousandths of an hour, cut off.
    pub total_milli_hours: i64,
    /// The month, 1 for January up to 12 for December.
    pub month: u32,
}

/// The month that the instant `now` falls in, or nothing where the calendar
/// does not reach it.
pub open spec fn month_of_millis(now: int) -> Option<Month> {
    match civil_date(day_of_millis(now)) {
        Some(date) => Some(date.month()),
        None => None,
    }
}

/// The heading of the bill of the list named `list_name`, made out for
/// `period`: the list's name, a dash between spaces, the month's name, a
/// space, the year.
pub open spec fn bill_title_of(list_name: Seq<char>, period: Month) -> Option<Seq<char>> {
    match month_name_of(period.month as int) {
        Some(month) => Some(list_name + " - "@ + month + " "@ + signed_text(period.year as int)),
        None => None,
    }
}

/// Finds the month that an instant falls in, given in milliseconds since the
/// start of day 0.
pub fn month_at(now_millis: i64) -> (r: Option<Month>)
    ensures
        r == month_of_millis(now_millis as int),
        r matches Some(month) ==> month.valid(),
{
    match civil(epoch_day(now_millis)) {
        Some(date) => Some(Month { year: date.year, month: date.month }),
        None => None,
    }
}

/// The entries that fetched records state, where all of them state one.
pub open spec fn stated_entries(raws: Seq<RawTimeEntryView>) -> Seq<TimeEntryView> {
    raws.map_values(|raw: RawTimeEntryView| entry_of(raw)->Ok_0)
}

/// Whether each of the fetched records states an entry.
pub open spec fn all_state_entries(raws: Seq<RawTimeEntryView>) -> bool {
    forall|i: int| 0 <= i < raws.len() ==> (#[trigger] entry_of(raws[i])) is Ok
}

/// Where a monthly report stands.
pub struct MonthlyState {
    /// The tasks of the catalog, with the time counted so far.
    pub tasks: Seq<TaskView>,
    /// The month in which the report was started.
    pub start: Month,
    /// The month to scan next.
    pub current: Month,
    /// How many more months are to be scanned.
    pub remaining: nat,
}

impl MonthlyState {
    /// The state in which a report on `tasks` begins in month `month`.
    pub open spec fn begin(tasks: Seq<TaskView>, month: Month) -> MonthlyState {
        MonthlyState { tasks, start: month, current: month, remaining: 3 }
    }

    /// Whether the scan is over.
    pub open spec fn finished(self) -> bool {
        self.remaining == 0
    }

    /// The instants of the month to scan: from its start up to the start of
    /// the month after it.
    pub open spec fn window(self) -> (Option<int>, Option<int>) {
        (
            self.current.start_millis(),
            match self.current.shifted_by(1) {
                Some(next) => next.start_millis(),
                None => None,
            },
        )
    }

    /// The state after `entries` were counted for the current month: the
    /// tasks hold their time as well, and the month before is next.
    pub open spec fn after(self, entries: Seq<TimeEntryView>) -> MonthlyState {
        MonthlyState {
            tasks: accumulate(self.tasks, entries),
            start: self.start,
            current: self.current.shifted_by(-1)->Some_0,
            remaining: (self.remaining - 1) as nat,
        }
    }
}

/// The state of a monthly report.
#[derive(Debug)]
pub struct MonthlyReporter {
    catalog: TaskCatalog,
    start: Month,
    current: Month,
    next: Month,
    remaining: u8,
}

impl View for MonthlyReporter {
    type V = MonthlyState;

    closed spec fn view(&self) -> MonthlyState {
        MonthlyState {
            tasks: self.catalog@,
            start: self.start,
            current: self.current,
            remaining: self.remaining as nat,
        }
    }
}

impl MonthlyReporter {
    /// Whether the state is one that a report can be in.
    pub closed spec fn wf(&self) -> bool {
        &&& self.catalog.wf()
        &&& self.remaining <= MONTHS_SCANNED
        &&& self.current.shifted_by(1) == Some(self.next)
    }

    /// Starts a report on the tasks of `catalog` at the instant
    /// `now_millis`, in milliseconds since the start of day 0.
    ///
    /// Fails only where the calendar does not reach the month of that
    /// instant or the month after it.
    pub fn new(catalog: TaskCatalog, now_millis: i64) -> (r: Result<MonthlyReporter, ReportError>)
        requires
            catalog.wf(),
        ensures
            match r {
                Ok(reporter) => {
                    &&& reporter.wf()
                    &&& month_of_millis(now_millis as int) matches Some(month)
                    &&& month.shifted_by(1) is Some
                    &&& reporter@ == MonthlyState::begin(catalog@, month)
                },
                Err(e) => {
                    &&& e == ReportError::DateOutOfRange
                    &&& match month_of_millis(now_millis as int) {
                        Some(month) => month.shifted_by(1) is None,
                        None => true,
                    }
                },
            },
    {
        let current = match month_at(now_millis) {
            Some(current) => current,
            None => {
                return Err(ReportError::DateOutOfRange);
            },
        };
        let next = match current.shifted(1) {
            Some(next) => next,
            None => {
                return Err(ReportError::DateOutOfRange);
            },
        };
        Ok(MonthlyReporter { catalog, start: current, current, next, remaining: MONTHS_SCANNED })
    }

    /// Whether the scan is over.
    pub fn is_finished(&self) -> (r: bool)
        ensures
            r == self@.finished(),
    {
        self.remaining == 0
    }

    /// The catalog, with the time counted so far.
    pub fn catalog(&self) -> (catalog: &TaskCatalog)
        ensures
            catalog@ == self@.tasks,
    {
        &self.catalog
    }

    /// The instants to fetch the time entries of next: those of the current
    /// month, or nothing where the scan is over.
    pub fn next_window(&self) -> (r: Option<Window>)
        requires
            self.wf(),
        ensures
            match r {
                Some(w) => !self@.finished() && self@.window() == (
                    Some(w.start as int),
                    Some(w.end as int),
                ),
                None => self@.finished(),
            },
    {
        if self.remaining == 0 {
            return None;
        }
        proof {
            lemma_shift_index(self.current, 1);
        }
        match (self.current.start(), self.next.start()) {
            (Some(start), Some(end)) => Some(Window { start, end }),
            _ => None,
        }
    }

    /// Takes the time entries fetched for the current month, counts them
    /// into the catalog, returns what to print for the month and moves on to
    /// the month before.
    ///
    /// `data` is the fetched batch, or `None` where the response carried no
    /// list of entries. Every entry counts towards the total; those that
    /// refer to a task of the catalog count towards the billable time and
    /// towards that task. Fails, leaving the state as it was, where a
    /// record is no entry, where the calendar does not reach the month
    /// before, or where a sum does not fit in 64 bits; in that order.
    pub fn record(&mut self, data: &Option<Vec<RawTimeEntry>>) -> (r: Result<
        MonthLine,
        ReportError,
    >)
        requires
            old(self).wf(),
            !old(self)@.finished(),
        ensures
            final(self).wf(),
            match r {
                Ok(line) => {
                    &&& data matches Some(raws)
                    &&& all_state_entries(raw_views(raws@))
                    &&& old(self)@.current.shifted_by(-1) is Some
                    &&& countable(old(self)@.tasks, stated_entries(raw_views(raws@)))
                    &&& line.total_millis == total_duration(stated_entries(raw_views(raws@)))
                    &&& line.billable_millis == billable_duration(
                        stated_entries(raw_views(raws@)),
                        old(self)@.tasks,
                    )
                    &&& line.total_milli_hours == milli_hours(line.total_millis as int)
                    &&& line.billable_milli_hours == milli_hours(line.billable_millis as int)
                    &&& line.month == old(self)@.current.month
                    &&& 1 <= line.month <= 12
                    &&& final(self)@ == old(self)@.after(stated_entries(raw_views(raws@)))
                },
                Err(ReportError::Schema(e)) => {
                    &&& final(self)@ == old(self)@
                    &&& match data {
                        None => e == SchemaError::Absent(Field::Data),
                        Some(raws) => first_bad_entry(raw_views(raws@), e),
                    }
                },
                Err(ReportError::DateOutOfRange) => {
                    &&& final(self)@ == old(self)@
                    &&& data matches Some(raws)
                    &&& all_state_entries(raw_views(raws@))
                    &&& old(self)@.current.shifted_by(-1) is None
                },
                Err(ReportError::Overflow) => {
                    &&& final(self)@ == old(self)@
                    &&& data matches Some(raws)
                    &&& all_state_entries(raw_views(raws@))
                    &&& old(self)@.current.shifted_by(-1) is Some
                    &&& !countable(old(self)@.tasks, stated_entries(raw_views(raws@)))
                },
            },
    {
        let entries = match parse_time_entries(data) {
            Ok(entries) => entries,
            Err(e) => {
                return Err(ReportError::Schema(e));
            },
        };
        proof {
            let raws = data->Some_0;
            let views = raw_views(raws@);
            assert forall|i: int| 0 <= i < views.len() implies (#[trigger] entry_of(
                views[i],
            )) is Ok by {
                assert(entry_of(raws@[i]@) is Ok);
            }
            assert(entry_views(entries@) =~= stated_entries(views)) by {
                assert forall|i: int| 0 <= i < views.len() implies entry_views(entries@)[i]
                    == stated_entries(views)[i] by {
                    assert(entry_of(raws@[i]@) == Ok::<TimeEntryView, SchemaError>(
                        entries@[i]@,
                    ));
                }
            }
        }
        let previous = match self.current.shifted(-1) {
            Some(previous) => previous,
            None => {
                return Err(ReportError::DateOutOfRange);
            },
        };
        let totals = match self.catalog.record(&entries) {
            Ok(totals) => totals,
            Err(_) => {
                return Err(ReportError::Overflow);
            },
        };
        let line = MonthLine {
            billable_millis: totals.billable,
            total_millis: totals.total,
            billable_milli_hours: millis_to_milli_hours(totals.billable),
            total_milli_hours: millis_to_milli_hours(totals.total),
            month: self.current.month,
        };
        proof {
            lemma_shift_index(self.current, -1);
        }
        self.next = self.current;
        self.current = previous;
        self.remaining = self.remaining - 1;
        Ok(line)
    }

    /// The month that the bills are made out for: the one before the month
    /// in which the report was started, whichever months the billed time
    /// was tracked in. Nothing where the calendar does not reach it.
    pub fn bill_period(&self) -> (r: Option<Month>)
        ensures
            r == self@.start.shifted_by(-1),
    {
        self.start.shifted(-1)
    }

    /// Writes the heading of the bill of a list.
    ///
    /// `list_name` is the name that was fetched for the list, or `None`
    /// where the response carried none. Fails where the calendar does not
    /// reach the month that bills are made out for, and where the name is
    /// missing; in that order.
    pub fn bill_title(&self, list_name: &Option<String>) -> (r: Result<String, ReportError>)
        ensures
            match r {
                Ok(title) => {
                    &&& self@.start.shifted_by(-1) matches Some(period)
                    &&& list_name matches Some(name)
                    &&& bill_title_of(name@, period) == Some(title@)
                },
                Err(ReportError::DateOutOfRange) => self@.start.shifted_by(-1) is None,
                Err(ReportError::Schema(e)) => {
                    &&& self@.start.shifted_by(-1) is Some
                    &&& list_name is None
                    &&& e == SchemaError::Absent(Field::ListName)
                },
                Err(ReportError::Overflow) => false,
            },
    {
        let period = match self.bill_period() {
            Some(period) => period,
            None => {
                return Err(ReportError::DateOutOfRange);
            },
        };
        let name = match list_name {
            Some(name) => name,
            None => {
                return Err(ReportError::Schema(SchemaError::Absent(Field::ListName)));
            },
        };
        let month = match month_name(period.month) {
            Some(month) => month,
            None => {
                return Err(ReportError::DateOutOfRange);
            },
        };
        let mut title = name.clone();
        title.append(" - ");
        title.append(month);
        title.append(" ");
        title.append(format_i64(period.year as i64).as_str());
        Ok(title)
    }

    /// The bills that the time counted so far makes: one for each list that
    /// has a task with time on it.
    pub fn bills(&self) -> (r: Vec<Bill>)
        ensures
            bill_views(r@) == bills_of(self@.tasks),
    {
        bills(&self.catalog)
    }
}

/// A report scans the month it is started in and the two before it, each
/// one month before the last, and is then over; the time of the three
/// batches adds up on each task.
pub proof fn law_three_months_back(
    tasks: Seq<TaskView>,
    month: Month,
    first: Seq<TimeEntryView>,
    second: Seq<TimeEntryView>,
    third: Seq<TimeEntryView>,
)
    requires
        month.valid(),
        month.shifted_by(-3) is Some,
    ensures
        ({
            let begin = MonthlyState::begin(tasks, month);
            let end = begin.after(first).after(second).after(third);
            &&& begin.current == month
            &&& begin.after(first).current.index() == month.index() - 1
            &&& begin.after(first).after(second).current.index() == month.index() - 2
            &&& !begin.after(first).after(second).finished()
            &&& end.finished()
            &&& end.start == month
            &&& end.tasks == accumulate(tasks, first + second + third)
        }),
{
    let begin = MonthlyState::begin(tasks, month);
    law_accumulate_is_cumulative(tasks, first, second);
    law_accumulate_is_cumulative(tasks, first + second, third);
}

} // verus!
