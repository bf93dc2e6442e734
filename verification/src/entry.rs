//! Time entries: the records of tracked work that the reports add up.

use vstd::prelude::*;
use crate::decimal::{decimal_i64, parse_i64};
use crate::error::{Field, ReportError, SchemaError};

verus! {

/// A time entry as it was fetched: each field is present only if the
/// response carried it as text.
#[derive(Clone, Debug)]
pub struct RawTimeEntry {
    /// The duration in milliseconds, written in decimal.
    pub duration: Option<String>,
    /// The identifier of the task that the time was tracked on.
    pub task_id: Option<String>,
}

/// What a [`RawTimeEntry`] holds.
pub struct RawTimeEntryView {
    pub duration: Option<Seq<char>>,
    pub task_id: Option<Seq<char>>,
}

/// The characters of an optional text.
pub open spec fn text_view(text: Option<String>) -> Option<Seq<char>> {
    match text {
        Some(s) => Some(s@),
        None => None,
    }
}

impl View for RawTimeEntry {
    type V = RawTimeEntryView;

    open spec fn view(&self) -> RawTimeEntryView {
        RawTimeEntryView {
            duration: text_view(self.duration),
            task_id: text_view(self.task_id),
        }
    }
}

/// A recorded interval of tracked work.
#[derive(Clone, Debug)]
pub struct TimeEntry {
    /// The identifier of the task that the time was tracked on.
    pub task_id: String,
    /// The length of the interval in milliseconds; it may be negative.
    pub duration_millis: i64,
}

/// What a [`TimeEntry`] holds.
pub struct TimeEntryView {
    pub task_id: Seq<char>,
    pub duration: int,
}

impl View for TimeEntry {
    type V = TimeEntryView;

    open spec fn view(&self) -> TimeEntryView {
        TimeEntryView { task_id: self.task_id@, duration: self.duration_millis as int }
    }
}

/// The duration that a fetched entry states, or what is wrong with it.
pub open spec fn duration_of(raw: RawTimeEntryView) -> Result<i64, SchemaError> {
    match raw.duration {
        None => Err(SchemaError::Absent(Field::Duration)),
        Some(text) => match decimal_i64(text) {
            Some(millis) => Ok(millis),
            None => Err(SchemaError::NotAnInteger),
        },
    }
}

/// The entry that a fetched record states, or what is wrong with it. The
/// duration is looked at first, the task second.
pub open spec fn entry_of(raw: RawTimeEntryView) -> Result<TimeEntryView, SchemaError> {
    match duration_of(raw) {
        Err(e) => Err(e),
        Ok(millis) => match raw.task_id {
            None => Err(SchemaError::Absent(Field::EntryTaskId)),
            Some(id) => Ok(TimeEntryView { task_id: id, duration: millis as int }),
        },
    }
}

/// Reads the duration of a fetched entry.
pub fn parse_duration(raw: &RawTimeEntry) -> (r: Result<i64, SchemaError>)
    ensures
        r == duration_of(raw@),
{
    match &raw.duration {
        None => Err(SchemaError::Absent(Field::Duration)),
        Some(text) => match parse_i64(text.as_str()) {
            Some(millis) => Ok(millis),
            None => Err(SchemaError::NotAnInteger),
        },
    }
}

/// Reads a fetched entry in full.
pub fn parse_time_entry(raw: &RawTimeEntry) -> (r: Result<TimeEntry, SchemaError>)
    ensures
        match r {
            Ok(entry) => entry_of(raw@) == Ok::<TimeEntryView, SchemaError>(entry@),
            Err(e) => entry_of(raw@) == Err::<TimeEntryView, SchemaError>(e),
        },
{
    match parse_duration(raw) {
        Err(e) => Err(e),
        Ok(millis) => match &raw.task_id {
            None => Err(SchemaError::Absent(Field::EntryTaskId)),
            Some(id) => Ok(TimeEntry { task_id: id.clone(), duration_millis: millis }),
        },
    }
}

/// The views of a list of fetched entries, in order.
pub open spec fn raw_views(raws: Seq<RawTimeEntry>) -> Seq<RawTimeEntryView> {
    raws.map_values(|raw: RawTimeEntry| raw@)
}

/// The views of a list of entries, in order.
pub open spec fn entry_views(entries: Seq<TimeEntry>) -> Seq<TimeEntryView> {
    entries.map_values(|entry: TimeEntry| entry@)
}

/// Whether `e` is what is wrong with the first of `raws` that has no
/// readable duration.
pub open spec fn first_bad_duration(raws: Seq<RawTimeEntryView>, e: SchemaError) -> bool {
    exists|i: int|
        0 <= i < raws.len() && #[trigger] duration_of(raws[i]) == Err::<i64, SchemaError>(e)
            && forall|j: int| 0 <= j < i ==> (#[trigger] duration_of(raws[j])) is Ok
}

/// Whether `e` is what is wrong with the first of `raws` that is no entry.
pub open spec fn first_bad_entry(raws: Seq<RawTimeEntryView>, e: SchemaError) -> bool {
    exists|i: int|
        0 <= i < raws.len() && #[trigger] entry_of(raws[i]) == Err::<TimeEntryView, SchemaError>(e)
            && forall|j: int| 0 <= j < i ==> (#[trigger] entry_of(raws[j])) is Ok
}

/// Reads the durations of a fetched batch, in order.
///
/// `data` is the batch, or `None` where the response carried no list of
/// entries. The first record without a readable duration fails the batch.
pub fn parse_durations(data: &Option<Vec<RawTimeEntry>>) -> (r: Result<Vec<i64>, SchemaError>)
    ensures
        match r {
            Ok(durations) => data matches Some(raws) && durations@.len() == raws@.len()
                && forall|i: int|
                0 <= i < raws@.len() ==> duration_of(#[trigger] raws@[i]@) == Ok::<i64, SchemaError>(
                    durations@[i],
                ),
            Err(e) => match data {
                None => e == SchemaError::Absent(Field::Data),
                Some(raws) => first_bad_duration(raw_views(raws@), e),
            },
        },
{
    let raws = match data {
        None => {
            return Err(SchemaError::Absent(Field::Data));
        },
        Some(raws) => raws,
    };
    let mut durations: Vec<i64> = Vec::new();
    let mut i: usize = 0;
    while i < raws.len()
        invariant
            *data == Some(*raws),
            i <= raws@.len(),
            durations@.len() == i,
            forall|j: int|
                0 <= j < i ==> duration_of(#[trigger] raws@[j]@) == Ok::<i64, SchemaError>(
                    durations@[j],
                ),
        decreases raws@.len() - i,
    {
        match parse_duration(&raws[i]) {
            Ok(millis) => {
                durations.push(millis);
            },
            Err(e) => {
                proof {
                    let views = raw_views(raws@);
                    assert(duration_of(views[i as int]) == Err::<i64, SchemaError>(e));
                    assert forall|j: int| 0 <= j < i implies (#[trigger] duration_of(
                        views[j],
                    )) is Ok by {
                        assert(views[j] == raws@[j]@);
                    }
                    assert(first_bad_duration(views, e));
                }
                return Err(e);
            },
        }
        i = i + 1;
    }
    Ok(durations)
}

/// Reads a fetched batch of entries in full, in order.
///
/// `data` is the batch, or `None` where the response carried no list of
/// entries. The first malformed record fails the batch.
pub fn parse_time_entries(data: &Option<Vec<RawTimeEntry>>) -> (r: Result<
    Vec<TimeEntry>,
    SchemaError,
>)
    ensures
        match r {
            Ok(entries) => data matches Some(raws) && entries@.len() == raws@.len()
                && forall|i: int|
                0 <= i < raws@.len() ==> entry_of(#[trigger] raws@[i]@) == Ok::<
                    TimeEntryView,
                    SchemaError,
                >(entries@[i]@),
            Err(e) => match data {
                None => e == SchemaError::Absent(Field::Data),
                Some(raws) => first_bad_entry(raw_views(raws@), e),
            },
        },
{
    let raws = match data {
        None => {
            return Err(SchemaError::Absent(Field::Data));
        },
        Some(raws) => raws,
    };
    let mut entries: Vec<TimeEntry> = Vec::new();
    let mut i: usize = 0;
    while i < raws.len()
        invariant
            *data == Some(*raws),
            i <= raws@.len(),
            entries@.len() == i,
            forall|j: int|
                0 <= j < i ==> entry_of(#[trigger] raws@[j]@) == Ok::<TimeEntryView, SchemaError>(
                    entries@[j]@,
                ),
        decreases raws@.len() - i,
    {
        match parse_time_entry(&raws[i]) {
            Ok(entry) => {
                entries.push(entry);
            },
            Err(e) => {
                proof {
                    let views = raw_views(raws@);
                    assert(entry_of(views[i as int]) == Err::<TimeEntryView, SchemaError>(e));
                    assert forall|j: int| 0 <= j < i implies (#[trigger] entry_of(
                        views[j],
                    )) is Ok by {
                        assert(views[j] == raws@[j]@);
                    }
                    assert(first_bad_entry(views, e));
                }
                return Err(e);
            },
        }
        i = i + 1;
    }
    Ok(entries)
}

/// The sum of `durations`.
pub open spec fn sum(durations: Seq<i64>) -> int
    decreases durations.len(),
{
    if durations.len() == 0 {
        0
    } else {
        sum(durations.drop_last()) + durations.last()
    }
}

/// A sum of `n` durations is at most `n` times the largest `i64` away from
/// zero.
pub proof fn lemma_sum_bounds(durations: Seq<i64>)
    ensures
        -durations.len() * 0x8000_0000_0000_0000 <= sum(durations) <= durations.len()
            * 0x8000_0000_0000_0000,
    decreases durations.len(),
{
    if durations.len() > 0 {
        lemma_sum_bounds(durations.drop_last());
    }
}

/// Adds up `durations`; fails where the sum does not fit in an `i64`.
pub fn sum_durations(durations: &Vec<i64>) -> (r: Result<i64, ReportError>)
    ensures
        match r {
            Ok(total) => total == sum(durations@),
            Err(e) => e == ReportError::Overflow && !(i64::MIN <= sum(durations@) <= i64::MAX),
        },
{
    let mut total: i128 = 0;
    let mut i: usize = 0;
    while i < durations.len()
        invariant
            i <= durations@.len(),
            total == sum(durations@.take(i as int)),
        decreases durations@.len() - i,
    {
        proof {
            lemma_sum_bounds(durations@.take(i as int));
            assert(durations@.take(i + 1).drop_last() =~= durations@.take(i as int));
        }
        total = total + durations[i] as i128;
        i = i + 1;
    }
    proof {
        assert(durations@.take(i as int) =~= durations@);
    }
    if total < i64::MIN as i128 || total > i64::MAX as i128 {
        Err(ReportError::Overflow)
    } else {
        Ok(total as i64)
    }
}

} // verus!
