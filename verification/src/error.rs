//! The ways in which a report can fail inside the library.

use vstd::prelude::*;

verus! {

/// A field that a fetched record is expected to carry.
#[derive(Clone, Copy, Debug, PartialEq, Eq, Structural)]
pub enum Field {
    /// The list of tasks in a task response.
    Tasks,
    /// A task's identifier.
    TaskId,
    /// A task's human-facing billing code.
    TaskCustomId,
    /// A task's name.
    TaskName,
    /// The identifier of the list that owns a task.
    TaskListId,
    /// The list of entries in a time-entry response.
    Data,
    /// A time entry's duration.
    Duration,
    /// The identifier of the task that a time entry belongs to.
    EntryTaskId,
    /// A list's display name.
    ListName,
}

/// A fetched record that does not have the expected shape.
#[derive(Clone, Copy, Debug, PartialEq, Eq, Structural)]
pub enum SchemaError {
    /// The field is missing, or is not text.
    Absent(Field),
    /// A duration is text but no integer number of milliseconds.
    NotAnInteger,
}

/// Why a reporter gave up.
#[derive(Clone, Copy, Debug, PartialEq, Eq, Structural)]
pub enum ReportError {
    /// A fetched record was malformed.
    Schema(SchemaError),
    /// A sum of durations does not fit in 64 bits.
    Overflow,
    /// A date falls outside the calendar's range.
    DateOutOfRange,
}

} // verus!
