//! Time reports from a project-tracking service: the hours tracked day by
//! day since last week's Monday, and the billable hours of the last three
//! months, rolled up into one bill per list.
//!
//! The library decides what to fetch, reads what was fetched, adds it up and
//! says what to print; it neither fetches nor prints. A caller drives one of
//! the two reporters, [`daily::DailyReporter`] and
//! [`monthly::MonthlyReporter`]: it asks for the next window of instants,
//! fetches the time entries of that window from the address that
//! [`request`] writes, hands the answer over as [`wire`] reads it, and
//! prints the line that comes back.
//!
//! Durations are whole milliseconds throughout, and hours are whole
//! thousandths of an hour, cut off: the library holds no floating point.

pub mod billing;
pub mod calendar;
pub mod catalog;
pub mod daily;
pub mod decimal;
pub mod entry;
pub mod error;
pub mod hours;
pub mod monthly;
pub mod names;
pub mod request;
pub mod wire;
