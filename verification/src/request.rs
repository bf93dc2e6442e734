//! The addresses at which the tracking service is asked for the records of
//! a report.

use vstd::prelude::*;
use vstd::string::StringExecFns;
use crate::calendar::Window;
use crate::decimal::{format_i64, signed_text};

verus! {

/// The address of the billable tasks of organization `org_id`: the tasks,
/// closed ones too, whose billing field is set.
pub open spec fn tasks_url_of(org_id: Seq<char>) -> Seq<char> {
    "https://api.clickup.com/api/v2/team/"@ + org_id
        + "/task?include_closed=1&custom_fields%5B%5D=%5B%7B%22field_id%22%3A%20%22e2407157-67b9-4edc-964b-19550176c7ee%22%2C%22operator%22%3A%20%22%3D%22%2C%20%22value%22%3A%20%220%22%7D%5D"@
}

/// The address of the time entries of organization `org_id` from the
/// instant `start` up to, not including, the instant `end`.
pub open spec fn time_entries_url_of(org_id: Seq<char>, start: int, end: int) -> Seq<char> {
    "https://api.clickup.com/api/v2/team/"@ + org_id + "/time_entries?start_date="@ + signed_text(
        start,
    ) + "&end_date="@ + signed_text(end)
}

/// The address of list `list_id`.
pub open spec fn list_url_of(list_id: Seq<char>) -> Seq<char> {
    "https://api.clickup.com/api/v2/list/"@ + list_id
}

/// Writes the address to fetch the billable tasks of an organization from.
pub fn tasks_url(org_id: &str) -> (url: String)
    ensures
        url@ == tasks_url_of(org_id@),
{
    let mut url = "https://api.clickup.com/api/v2/team/".to_owned();
    url.append(org_id);
    url.append(
        "/task?include_closed=1&custom_fields%5B%5D=%5B%7B%22field_id%22%3A%20%22e2407157-67b9-4edc-964b-19550176c7ee%22%2C%22operator%22%3A%20%22%3D%22%2C%20%22value%22%3A%20%220%22%7D%5D",
    );
    url
}

/// Writes the address to fetch the time entries of an organization from,
/// for the instants of `window`.
pub fn time_entries_url(org_id: &str, window: &Window) -> (url: String)
    ensures
        url@ == time_entries_url_of(org_id@, window.start as int, window.end as int),
{
    let mut url = "https://api.clickup.com/api/v2/team/".to_owned();
    url.append(org_id);
    url.append("/time_entries?start_date=");
    url.append(format_i64(window.start).as_str());
    url.append("&end_date=");
    url.append(format_i64(window.end).as_str());
    url
}

/// Writes the address to fetch a list from.
pub fn list_url(list_id: &str) -> (url: String)
    ensures
        url@ == list_url_of(list_id@),
{
    let mut url = "https://api.clickup.com/api/v2/list/".to_owned();
    url.append(list_id);
    url
}

} // verus!
