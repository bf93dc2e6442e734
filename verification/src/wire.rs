//! Reading the records of a report out of the JSON documents that the
//! tracking service answers with.
//!
//! A document is looked at through JSON pointers only: the text that stands
//! at a pointer, and the number of items of the array that stands at one.
//! Whatever is missing, or is not text, comes out as an absent field; what
//! that means for a report is decided where the records are read.

use vstd::prelude::*;
use vstd::string::StringExecFns;
use serde_json::Value;
use crate::catalog::{raw_task_views, RawTask, RawTaskView};
use crate::decimal::{decimal_text, format_u64};
use crate::entry::{raw_views, text_view, RawTimeEntry, RawTimeEntryView};

verus! {

/// A JSON document, `serde_json::Value`. The proofs see nothing inside it:
/// what they know of a document is what [`json_texts`] and [`json_lengths`]
/// name.
#[verifier::external_type_specification]
#[verifier::external_body]
pub struct ExValue(serde_json::Value);

/// The texts of a document: under each JSON pointer at which a string
/// stands, the characters of that string.
pub uninterp spec fn json_texts(doc: Value) -> Map<Seq<char>, Seq<char>>;

/// The arrays of a document: under each JSON pointer at which an array
/// stands, the number of its items.
pub uninterp spec fn json_lengths(doc: Value) -> Map<Seq<char>, nat>;

/// Looks up the string at a JSON pointer: `serde_json::Value::pointer`, then
/// `Value::as_str` on what it finds.
///
/// Trusted: a text comes back exactly where [`json_texts`] has the pointer,
/// and is the text it has there.
#[verifier::external_body]
fn text_at(doc: &Value, pointer: &str) -> (r: Option<String>)
    ensures
        r is Some <==> json_texts(*doc).contains_key(pointer@),
        r matches Some(text) ==> text@ == json_texts(*doc)[pointer@],
{
    match doc.pointer(pointer) {
        Some(found) => match found.as_str() {
            Some(text) => Some(text.to_string()),
            None => None,
        },
        None => None,
    }
}

/// Looks up the array at a JSON pointer and counts its items:
/// `serde_json::Value::pointer`, then `Value::as_array` on what it finds.
///
/// Trusted: a number comes back exactly where [`json_lengths`] has the
/// pointer, and is the number it has there.
#[verifier::external_body]
fn length_at(doc: &Value, pointer: &str) -> (r: Option<usize>)
    ensures
        r is Some <==> json_lengths(*doc).contains_key(pointer@),
        r matches Some(n) ==> n == json_lengths(*doc)[pointer@],
{
    match doc.pointer(pointer) {
        Some(found) => match found.as_array() {
            Some(items) => Some(items.len()),
            None => None,
        },
        None => None,
    }
}

/// The text at `pointer` in `doc`, or nothing where no string stands there.
pub open spec fn text_of(doc: Value, pointer: Seq<char>) -> Option<Seq<char>> {
    if json_texts(doc).contains_key(pointer) {
        Some(json_texts(doc)[pointer])
    } else {
        None
    }
}

/// The pointer to `field` of item `index` of the array at `list`.
pub open spec fn item_pointer(list: Seq<char>, index: nat, field: Seq<char>) -> Seq<char> {
    list + "/"@ + decimal_text(index) + field
}

/// Writes the pointer to a field of an item of an array.
fn pointer_to(list: &str, index: usize, field: &str) -> (r: String)
    ensures
        r@ == item_pointer(list@, index as nat, field@),
{
    let mut r = list.to_owned();
    r.append("/");
    r.append(format_u64(index as u64).as_str());
    r.append(field);
    r
}

/// The text of a field of an item of an array.
fn item_text(doc: &Value, list: &str, index: usize, field: &str) -> (r: Option<String>)
    ensures
        text_view(r) == text_of(*doc, item_pointer(list@, index as nat, field@)),
{
    let pointer = pointer_to(list, index, field);
    text_at(doc, pointer.as_str())
}

/// Item `index` of the time entries of a response.
pub open spec fn entry_at(doc: Value, index: nat) -> RawTimeEntryView {
    RawTimeEntryView {
        duration: text_of(doc, item_pointer("/data"@, index, "/duration"@)),
        task_id: text_of(doc, item_pointer("/data"@, index, "/task/id"@)),
    }
}

/// The time entries of a response: the items of its array `data`, or
/// nothing where it has no such array.
pub open spec fn entries_of(doc: Value) -> Option<Seq<RawTimeEntryView>> {
    if json_lengths(doc).contains_key("/data"@) {
        Some(Seq::new(json_lengths(doc)["/data"@], |i: int| entry_at(doc, i as nat)))
    } else {
        None
    }
}

/// Reads the time entries out of a response, as they stand: of each item of
/// `data`, the text at `duration` and the text at `id` under `task`.
pub fn time_entries(doc: &Value) -> (r: Option<Vec<RawTimeEntry>>)
    ensures
        match r {
            Some(raws) => entries_of(*doc) == Some(raw_views(raws@)),
            None => entries_of(*doc) is None,
        },
{
    let n = match length_at(doc, "/data") {
        Some(n) => n,
        None => {
            return None;
        },
    };
    let mut raws: Vec<RawTimeEntry> = Vec::new();
    let mut i: usize = 0;
    while i < n
        invariant
            i <= n,
            raws@.len() == i,
            forall|j: int| 0 <= j < i ==> (#[trigger] raws@[j])@ == entry_at(*doc, j as nat),
        decreases n - i,
    {
        let duration = item_text(doc, "/data", i, "/duration");
        let task_id = item_text(doc, "/data", i, "/task/id");
        raws.push(RawTimeEntry { duration, task_id });
        i = i + 1;
    }
    assert(raw_views(raws@) =~= entries_of(*doc)->Some_0);
    Some(raws)
}

/// Item `index` of the tasks of a response.
pub open spec fn task_at(doc: Value, index: nat) -> RawTaskView {
    RawTaskView {
        id: text_of(doc, item_pointer("/tasks"@, index, "/id"@)),
        custom_id: text_of(doc, item_pointer("/tasks"@, index, "/custom_id"@)),
        name: text_of(doc, item_pointer("/tasks"@, index, "/name"@)),
        list_id: text_of(doc, item_pointer("/tasks"@, index, "/list/id"@)),
    }
}

/// The tasks of a response: the items of its array `tasks`, or nothing
/// where it has no such array.
pub open spec fn tasks_of(doc: Value) -> Option<Seq<RawTaskView>> {
    if json_lengths(doc).contains_key("/tasks"@) {
        Some(Seq::new(json_lengths(doc)["/tasks"@], |i: int| task_at(doc, i as nat)))
    } else {
        None
    }
}

/// Reads the tasks out of a response, as they stand: of each item of
/// `tasks`, the texts at `id`, `custom_id` and `name`, and the text at `id`
/// under `list`.
pub fn tasks(doc: &Value) -> (r: Option<Vec<RawTask>>)
    ensures
        match r {
            Some(raws) => tasks_of(*doc) == Some(raw_task_views(raws@)),
            None => tasks_of(*doc) is None,
        },
{
    let n = match length_at(doc, "/tasks") {
        Some(n) => n,
        None => {
            return None;
        },
    };
    let mut raws: Vec<RawTask> = Vec::new();
    let mut i: usize = 0;
    while i < n
        invariant
            i <= n,
            raws@.len() == i,
            forall|j: int| 0 <= j < i ==> (#[trigger] raws@[j])@ == task_at(*doc, j as nat),
        decreases n - i,
    {
        let id = item_text(doc, "/tasks", i, "/id");
        let custom_id = item_text(doc, "/tasks", i, "/custom_id");
        let name = item_text(doc, "/tasks", i, "/name");
        let list_id = item_text(doc, "/tasks", i, "/list/id");
        raws.push(RawTask { id, custom_id, name, list_id });
        i = i + 1;
    }
    assert(raw_task_views(raws@) =~= tasks_of(*doc)->Some_0);
    Some(raws)
}

/// Reads the name of a list out of a response: the text at `name`.
pub fn list_name(doc: &Value) -> (r: Option<String>)
    ensures
        text_view(r) == text_of(*doc, "/name"@),
{
    text_at(doc, "/name")
}

} // verus!
