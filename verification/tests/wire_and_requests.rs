use serde_json::Value;
use timesheet_report::calendar::Window;
use timesheet_report::catalog::TaskCatalog;
use timesheet_report::decimal::{format_i64, format_two_digits, format_u64, parse_i64};
use timesheet_report::entry::parse_time_entries;
use timesheet_report::error::{Field, SchemaError};
use timesheet_report::request::{list_url, tasks_url, time_entries_url};
use timesheet_report::wire::{list_name, tasks, time_entries};

fn doc(text: &str) -> Value {
    serde_json::from_str(text).unwrap()
}

fn some(text: &str) -> Option<String> {
    Some(text.to_string())
}

#[test]
fn reads_time_entries_as_they_stand() {
    let response = doc(
        r#"{"data": [
            {"id": "e1", "duration": "3600000", "task": {"id": "t1", "name": "Audit"}},
            {"duration": "1800", "task": {"id": "t2"}, "user": {"id": 7}}
        ]}"#,
    );
    let raws = time_entries(&response).unwrap();
    assert_eq!(raws.len(), 2);
    assert_eq!(raws[0].duration, some("3600000"));
    assert_eq!(raws[0].task_id, some("t1"));
    assert_eq!(raws[1].duration, some("1800"));
    assert_eq!(raws[1].task_id, some("t2"));
}

#[test]
fn reads_more_than_ten_entries_in_order() {
    let items: Vec<String> = (0..25)
        .map(|i| format!(r#"{{"duration": "{}", "task": {{"id": "t{}"}}}}"#, i * 10, i))
        .collect();
    let response = doc(&format!(r#"{{"data": [{}]}}"#, items.join(",")));
    let raws = time_entries(&response).unwrap();
    assert_eq!(raws.len(), 25);
    for (i, raw) in raws.iter().enumerate() {
        assert_eq!(raw.duration, Some((i * 10).to_string()));
        assert_eq!(raw.task_id, Some(format!("t{}", i)));
    }
}

#[test]
fn what_is_missing_or_no_text_is_absent() {
    let response = doc(
        r#"{"data": [
            {"duration": 3600000, "task": {"id": "t1"}},
            {"duration": "5", "task": {"id": 12}},
            {"duration": "5", "task": "t1"},
            {"duration": "5", "task": null},
            {"duration": null, "task": {"id": "t1"}},
            {"task": {"id": "t1"}},
            {"duration": "5", "task": ["t1"]},
            {"duration": ["5"], "task": {"ID": "t1"}},
            ["5", "t1"],
            "5",
            null,
            {}
        ]}"#,
    );
    let raws = time_entries(&response).unwrap();
    let read: Vec<(Option<String>, Option<String>)> =
        raws.iter().map(|r| (r.duration.clone(), r.task_id.clone())).collect();
    assert_eq!(
        read,
        vec![
            (None, some("t1")),
            (some("5"), None),
            (some("5"), None),
            (some("5"), None),
            (None, some("t1")),
            (None, some("t1")),
            (some("5"), None),
            (None, None),
            (None, None),
            (None, None),
            (None, None),
            (None, None),
        ]
    );
}

#[test]
fn a_response_without_an_array_of_entries_has_none() {
    assert!(time_entries(&doc(r#"{}"#)).is_none());
    assert!(time_entries(&doc(r#"{"data": null}"#)).is_none());
    assert!(time_entries(&doc(r#"{"data": {"0": {"duration": "1"}}}"#)).is_none());
    assert!(time_entries(&doc(r#"{"data": "[]"}"#)).is_none());
    assert!(time_entries(&doc(r#"{"Data": []}"#)).is_none());
    assert!(time_entries(&doc(r#"[{"duration": "1"}]"#)).is_none());
    assert!(time_entries(&doc(r#""data""#)).is_none());
    assert!(time_entries(&doc(r#"null"#)).is_none());
    assert_eq!(time_entries(&doc(r#"{"data": []}"#)).unwrap().len(), 0);
}

#[test]
fn texts_keep_their_characters() {
    let response = doc(r#"{"data": [{"duration": " 5\n", "task": {"id": "t/1~éà\"x"}}]}"#);
    let raws = time_entries(&response).unwrap();
    assert_eq!(raws[0].duration, some(" 5\n"));
    assert_eq!(raws[0].task_id, some("t/1~éà\"x"));
}

#[test]
fn reads_tasks_as_they_stand() {
    let response = doc(
        r#"{"tasks": [
            {"id": "t1", "custom_id": "ACME-1", "name": "Audit", "list": {"id": "l1", "name": "Acme"}},
            {"id": "t2", "custom_id": null, "name": "Review", "list": {"id": "l2"}},
            {"id": "t3", "custom_id": "ACME-3", "list": {}},
            {"id": 4, "custom_id": "ACME-4", "name": "Plan", "list": "l1"}
        ], "last_page": true}"#,
    );
    let raws = tasks(&response).unwrap();
    assert_eq!(raws.len(), 4);
    assert_eq!(
        (raws[0].id.clone(), raws[0].custom_id.clone(), raws[0].name.clone(), raws[0].list_id.clone()),
        (some("t1"), some("ACME-1"), some("Audit"), some("l1"))
    );
    assert_eq!(
        (raws[1].id.clone(), raws[1].custom_id.clone(), raws[1].name.clone(), raws[1].list_id.clone()),
        (some("t2"), None, some("Review"), some("l2"))
    );
    assert_eq!(
        (raws[2].id.clone(), raws[2].custom_id.clone(), raws[2].name.clone(), raws[2].list_id.clone()),
        (some("t3"), some("ACME-3"), None, None)
    );
    assert_eq!(
        (raws[3].id.clone(), raws[3].custom_id.clone(), raws[3].name.clone(), raws[3].list_id.clone()),
        (None, some("ACME-4"), some("Plan"), None)
    );
}

#[test]
fn a_response_without_an_array_of_tasks_has_none() {
    assert!(tasks(&doc(r#"{"data": []}"#)).is_none());
    assert!(tasks(&doc(r#"{"tasks": {}}"#)).is_none());
    assert!(tasks(&doc(r#"[]"#)).is_none());
    assert_eq!(tasks(&doc(r#"{"tasks": []}"#)).unwrap().len(), 0);
}

#[test]
fn fetched_records_go_through_to_catalog_and_entries() {
    let response = doc(
        r#"{"tasks": [
            {"id": "t1", "custom_id": "ACME-1", "name": "Audit", "list": {"id": "l1"}},
            {"id": "t2", "custom_id": "ACME-2", "name": "Review", "list": {"id": "l1"}}
        ]}"#,
    );
    let mut catalog = TaskCatalog::build(&tasks(&response)).unwrap();
    let response = doc(r#"{"data": [{"duration": "7200000", "task": {"id": "t2"}}]}"#);
    let entries = parse_time_entries(&time_entries(&response)).unwrap();
    let totals = catalog.record(&entries).unwrap();
    assert_eq!(totals.billable, 7_200_000);
    assert_eq!(catalog.get(1).duration_millis, 7_200_000);
    let broken = doc(r#"{"tasks": [{"id": "t1", "custom_id": "A", "name": "Audit", "list": {}}]}"#);
    assert_eq!(
        TaskCatalog::build(&tasks(&broken)).err(),
        Some(SchemaError::Absent(Field::TaskListId))
    );
    assert_eq!(
        TaskCatalog::build(&tasks(&doc("{}"))).err(),
        Some(SchemaError::Absent(Field::Tasks))
    );
    assert_eq!(
        parse_time_entries(&time_entries(&doc("{}"))).err(),
        Some(SchemaError::Absent(Field::Data))
    );
}

#[test]
fn reads_the_name_of_a_list() {
    assert_eq!(list_name(&doc(r#"{"id": "l1", "name": "Acme Corp"}"#)), some("Acme Corp"));
    assert_eq!(list_name(&doc(r#"{"id": "l1", "name": ""}"#)), some(""));
    assert_eq!(list_name(&doc(r#"{"id": "l1"}"#)), None);
    assert_eq!(list_name(&doc(r#"{"name": 5}"#)), None);
    assert_eq!(list_name(&doc(r#"{"name": {"name": "x"}}"#)), None);
    assert_eq!(list_name(&doc(r#"["name"]"#)), None);
    assert_eq!(list_name(&doc(r#""name""#)), None);
}

#[test]
fn writes_numbers_as_the_standard_library_does() {
    for n in [0u64, 1, 9, 10, 11, 99, 100, 101, 1_000_000, 1_709_251_200_000, u64::MAX, u64::MAX - 1] {
        assert_eq!(format_u64(n), n.to_string());
    }
    for n in [0i64, 1, -1, 9, -9, 10, -10, 1_709_251_200_000, -86_400_000, i64::MAX, i64::MIN, i64::MIN + 1] {
        assert_eq!(format_i64(n), n.to_string());
    }
}

#[test]
fn what_is_written_is_read_back() {
    for n in [0i64, 7, -7, 7_200_000, -3_599, i64::MAX, i64::MIN] {
        assert_eq!(parse_i64(&format_i64(n)), Some(n));
    }
}

#[test]
fn days_of_the_month_are_written_in_two_digits() {
    assert_eq!(format_two_digits(1), "01");
    assert_eq!(format_two_digits(9), "09");
    assert_eq!(format_two_digits(10), "10");
    assert_eq!(format_two_digits(31), "31");
    assert_eq!(format_two_digits(0), "00");
    assert_eq!(format_two_digits(100), "100");
    assert_eq!(format_two_digits(u32::MAX), "4294967295");
}

#[test]
fn writes_the_address_of_the_tasks() {
    assert_eq!(
        tasks_url("12345"),
        "https://api.clickup.com/api/v2/team/12345/task?include_closed=1&custom_fields%5B%5D=%5B%7B%22field_id%22%3A%20%22e2407157-67b9-4edc-964b-19550176c7ee%22%2C%22operator%22%3A%20%22%3D%22%2C%20%22value%22%3A%20%220%22%7D%5D"
    );
}

#[test]
fn writes_the_address_of_the_time_entries() {
    let window = Window { start: 1_709_251_200_000, end: 1_711_929_600_000 };
    assert_eq!(
        time_entries_url("12345", &window),
        "https://api.clickup.com/api/v2/team/12345/time_entries?start_date=1709251200000&end_date=1711929600000"
    );
    let window = Window { start: -86_400_000, end: 0 };
    assert_eq!(
        time_entries_url("", &window),
        "https://api.clickup.com/api/v2/team//time_entries?start_date=-86400000&end_date=0"
    );
}

#[test]
fn writes_the_address_of_a_list() {
    assert_eq!(list_url("901"), "https://api.clickup.com/api/v2/list/901");
    assert_eq!(list_url(""), "https://api.clickup.com/api/v2/list/");
}
