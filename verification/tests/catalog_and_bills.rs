use timesheet_report::billing::{bill_for, bill_line, bills, lists_to_bill, Bill};
use timesheet_report::catalog::{parse_task, RawTask, Task, TaskCatalog, Totals};
use timesheet_report::entry::TimeEntry;
use timesheet_report::error::{Field, ReportError, SchemaError};

fn raw_task(id: &str, custom_id: &str, name: &str, list_id: &str) -> RawTask {
    RawTask {
        id: Some(id.to_string()),
        custom_id: Some(custom_id.to_string()),
        name: Some(name.to_string()),
        list_id: Some(list_id.to_string()),
    }
}

fn entry(task_id: &str, duration_millis: i64) -> TimeEntry {
    TimeEntry { task_id: task_id.to_string(), duration_millis }
}

fn catalog_of(tasks: Vec<RawTask>) -> TaskCatalog {
    TaskCatalog::build(&Some(tasks)).unwrap()
}

fn durations(catalog: &TaskCatalog) -> Vec<(String, i64)> {
    (0..catalog.len()).map(|i| (catalog.get(i).id.clone(), catalog.get(i).duration_millis)).collect()
}

fn shape(bills: &Vec<Bill>) -> Vec<(String, Vec<(String, i64)>)> {
    bills
        .iter()
        .map(|b| {
            (
                b.list_id.clone(),
                b.lines.iter().map(|l| (l.description.clone(), l.duration_millis)).collect(),
            )
        })
        .collect()
}

#[test]
fn a_fetched_task_starts_without_time() {
    let task = parse_task(&raw_task("t1", "ACME-1", "Audit", "l1")).unwrap();
    assert_eq!(task.id, "t1");
    assert_eq!(task.custom_id, "ACME-1");
    assert_eq!(task.name, "Audit");
    assert_eq!(task.list_id, "l1");
    assert_eq!(task.duration_millis, 0);
}

#[test]
fn each_missing_task_field_has_its_error() {
    let full = raw_task("t1", "ACME-1", "Audit", "l1");
    let without_id = RawTask { id: None, ..full.clone() };
    let without_code = RawTask { custom_id: None, ..full.clone() };
    let without_name = RawTask { name: None, ..full.clone() };
    let without_list = RawTask { list_id: None, ..full.clone() };
    assert_eq!(parse_task(&without_id).err(), Some(SchemaError::Absent(Field::TaskId)));
    assert_eq!(parse_task(&without_code).err(), Some(SchemaError::Absent(Field::TaskCustomId)));
    assert_eq!(parse_task(&without_name).err(), Some(SchemaError::Absent(Field::TaskName)));
    assert_eq!(parse_task(&without_list).err(), Some(SchemaError::Absent(Field::TaskListId)));
}

#[test]
fn task_fields_are_looked_at_in_order() {
    let nothing = RawTask { id: None, custom_id: None, name: None, list_id: None };
    assert_eq!(parse_task(&nothing).err(), Some(SchemaError::Absent(Field::TaskId)));
    let only_id = RawTask { id: Some("t".to_string()), ..nothing.clone() };
    assert_eq!(parse_task(&only_id).err(), Some(SchemaError::Absent(Field::TaskCustomId)));
    let id_and_list = RawTask { list_id: Some("l".to_string()), ..only_id.clone() };
    assert_eq!(parse_task(&id_and_list).err(), Some(SchemaError::Absent(Field::TaskCustomId)));
    let without_name = RawTask { custom_id: Some("c".to_string()), ..only_id };
    assert_eq!(parse_task(&without_name).err(), Some(SchemaError::Absent(Field::TaskName)));
}

#[test]
fn a_new_catalog_is_empty() {
    let catalog = TaskCatalog::new();
    assert_eq!(catalog.len(), 0);
    assert_eq!(catalog.position(&"t1".to_string()), None);
    assert!(!catalog.contains(&"t1".to_string()));
    assert_eq!(bills(&catalog).len(), 0);
}

#[test]
fn the_catalog_keeps_the_order_of_the_batch() {
    let catalog = catalog_of(vec![
        raw_task("t2", "B", "Second", "l1"),
        raw_task("t1", "A", "First", "l2"),
        raw_task("t3", "C", "Third", "l1"),
    ]);
    assert_eq!(catalog.len(), 3);
    assert_eq!(catalog.get(0).id, "t2");
    assert_eq!(catalog.get(1).id, "t1");
    assert_eq!(catalog.get(2).id, "t3");
    assert_eq!(catalog.position(&"t1".to_string()), Some(1));
    assert_eq!(catalog.position(&"t3".to_string()), Some(2));
    assert_eq!(catalog.position(&"t4".to_string()), None);
    assert!(catalog.contains(&"t2".to_string()));
    assert!(!catalog.contains(&"T2".to_string()));
}

#[test]
fn a_repeated_identifier_keeps_its_place_and_takes_the_later_data() {
    let catalog = catalog_of(vec![
        raw_task("t1", "A", "First", "l1"),
        raw_task("t2", "B", "Second", "l1"),
        raw_task("t1", "A2", "First again", "l2"),
    ]);
    assert_eq!(catalog.len(), 2);
    assert_eq!(catalog.get(0).id, "t1");
    assert_eq!(catalog.get(0).custom_id, "A2");
    assert_eq!(catalog.get(0).name, "First again");
    assert_eq!(catalog.get(0).list_id, "l2");
    assert_eq!(catalog.get(1).id, "t2");
}

#[test]
fn inserting_replaces_or_appends() {
    let mut catalog = TaskCatalog::new();
    let task = |id: &str, name: &str, millis: i64| Task {
        id: id.to_string(),
        custom_id: "C".to_string(),
        name: name.to_string(),
        list_id: "l".to_string(),
        duration_millis: millis,
    };
    catalog.insert(task("a", "one", 1));
    catalog.insert(task("b", "two", 2));
    catalog.insert(task("a", "three", 3));
    assert_eq!(catalog.len(), 2);
    assert_eq!(catalog.get(0).name, "three");
    assert_eq!(catalog.get(0).duration_millis, 3);
    assert_eq!(catalog.get(1).name, "two");
}

#[test]
fn a_missing_task_list_is_a_schema_error() {
    assert_eq!(TaskCatalog::build(&None).err(), Some(SchemaError::Absent(Field::Tasks)));
    assert_eq!(TaskCatalog::build(&Some(vec![])).unwrap().len(), 0);
}

#[test]
fn the_first_bad_task_fails_the_catalog() {
    let tasks = vec![
        raw_task("t1", "A", "First", "l1"),
        RawTask { name: None, ..raw_task("t2", "B", "Second", "l1") },
        RawTask { id: None, ..raw_task("t3", "C", "Third", "l1") },
    ];
    assert_eq!(TaskCatalog::build(&Some(tasks)).err(), Some(SchemaError::Absent(Field::TaskName)));
}

#[test]
fn total_counts_every_entry_and_billable_only_known_tasks() {
    let mut catalog = catalog_of(vec![raw_task("t1", "A", "First", "l1"), raw_task("t2", "B", "Second", "l1")]);
    let entries = vec![entry("t1", 1_000), entry("other", 500), entry("t2", 30), entry("t1", 4), entry("", 7)];
    let totals = catalog.record(&entries).unwrap();
    assert_eq!(totals, Totals { total: 1_541, billable: 1_034 });
    assert!(totals.billable <= totals.total);
    assert_eq!(durations(&catalog), vec![("t1".to_string(), 1_004), ("t2".to_string(), 30)]);
}

#[test]
fn an_empty_batch_counts_nothing() {
    let mut catalog = catalog_of(vec![raw_task("t1", "A", "First", "l1")]);
    assert_eq!(catalog.record(&vec![]), Ok(Totals { total: 0, billable: 0 }));
    assert_eq!(durations(&catalog), vec![("t1".to_string(), 0)]);
    let mut empty = TaskCatalog::new();
    assert_eq!(empty.record(&vec![entry("t1", 5)]), Ok(Totals { total: 5, billable: 0 }));
}

#[test]
fn time_accumulates_across_months() {
    let mut catalog = catalog_of(vec![raw_task("T", "A", "First", "l1")]);
    let month_0 = catalog.record(&vec![entry("T", 3_600_000)]).unwrap();
    let month_1 = catalog.record(&vec![entry("T", 1_800_000)]).unwrap();
    let month_2 = catalog.record(&vec![entry("elsewhere", 99)]).unwrap();
    assert_eq!(month_0, Totals { total: 3_600_000, billable: 3_600_000 });
    assert_eq!(month_1, Totals { total: 1_800_000, billable: 1_800_000 });
    assert_eq!(month_2, Totals { total: 99, billable: 0 });
    assert_eq!(catalog.get(0).duration_millis, 5_400_000);
}

#[test]
fn counting_month_by_month_equals_counting_at_once() {
    let tasks = vec![raw_task("a", "A", "x", "l1"), raw_task("b", "B", "y", "l2")];
    let first = vec![entry("a", 10), entry("b", -3), entry("c", 8)];
    let second = vec![entry("b", 20), entry("a", 1)];
    let mut stepwise = catalog_of(tasks.clone());
    stepwise.record(&first).unwrap();
    stepwise.record(&second).unwrap();
    let mut at_once = catalog_of(tasks);
    let mut both = first.clone();
    both.extend(second.iter().cloned());
    at_once.record(&both).unwrap();
    assert_eq!(durations(&stepwise), durations(&at_once));
    assert_eq!(durations(&stepwise), vec![("a".to_string(), 11), ("b".to_string(), 17)]);
}

#[test]
fn negative_time_elsewhere_lets_billable_pass_total() {
    let mut catalog = catalog_of(vec![raw_task("t1", "A", "First", "l1")]);
    let totals = catalog.record(&vec![entry("t1", 100), entry("unknown", -40)]).unwrap();
    assert_eq!(totals, Totals { total: 60, billable: 100 });
}

#[test]
fn a_total_beyond_64_bits_is_an_overflow_and_changes_nothing() {
    let mut catalog = catalog_of(vec![raw_task("t1", "A", "First", "l1")]);
    catalog.record(&vec![entry("t1", 5)]).unwrap();
    let r = catalog.record(&vec![entry("t1", 7), entry("x", i64::MAX), entry("y", 1)]);
    assert_eq!(r, Err(ReportError::Overflow));
    assert_eq!(catalog.get(0).duration_millis, 5);
    let r = catalog.record(&vec![entry("t1", i64::MAX), entry("t1", 1), entry("y", -10)]);
    assert_eq!(r, Err(ReportError::Overflow));
    assert_eq!(catalog.get(0).duration_millis, 5);
}

#[test]
fn a_task_beyond_64_bits_is_an_overflow_and_changes_nothing() {
    let mut catalog = catalog_of(vec![raw_task("t1", "A", "First", "l1"), raw_task("t2", "B", "Second", "l1")]);
    catalog.record(&vec![entry("t2", i64::MAX - 1)]).unwrap();
    let r = catalog.record(&vec![entry("t1", 9), entry("t2", 2)]);
    assert_eq!(r, Err(ReportError::Overflow));
    assert_eq!(durations(&catalog), vec![("t1".to_string(), 0), ("t2".to_string(), i64::MAX - 1)]);
    assert_eq!(catalog.record(&vec![entry("t1", 9), entry("t2", 1)]), Ok(Totals { total: 10, billable: 10 }));
    assert_eq!(durations(&catalog), vec![("t1".to_string(), 9), ("t2".to_string(), i64::MAX)]);
}

#[test]
fn sums_may_pass_the_limit_on_their_way() {
    let mut catalog = catalog_of(vec![raw_task("t1", "A", "First", "l1")]);
    let totals = catalog.record(&vec![entry("t1", i64::MAX), entry("t1", i64::MAX), entry("t1", -i64::MAX)]);
    assert_eq!(totals, Ok(Totals { total: i64::MAX, billable: i64::MAX }));
    assert_eq!(catalog.get(0).duration_millis, i64::MAX);
}

#[test]
fn a_bill_line_names_code_and_task() {
    let task = Task {
        id: "t1".to_string(),
        custom_id: "ACME-7".to_string(),
        name: "Audit - phase 2".to_string(),
        list_id: "l1".to_string(),
        duration_millis: 5_400_000,
    };
    let line = bill_line(&task);
    assert_eq!(line.description, "ACME-7 - Audit - phase 2");
    assert_eq!(line.duration_millis, 5_400_000);
    assert_eq!(line.duration_millis as f64 / 3_600_000.0, 1.5);
}

#[test]
fn two_tasks_of_one_list_make_one_bill_of_two_lines() {
    let mut catalog = catalog_of(vec![raw_task("t1", "A", "First", "l1"), raw_task("t2", "B", "Second", "l1")]);
    catalog.record(&vec![entry("t2", 20), entry("t1", 10)]).unwrap();
    assert_eq!(
        shape(&bills(&catalog)),
        vec![("l1".to_string(), vec![("A - First".to_string(), 10), ("B - Second".to_string(), 20)])]
    );
}

#[test]
fn tasks_without_time_are_on_no_bill() {
    let mut catalog = catalog_of(vec![
        raw_task("t1", "A", "First", "l1"),
        raw_task("t2", "B", "Second", "l2"),
        raw_task("t3", "C", "Third", "l1"),
        raw_task("t4", "D", "Fourth", "l3"),
    ]);
    assert_eq!(bills(&catalog).len(), 0);
    catalog.record(&vec![entry("t3", 10), entry("t4", -5), entry("t2", 4), entry("t2", -4)]).unwrap();
    assert_eq!(shape(&bills(&catalog)), vec![("l1".to_string(), vec![("C - Third".to_string(), 10)])]);
    assert_eq!(lists_to_bill(&catalog), vec!["l1".to_string()]);
}

#[test]
fn bills_stand_in_the_order_of_their_first_billed_task() {
    let mut catalog = catalog_of(vec![
        raw_task("t1", "A", "First", "l2"),
        raw_task("t2", "B", "Second", "l1"),
        raw_task("t3", "C", "Third", "l2"),
        raw_task("t4", "D", "Fourth", "l3"),
        raw_task("t5", "E", "Fifth", "l1"),
    ]);
    catalog
        .record(&vec![entry("t5", 5), entry("t4", 4), entry("t3", 3), entry("t2", 2)])
        .unwrap();
    assert_eq!(
        shape(&bills(&catalog)),
        vec![
            ("l1".to_string(), vec![("B - Second".to_string(), 2), ("E - Fifth".to_string(), 5)]),
            ("l2".to_string(), vec![("C - Third".to_string(), 3)]),
            ("l3".to_string(), vec![("D - Fourth".to_string(), 4)]),
        ]
    );
    assert_eq!(lists_to_bill(&catalog), vec!["l1".to_string(), "l2".to_string(), "l3".to_string()]);
}

#[test]
fn the_bill_of_a_list_without_time_has_no_line() {
    let mut catalog = catalog_of(vec![raw_task("t1", "A", "First", "l1"), raw_task("t2", "B", "Second", "l2")]);
    catalog.record(&vec![entry("t1", 1)]).unwrap();
    let bill = bill_for(&catalog, &"l2".to_string());
    assert_eq!(bill.list_id, "l2");
    assert_eq!(bill.lines.len(), 0);
    let bill = bill_for(&catalog, &"l1".to_string());
    assert_eq!(bill.lines.len(), 1);
    assert_eq!(bill.lines[0].description, "A - First");
}
