use eisenhower_matrix::clock::{created_dt_label, format_created_dt, ClockReading};
use eisenhower_matrix::storage::{
    build_data, collect_entries, collect_entries_now, entry_labels, find_existing_created_dt, indexed_items,
    item_columns, items_from_texts, EisenhowerData, EisenhowerDataCompat, EisenhowerItem, Entry,
};

fn item(checked: bool, text: &str, index: usize, dt: Option<&str>) -> EisenhowerItem {
    EisenhowerItem {
        checked,
        text: text.to_string(),
        index,
        created_dt: dt.map(|s| s.to_string()),
    }
}

fn entry(checked: bool, text: &str, dt: Option<&str>) -> Entry {
    (checked, text.to_string(), dt.map(|s| s.to_string()))
}

#[test]
fn indexed_items_number_rows_by_position() {
    let entries = vec![entry(true, "a", Some("2024-01-15T10:30:45Z")), entry(false, "b", None)];
    let items = indexed_items(&entries);
    assert_eq!(
        items,
        vec![item(true, "a", 0, Some("2024-01-15T10:30:45Z")), item(false, "b", 1, None)]
    );
}

#[test]
fn build_data_keeps_quadrants_apart() {
    let doit = vec![entry(false, "d", None)];
    let plan = vec![entry(true, "p1", None), entry(false, "p2", None)];
    let data = build_data(&doit, &plan, &[], &[entry(false, "x", None)]);
    assert_eq!(data.doit_items, vec![item(false, "d", 0, None)]);
    assert_eq!(data.plan_items, vec![item(true, "p1", 0, None), item(false, "p2", 1, None)]);
    assert!(data.delegate_items.is_empty());
    assert_eq!(data.delete_items, vec![item(false, "x", 0, None)]);
}

#[test]
fn old_layout_becomes_unchecked_items() {
    let texts = vec!["a".to_string(), "b".to_string()];
    assert_eq!(items_from_texts(&texts), vec![item(false, "a", 0, None), item(false, "b", 1, None)]);
    let data = EisenhowerDataCompat::Old {
        doit_items: texts.clone(),
        plan_items: vec![],
        delegate_items: vec!["c".to_string()],
        delete_items: vec![],
    }
    .into_data();
    assert_eq!(data.doit_items, vec![item(false, "a", 0, None), item(false, "b", 1, None)]);
    assert!(data.plan_items.is_empty());
    assert_eq!(data.delegate_items, vec![item(false, "c", 0, None)]);
    assert!(data.delete_items.is_empty());
}

#[test]
fn new_layout_is_taken_as_it_is() {
    let data = EisenhowerData {
        doit_items: vec![item(true, "a", 7, Some("x"))],
        plan_items: vec![],
        delegate_items: vec![],
        delete_items: vec![],
    };
    assert_eq!(EisenhowerDataCompat::New(data.clone()).into_data(), data);
}

#[test]
fn find_takes_the_first_item_with_the_text() {
    let existing = vec![
        item(false, "a", 0, Some("t1")),
        item(false, "b", 1, None),
        item(false, "a", 2, Some("t2")),
    ];
    assert_eq!(find_existing_created_dt(&existing, &"a".to_string()), Some(Some("t1".to_string())));
    assert_eq!(find_existing_created_dt(&existing, &"b".to_string()), Some(None));
    assert_eq!(find_existing_created_dt(&existing, &"c".to_string()), None);
    assert_eq!(find_existing_created_dt(&[], &"a".to_string()), None);
}

#[test]
fn collect_drops_blank_rows_and_keeps_recorded_times() {
    let texts: Vec<String> = ["a", "  ", "b", "c"].iter().map(|s| s.to_string()).collect();
    let checked = vec![true, true, false];
    let existing = vec![item(false, "a", 0, Some("2020-01-01T00:00:00Z")), item(false, "b", 1, None)];
    let now = ClockReading::SinceEpoch { secs: 1_705_314_645, nanos: 42 };
    let rows = collect_entries(&texts, &checked, &existing, &now);
    assert_eq!(
        rows,
        vec![
            entry(true, "a", Some("2020-01-01T00:00:00Z")),
            entry(false, "b", Some("2024-01-15T10:30:45Z")),
            entry(false, "c", Some("2024-01-15T10:30:45Z")),
        ]
    );
}

#[test]
fn collect_now_stamps_new_rows_with_the_clock() {
    let texts: Vec<String> = ["a", "b"].iter().map(|s| s.to_string()).collect();
    let existing = vec![item(false, "a", 0, Some("2020-01-01T00:00:00Z"))];
    let (rows, now) = collect_entries_now(&texts, &vec![], &existing);
    assert_eq!(rows[0], entry(false, "a", Some("2020-01-01T00:00:00Z")));
    let stamp = rows[1].2.as_ref().expect("a new row gets the current time");
    assert_eq!(stamp.len(), 20);
    assert!(stamp.ends_with('Z'));
    assert_eq!(rows[1].2, eisenhower_matrix::clock::stamp_at(&now));
    assert!(chrono::DateTime::parse_from_rfc3339(stamp).is_ok());
}

#[test]
fn saving_twice_stores_the_same_rows() {
    let texts: Vec<String> = ["a", " ", "b"].iter().map(|s| s.to_string()).collect();
    let checked = vec![true];
    let first = collect_entries(&texts, &checked, &[], &ClockReading::SinceEpoch { secs: 0, nanos: 0 });
    let stored = indexed_items(&first);
    let second =
        collect_entries(&texts, &checked, &stored, &ClockReading::SinceEpoch { secs: 999, nanos: 0 });
    assert_eq!(first, second);
}

#[test]
fn collect_of_only_blank_rows_is_empty() {
    let texts = vec![" ".to_string(), "".to_string()];
    let now = ClockReading::SinceEpoch { secs: 0, nanos: 0 };
    assert!(collect_entries(&texts, &vec![true, true], &[], &now).is_empty());
}

#[test]
fn format_created_dt_cases() {
    assert_eq!(format_created_dt(&None), "");
    assert_eq!(format_created_dt(&Some("2024-01-15T10:30:45Z".to_string())), "2024-01-15 10:30");
    assert_eq!(
        format_created_dt(&Some("2024-01-15T10:30:45.123456789Z".to_string())),
        "2024-01-15 10:30"
    );
    assert_eq!(
        format_created_dt(&Some("2024-12-31T23:59:00+09:00".to_string())),
        "2024-12-31 23:59"
    );
    assert_eq!(format_created_dt(&Some("yesterday".to_string())), "yesterday");
}

#[test]
fn created_dt_label_prefers_reformatted() {
    let original = "2024-01-15T10:30:45Z".to_string();
    assert_eq!(created_dt_label(&original, Some("2024-01-15 10:30".to_string())), "2024-01-15 10:30");
    assert_eq!(created_dt_label(&original, None), original);
}

#[test]
fn columns_show_texts_marks_and_labels() {
    let items = vec![item(true, "a", 0, Some("2024-01-15T10:30:45Z")), item(false, "b", 1, None)];
    let (texts, marks, labels) = item_columns(&items);
    assert_eq!(texts, vec!["a".to_string(), "b".to_string()]);
    assert_eq!(marks, vec![true, false]);
    assert_eq!(labels, vec!["2024-01-15 10:30".to_string(), String::new()]);
}

#[test]
fn stored_rows_read_back() {
    let entries = vec![entry(true, "a", Some("2024-01-15T10:30:45Z")), entry(false, "b", Some("junk"))];
    let data = build_data(&entries, &[], &[], &[]);
    let (texts, marks, labels) = item_columns(&data.doit_items);
    assert_eq!(texts, vec!["a".to_string(), "b".to_string()]);
    assert_eq!(marks, vec![true, false]);
    assert_eq!(labels, entry_labels(&entries));
    assert_eq!(labels, vec!["2024-01-15 10:30".to_string(), "junk".to_string()]);
}

#[test]
fn load_then_save_gives_back_the_items() {
    let items = vec![
        item(true, "a", 0, Some("2024-01-15T10:30:45Z")),
        item(false, "b", 1, Some("2023-05-01T08:00:00Z")),
    ];
    let (texts, marks, _) = item_columns(&items);
    let now = ClockReading::SinceEpoch { secs: 5, nanos: 0 };
    let rows = collect_entries(&texts, &marks, &items, &now);
    assert_eq!(indexed_items(&rows), items);
}
