use hello_user::store::EnvironmentDoc;

const FULL: &str = r#"{
  "todo_list": ["buy milk", "call home", 7, "water plants"],
  "running_schedule": [
    {"date": "03/10/2025", "am": "10k easy"},
    {"date": "03/11/2025", "pm": "strides"},
    "junk"
  ],
  "running_totals": [10, 20.5, 300],
  "color_scheme": "dark",
  "nested": {"a": [1, 2, true, null], "b": "text"}
}"#;

#[test]
fn loads_fields_and_skips_items_it_cannot_read() {
    let (doc, logs) = EnvironmentDoc::from_text(FULL);
    assert_eq!(doc.todo_list, vec!["buy milk", "call home", "water plants"]);
    assert_eq!(doc.running_schedule.len(), 2);
    assert_eq!(doc.running_schedule[0].date, "03/10/2025");
    assert_eq!(doc.running_schedule[0].am.as_deref(), Some("10k easy"));
    assert_eq!(doc.running_schedule[0].pm, None);
    assert_eq!(doc.running_schedule[1].pm.as_deref(), Some("strides"));
    assert_eq!(doc.totals.week, 10_000);
    assert_eq!(doc.totals.month, 20_500);
    assert_eq!(doc.totals.year, 300_000);
    assert_eq!(doc.extras.len(), 2);
    assert_eq!(doc.extras[0].0, "color_scheme");
    assert_eq!(doc.extras[1].0, "nested");
    assert!(logs.is_empty());
}

#[test]
fn save_after_load_is_a_fixed_point() {
    let (doc1, _) = EnvironmentDoc::from_text(FULL);
    let text2 = doc1.to_text();
    let (doc2, logs2) = EnvironmentDoc::from_text(&text2);
    assert!(logs2.is_empty());
    assert_eq!(doc2.todo_list, doc1.todo_list);
    assert_eq!(doc2.running_schedule.len(), doc1.running_schedule.len());
    assert_eq!(doc2.running_schedule[0].date, doc1.running_schedule[0].date);
    assert_eq!(doc2.running_schedule[0].am, doc1.running_schedule[0].am);
    assert_eq!(doc2.running_schedule[1].pm, doc1.running_schedule[1].pm);
    assert_eq!(doc2.totals, doc1.totals);
    assert_eq!(doc2.extras.len(), doc1.extras.len());
    // Saving once more writes the very same text: the cycle has settled.
    let text3 = doc2.to_text();
    assert_eq!(text3, text2);
}

#[test]
fn unknown_fields_survive_a_load_save_cycle() {
    let (doc, _) = EnvironmentDoc::from_text(FULL);
    let saved = doc.to_text();
    assert!(saved.contains("color_scheme"));
    assert!(saved.contains("dark"));
    assert!(saved.contains("nested"));
}

#[test]
fn one_bad_totals_slot_falls_back_to_zero_with_one_anomaly() {
    let text = r#"{"todo_list": [], "running_schedule": [], "running_totals": ["a", 2, 3]}"#;
    let (doc, logs) = EnvironmentDoc::from_text(text);
    assert_eq!(doc.totals.week, 0);
    assert_eq!(doc.totals.month, 2_000);
    assert_eq!(doc.totals.year, 3_000);
    assert_eq!(logs.len(), 1);
    assert!(logs[0].contains("slot 0"));
}

#[test]
fn short_totals_array_reports_each_missing_slot() {
    let text = r#"{"todo_list": [], "running_schedule": [], "running_totals": [1.5]}"#;
    let (doc, logs) = EnvironmentDoc::from_text(text);
    assert_eq!(doc.totals.week, 1_500);
    assert_eq!(doc.totals.month, 0);
    assert_eq!(doc.totals.year, 0);
    assert_eq!(logs.len(), 2);
    assert!(logs[0].contains("slot 1"));
    assert!(logs[1].contains("slot 2"));
}

#[test]
fn empty_object_yields_empty_document_and_three_anomalies() {
    let (doc, logs) = EnvironmentDoc::from_text("{}");
    assert!(doc.todo_list.is_empty());
    assert!(doc.running_schedule.is_empty());
    assert_eq!(doc.totals.week, 0);
    assert_eq!(doc.totals.month, 0);
    assert_eq!(doc.totals.year, 0);
    assert!(doc.extras.is_empty());
    assert_eq!(logs.len(), 3);
}

#[test]
fn unparsable_text_yields_empty_document_and_is_not_fatal() {
    let (doc, logs) = EnvironmentDoc::from_text("this is not json");
    assert!(doc.todo_list.is_empty());
    assert!(doc.running_schedule.is_empty());
    assert_eq!(doc.totals.week, 0);
    assert_eq!(logs.len(), 4);
    assert!(logs[0].contains("could not be parsed"));
}

#[test]
fn totals_written_as_decimals_read_back_exactly() {
    let text = r#"{"todo_list": [], "running_schedule": [], "running_totals": [0.001, -1.5, 12345.678]}"#;
    let (doc, logs) = EnvironmentDoc::from_text(text);
    assert!(logs.is_empty());
    assert_eq!(doc.totals.week, 1);
    assert_eq!(doc.totals.month, -1_500);
    assert_eq!(doc.totals.year, 12_345_678);
    let again = doc.to_text();
    let (doc2, logs2) = EnvironmentDoc::from_text(&again);
    assert!(logs2.is_empty());
    assert_eq!(doc2.totals, doc.totals);
}
