use report_import::mapping::{process_csv_record, RowMapping};

fn strings(items: &[&str]) -> Vec<String> {
    items.iter().map(|s| s.to_string()).collect()
}

fn map_row(headers: &[&str], record: &[&str]) -> RowMapping {
    process_csv_record(&strings(headers), &strings(record))
}

fn value(s: &str) -> Option<Option<String>> {
    Some(Some(s.to_string()))
}

#[test]
fn mapping_pairs_headers_with_values_by_position() {
    let m = map_row(&["a", "b", "c"], &["1", "2", "3"]);
    assert_eq!(m.get("a"), value("1"));
    assert_eq!(m.get("b"), value("2"));
    assert_eq!(m.get("c"), value("3"));
    assert_eq!(m.get("d"), None);
    assert_eq!(m.len(), 3);
}

#[test]
fn mapping_keeps_empty_string_as_a_value() {
    let m = map_row(&["a", "b"], &["", "x"]);
    assert_eq!(m.get("a"), value(""));
    assert_eq!(m.get("b"), value("x"));
}

#[test]
fn mapping_is_bounded_by_the_shorter_record() {
    let m = map_row(&["a", "b", "c"], &["1"]);
    assert_eq!(m.get("a"), value("1"));
    assert_eq!(m.get("b"), None);
    assert_eq!(m.get("c"), None);
    assert_eq!(m.len(), 1);
}

#[test]
fn mapping_is_bounded_by_the_shorter_header_line() {
    let m = map_row(&["a"], &["1", "2", "3"]);
    assert_eq!(m.get("a"), value("1"));
    assert_eq!(m.len(), 1);
}

#[test]
fn mapping_of_nothing_is_empty() {
    let m = map_row(&[], &[]);
    assert_eq!(m.len(), 0);
    assert_eq!(m.get("platform_uid"), None);
    assert_eq!(m.get("report_id"), None);
}

#[test]
fn mapping_later_duplicate_header_wins() {
    let m = map_row(&["a", "b", "a"], &["1", "2", "3"]);
    assert_eq!(m.get("a"), value("3"));
    assert_eq!(m.get("b"), value("2"));
    assert_eq!(m.len(), 2);
}

#[test]
fn mapping_derives_keys_from_platform_uid() {
    let m = map_row(&["uuid", "platform_uid"], &["u1", "r1-t9-type2-extra"]);
    assert_eq!(m.get("uuid"), value("u1"));
    assert_eq!(m.get("platform_uid"), value("r1-t9-type2-extra"));
    assert_eq!(m.get("report_id"), value("r1"));
    assert_eq!(m.get("target_id"), value("t9"));
    assert_eq!(m.get("report_type"), value("type2"));
    assert_eq!(m.len(), 5);
}

#[test]
fn mapping_malformed_platform_uid_nulls_all_three_keys() {
    let m = map_row(&["platform_uid"], &["onlyone"]);
    assert_eq!(m.get("platform_uid"), value("onlyone"));
    assert_eq!(m.get("report_id"), Some(None));
    assert_eq!(m.get("target_id"), Some(None));
    assert_eq!(m.get("report_type"), Some(None));
    assert_eq!(m.len(), 4);
}

#[test]
fn mapping_empty_platform_uid_adds_no_keys() {
    let m = map_row(&["platform_uid", "x"], &["", "1"]);
    assert_eq!(m.get("platform_uid"), value(""));
    assert_eq!(m.get("report_id"), None);
    assert_eq!(m.get("target_id"), None);
    assert_eq!(m.get("report_type"), None);
    assert_eq!(m.len(), 2);
}

#[test]
fn mapping_absent_platform_uid_adds_no_keys() {
    let m = map_row(&["uuid"], &["a-b-c"]);
    assert_eq!(m.get("report_id"), None);
    assert_eq!(m.get("target_id"), None);
    assert_eq!(m.get("report_type"), None);
    assert_eq!(m.len(), 1);
}

#[test]
fn mapping_platform_uid_beyond_the_record_adds_no_keys() {
    let m = map_row(&["uuid", "platform_uid"], &["a-b-c"]);
    assert_eq!(m.get("platform_uid"), None);
    assert_eq!(m.get("report_id"), None);
}

#[test]
fn mapping_derived_keys_overwrite_csv_columns() {
    let m = map_row(
        &["report_id", "platform_uid", "target_id", "report_type"],
        &["from-csv", "a-b-c", "from-csv", "from-csv"],
    );
    assert_eq!(m.get("report_id"), value("a"));
    assert_eq!(m.get("target_id"), value("b"));
    assert_eq!(m.get("report_type"), value("c"));
    assert_eq!(m.len(), 4);
}

#[test]
fn mapping_malformed_platform_uid_overwrites_csv_columns_with_null() {
    let m = map_row(&["report_id", "platform_uid"], &["from-csv", "a-b"]);
    assert_eq!(m.get("report_id"), Some(None));
    assert_eq!(m.get("target_id"), Some(None));
    assert_eq!(m.get("report_type"), Some(None));
}

#[test]
fn mapping_empty_platform_uid_leaves_csv_columns() {
    let m = map_row(&["report_id", "platform_uid"], &["from-csv", ""]);
    assert_eq!(m.get("report_id"), value("from-csv"));
    assert_eq!(m.get("target_id"), None);
}

#[test]
fn mapping_last_platform_uid_column_is_the_one_decomposed() {
    let m = map_row(&["platform_uid", "platform_uid"], &["a-b-c", "x-y-z"]);
    assert_eq!(m.get("report_id"), value("x"));
    assert_eq!(m.get("target_id"), value("y"));
    assert_eq!(m.get("report_type"), value("z"));
}

#[test]
fn row_mapping_starts_empty() {
    let m = RowMapping::new();
    assert_eq!(m.len(), 0);
    assert_eq!(m.get("a"), None);
}

#[test]
fn row_mapping_insert_then_get() {
    let mut m = RowMapping::new();
    m.insert("a".to_string(), Some("1".to_string()));
    m.insert("b".to_string(), None);
    assert_eq!(m.get("a"), value("1"));
    assert_eq!(m.get("b"), Some(None));
    assert_eq!(m.get("c"), None);
    assert_eq!(m.len(), 2);
}

#[test]
fn row_mapping_insert_replaces_the_value() {
    let mut m = RowMapping::new();
    m.insert("a".to_string(), Some("1".to_string()));
    m.insert("b".to_string(), Some("2".to_string()));
    m.insert("a".to_string(), Some("3".to_string()));
    assert_eq!(m.get("a"), value("3"));
    assert_eq!(m.get("b"), value("2"));
    assert_eq!(m.len(), 2);
    m.insert("a".to_string(), None);
    assert_eq!(m.get("a"), Some(None));
    assert_eq!(m.len(), 2);
}

#[test]
fn row_mapping_names_are_case_sensitive() {
    let mut m = RowMapping::new();
    m.insert("a".to_string(), Some("1".to_string()));
    assert_eq!(m.get("A"), None);
    assert_eq!(m.get(""), None);
}
