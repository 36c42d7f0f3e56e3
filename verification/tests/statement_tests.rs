use report_import::mapping::{process_csv_record, RowMapping};
use report_import::statement::{
    bind_values, get_query_template, schema_query, select_all_query, select_by_target_query,
};

fn names(items: &[&str]) -> Vec<String> {
    items.iter().map(|s| s.to_string()).collect()
}

fn bound(s: &str) -> Option<String> {
    Some(s.to_string())
}

#[test]
fn template_for_three_columns() {
    assert_eq!(
        get_query_template(&names(&["uuid", "category", "target_id"])),
        "INSERT INTO reports (uuid, category, target_id) VALUES (?, ?, ?)"
    );
}

#[test]
fn template_for_one_column() {
    assert_eq!(get_query_template(&names(&["uuid"])), "INSERT INTO reports (uuid) VALUES (?)");
}

#[test]
fn template_for_two_columns() {
    assert_eq!(get_query_template(&names(&["a", "b"])), "INSERT INTO reports (a, b) VALUES (?, ?)");
}

#[test]
fn template_for_no_columns_has_empty_lists() {
    assert_eq!(get_query_template(&names(&[])), "INSERT INTO reports () VALUES ()");
}

#[test]
fn template_keeps_column_order_and_text() {
    assert_eq!(
        get_query_template(&names(&["z", "a", "m m", ""])),
        "INSERT INTO reports (z, a, m m, ) VALUES (?, ?, ?, ?)"
    );
}

#[test]
fn template_has_one_placeholder_for_each_column() {
    for n in 0..40usize {
        let columns: Vec<String> = (0..n).map(|i| format!("c{i}")).collect();
        let text = get_query_template(&columns);
        assert_eq!(text.matches('?').count(), n);
        assert_eq!(text, format!(
            "INSERT INTO reports ({}) VALUES ({})",
            columns.join(", "),
            vec!["?"; n].join(", ")
        ));
    }
}

#[test]
fn template_is_deterministic() {
    let columns = names(&["a", "b"]);
    assert_eq!(get_query_template(&columns), get_query_template(&columns));
}

#[test]
fn bind_takes_values_in_column_order() {
    let mapping = process_csv_record(&names(&["b", "a"]), &names(&["2", "1"]));
    assert_eq!(bind_values(&names(&["a", "b"]), &mapping), vec![bound("1"), bound("2")]);
}

#[test]
fn bind_gives_null_for_a_column_the_row_lacks() {
    let mapping = process_csv_record(&names(&["a"]), &names(&["1"]));
    assert_eq!(bind_values(&names(&["a", "created_at"]), &mapping), vec![bound("1"), None]);
}

#[test]
fn bind_drops_a_header_that_is_no_column() {
    let mapping = process_csv_record(&names(&["a", "stray"]), &names(&["1", "dropped"]));
    let values = bind_values(&names(&["a"]), &mapping);
    assert_eq!(values, vec![bound("1")]);
    let without = process_csv_record(&names(&["a"]), &names(&["1"]));
    assert_eq!(values, bind_values(&names(&["a"]), &without));
}

#[test]
fn bind_gives_null_for_a_key_mapped_to_nothing() {
    let mapping = process_csv_record(&names(&["platform_uid"]), &names(&["onlyone"]));
    assert_eq!(
        bind_values(&names(&["platform_uid", "report_id", "target_id", "report_type"]), &mapping),
        vec![bound("onlyone"), None, None, None]
    );
}

#[test]
fn bind_takes_derived_keys() {
    let mapping = process_csv_record(&names(&["platform_uid"]), &names(&["r1-t9-type2-extra"]));
    assert_eq!(
        bind_values(&names(&["report_type", "report_id", "target_id"]), &mapping),
        vec![bound("type2"), bound("r1"), bound("t9")]
    );
}

#[test]
fn bind_derived_keys_without_the_identifier_column_in_the_list() {
    let mapping = process_csv_record(&names(&["platform_uid", "x"]), &names(&["a-b-c", "1"]));
    assert_eq!(bind_values(&names(&["x", "target_id"]), &mapping), vec![bound("1"), bound("b")]);
}

#[test]
fn bind_keeps_empty_text_apart_from_null() {
    let mapping = process_csv_record(&names(&["a"]), &names(&[""]));
    assert_eq!(bind_values(&names(&["a", "b"]), &mapping), vec![bound(""), None]);
}

#[test]
fn bind_for_no_columns_is_empty() {
    let mapping = process_csv_record(&names(&["a"]), &names(&["1"]));
    assert_eq!(bind_values(&names(&[]), &mapping), Vec::<Option<String>>::new());
}

#[test]
fn bind_repeats_a_column_named_twice() {
    let mut mapping = RowMapping::new();
    mapping.insert("a".to_string(), Some("1".to_string()));
    assert_eq!(bind_values(&names(&["a", "a"]), &mapping), vec![bound("1"), bound("1")]);
}

#[test]
fn query_texts() {
    assert_eq!(schema_query(), "PRAGMA table_info(reports)");
    assert_eq!(select_all_query(), "SELECT * FROM reports");
    assert_eq!(
        select_by_target_query(),
        "SELECT * FROM reports WHERE target_id = ? ORDER BY created_at DESC"
    );
}
