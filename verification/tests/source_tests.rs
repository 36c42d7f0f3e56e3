use report_import::source::{read_table, CsvTable};

fn strings(items: &[&str]) -> Vec<String> {
    items.iter().map(|s| s.to_string()).collect()
}

fn table(text: &str) -> CsvTable {
    read_table(text.as_bytes()).expect("header line")
}

#[test]
fn table_has_header_and_rows() {
    let t = table("a,b,c\n1,2,3\n4,5,6\n");
    assert_eq!(t.headers, strings(&["a", "b", "c"]));
    assert_eq!(t.rows, vec![Ok(strings(&["1", "2", "3"])), Ok(strings(&["4", "5", "6"]))]);
}

#[test]
fn table_header_is_no_data_row() {
    let t = table("a,b\n");
    assert_eq!(t.headers, strings(&["a", "b"]));
    assert_eq!(t.rows.len(), 0);
}

#[test]
fn table_of_empty_source_has_no_header_names() {
    let t = table("");
    assert_eq!(t.headers, Vec::<String>::new());
    assert_eq!(t.rows.len(), 0);
}

#[test]
fn table_last_row_needs_no_line_end() {
    let t = table("a,b\n1,2");
    assert_eq!(t.rows, vec![Ok(strings(&["1", "2"]))]);
}

#[test]
fn table_keeps_empty_fields() {
    let t = table("a,b,c\n,,\nx,,z\n");
    assert_eq!(t.rows, vec![Ok(strings(&["", "", ""])), Ok(strings(&["x", "", "z"]))]);
}

#[test]
fn table_reads_quoted_fields() {
    let t = table("a,b\n\"1,5\",\"say \"\"hi\"\"\"\n\"line\nbreak\",2\n");
    assert_eq!(
        t.rows,
        vec![Ok(strings(&["1,5", "say \"hi\""])), Ok(strings(&["line\nbreak", "2"]))]
    );
}

#[test]
fn table_does_not_trim() {
    let t = table(" a , b\n 1 ,2 \n");
    assert_eq!(t.headers, strings(&[" a ", " b"]));
    assert_eq!(t.rows, vec![Ok(strings(&[" 1 ", "2 "]))]);
}

#[test]
fn table_row_with_wrong_field_count_is_an_error_in_its_place() {
    let t = table("a,b\n1,2\n3\n4,5\n6,7,8\n9,10\n");
    assert_eq!(t.rows.len(), 5);
    assert_eq!(t.rows[0], Ok(strings(&["1", "2"])));
    assert!(t.rows[1].is_err());
    assert_eq!(t.rows[2], Ok(strings(&["4", "5"])));
    assert!(t.rows[3].is_err());
    assert_eq!(t.rows[4], Ok(strings(&["9", "10"])));
}

#[test]
fn table_row_error_is_described() {
    let t = table("a,b\n3\n");
    match &t.rows[0] {
        Err(text) => assert!(!text.is_empty()),
        Ok(_) => panic!("a row with one field of two must be an error"),
    }
}

#[test]
fn table_row_that_is_not_utf8_is_an_error_in_its_place() {
    let mut bytes = b"a,b\n1,2\n".to_vec();
    bytes.extend_from_slice(&[0xff, 0xfe, b',', b'x', b'\n']);
    bytes.extend_from_slice(b"3,4\n");
    let t = read_table(&bytes).expect("header line");
    assert_eq!(t.rows.len(), 3);
    assert_eq!(t.rows[0], Ok(strings(&["1", "2"])));
    assert!(t.rows[1].is_err());
    assert_eq!(t.rows[2], Ok(strings(&["3", "4"])));
}

#[test]
fn table_header_that_is_not_utf8_is_the_error_of_the_source() {
    let mut bytes = vec![b'a', b',', 0xff, b'\n'];
    bytes.extend_from_slice(b"1,2\n");
    let result = read_table(&bytes);
    match result {
        Err(text) => assert!(!text.is_empty()),
        Ok(_) => panic!("a header line that is not UTF-8 must be refused"),
    }
}

#[test]
fn table_unbalanced_quote_takes_the_rest_of_the_source() {
    let t = table("a,b\n1,2\n\"3,4\n5,6\n");
    assert_eq!(t.rows.len(), 2);
    assert_eq!(t.rows[0], Ok(strings(&["1", "2"])));
    assert!(t.rows[1].is_err());
}

#[test]
fn table_reads_multibyte_text() {
    let t = table("名前,ville\n日本,Zürich\n");
    assert_eq!(t.headers, strings(&["名前", "ville"]));
    assert_eq!(t.rows, vec![Ok(strings(&["日本", "Zürich"]))]);
}

#[test]
fn table_is_what_the_csv_crate_reads() {
    let text = "h1,h2,h3\na,b,c\nshort\n\"q,1\",,z\n";
    let t = table(text);
    let mut reader = csv::ReaderBuilder::new().has_headers(true).from_reader(text.as_bytes());
    let headers: Vec<String> = reader.headers().unwrap().iter().map(String::from).collect();
    assert_eq!(t.headers, headers);
    let mut n = 0;
    for (row, expected) in t.rows.iter().zip(reader.records()) {
        match (row, expected) {
            (Ok(fields), Ok(record)) => {
                let record: Vec<String> = record.iter().map(String::from).collect();
                assert_eq!(fields, &record);
            }
            (Err(text), Err(error)) => assert_eq!(text, &error.to_string()),
            _ => panic!("row {n} differs"),
        }
        n += 1;
    }
    assert_eq!(n, 3);
    assert_eq!(t.rows.len(), 3);
}
