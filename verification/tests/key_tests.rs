use report_import::key::decompose_uid;

fn keys(uid: &str) -> (Option<String>, Option<String>, Option<String>) {
    decompose_uid(Some(&uid.to_string()))
}

fn some(s: &str) -> Option<String> {
    Some(s.to_string())
}

#[test]
fn decompose_takes_first_three_segments() {
    assert_eq!(keys("r1-t9-type2"), (some("r1"), some("t9"), some("type2")));
}

#[test]
fn decompose_ignores_trailing_segments() {
    assert_eq!(keys("r1-t9-type2-extra"), (some("r1"), some("t9"), some("type2")));
    assert_eq!(keys("r1-t9-type2-extra-more-"), (some("r1"), some("t9"), some("type2")));
}

#[test]
fn decompose_single_segment_yields_nothing() {
    assert_eq!(keys("onlyone"), (None, None, None));
}

#[test]
fn decompose_two_segments_yield_nothing() {
    assert_eq!(keys("a-b"), (None, None, None));
}

#[test]
fn decompose_absent_identifier_yields_nothing() {
    assert_eq!(decompose_uid(None), (None, None, None));
}

#[test]
fn decompose_empty_identifier_yields_nothing() {
    assert_eq!(keys(""), (None, None, None));
}

#[test]
fn decompose_keeps_empty_segments() {
    assert_eq!(keys("--"), (some(""), some(""), some("")));
    assert_eq!(keys("a--c"), (some("a"), some(""), some("c")));
    assert_eq!(keys("-b-"), (some(""), some("b"), some("")));
}

#[test]
fn decompose_does_not_trim() {
    assert_eq!(keys(" r 1 -t9 - x "), (some(" r 1 "), some("t9 "), some(" x ")));
}

#[test]
fn decompose_counts_characters_not_bytes() {
    assert_eq!(keys("é1-ü2-日本-x"), (some("é1"), some("ü2"), some("日本")));
}

#[test]
fn decompose_agrees_with_std_split() {
    for uid in ["a-b-c", "a-b", "", "-", "--", "---", "x-y-z-w", "no dash", "é-日-本-"] {
        let parts: Vec<&str> = uid.split('-').collect();
        let expected = if parts.len() >= 3 {
            (some(parts[0]), some(parts[1]), some(parts[2]))
        } else {
            (None, None, None)
        };
        assert_eq!(keys(uid), expected);
    }
}
