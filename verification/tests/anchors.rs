use wdyt::{
    file_anchor, file_line_anchor, file_range_anchor, parse_file_line_anchor,
    validate_file_anchors, MAX_SAFE_LINE,
};

#[test]
fn file_anchor_replaces_non_alphanumeric() {
    assert_eq!(file_anchor("src/main.rs"), "f-src-main-rs");
    assert_eq!(file_anchor("A B.md"), "f-a-b-md");
    assert_eq!(file_anchor("a-b/c-d.rs"), "f-a-b-c-d-rs");
}

#[test]
fn file_anchor_is_deterministic() {
    assert_eq!(file_anchor("x/y.rs"), file_anchor("x/y.rs"));
}

#[test]
fn file_anchor_handles_empty_label() {
    assert_eq!(file_anchor(""), "f-");
}

#[test]
fn file_anchor_handles_unicode() {
    // Unicode non-ASCII becomes dashes.
    assert_eq!(file_anchor("docs/über.md"), "f-docs--ber-md");
}

#[test]
fn file_anchor_handles_consecutive_separators() {
    assert_eq!(file_anchor("a//b..c"), "f-a--b--c");
}

#[test]
fn file_line_anchor_appends_capital_l_marker() {
    assert_eq!(file_line_anchor("src/lib.rs", 10), "f-src-lib-rs-L10");
    assert_eq!(file_line_anchor("A B.md", 1), "f-a-b-md-L1");
}

#[test]
fn file_range_anchor_normalises_and_collapses() {
    assert_eq!(file_range_anchor("src/lib.rs", 10, 20), "f-src-lib-rs-L10-L20");
    // Reversed input is normalised to start <= end.
    assert_eq!(file_range_anchor("src/lib.rs", 20, 10), "f-src-lib-rs-L10-L20");
    // A degenerate range collapses to the single-line form.
    assert_eq!(file_range_anchor("src/lib.rs", 7, 7), "f-src-lib-rs-L7");
}

#[test]
fn parse_file_line_anchor_reads_single_and_range() {
    let single = parse_file_line_anchor("f-src-lib-rs-L10").unwrap();
    assert_eq!(single.anchor, "f-src-lib-rs");
    assert_eq!((single.start, single.end), (10, 10));

    let range = parse_file_line_anchor("f-src-lib-rs-L10-L20").unwrap();
    assert_eq!(range.anchor, "f-src-lib-rs");
    assert_eq!((range.start, range.end), (10, 20));
}

#[test]
fn parse_file_line_anchor_disambiguates_dashed_paths() {
    let a = parse_file_line_anchor("f-a-b-c-d-rs-L5").unwrap();
    assert_eq!(a.anchor, "f-a-b-c-d-rs");
    assert_eq!((a.start, a.end), (5, 5));

    let b = parse_file_line_anchor("f-a-b-c-d-rs-L5-L9").unwrap();
    assert_eq!(b.anchor, "f-a-b-c-d-rs");
    assert_eq!((b.start, b.end), (5, 9));

    // A path segment that is itself digits must not be mistaken for a line.
    let c = parse_file_line_anchor("f-src-2-rs-L3").unwrap();
    assert_eq!(c.anchor, "f-src-2-rs");
    assert_eq!((c.start, c.end), (3, 3));
}

#[test]
fn parse_file_line_anchor_round_trips_with_formatters() {
    for (label, start, end) in [
        ("src/lib.rs", 10usize, 10usize),
        ("src/lib.rs", 10, 20),
        ("a-b/c-d.rs", 1, 99),
        ("weird L path.rs", 4, 4),
    ] {
        let frag = file_range_anchor(label, start, end);
        let parsed = parse_file_line_anchor(&frag).unwrap();
        assert_eq!(parsed.anchor, file_anchor(label), "for {frag}");
        assert_eq!((parsed.start, parsed.end), (start, end), "for {frag}");
    }
}

#[test]
fn parse_file_line_anchor_normalises_reversed_range() {
    let parsed = parse_file_line_anchor("f-src-lib-rs-L20-L10").unwrap();
    assert_eq!((parsed.start, parsed.end), (10, 20));
}

#[test]
fn parse_file_line_anchor_rejects_non_line_anchors() {
    assert_eq!(parse_file_line_anchor("f-src-lib-rs"), None);
    assert_eq!(parse_file_line_anchor("comment-3"), None);
    assert_eq!(parse_file_line_anchor("sel-abc-new-5"), None);
    assert_eq!(parse_file_line_anchor("f-src-lib-rs-L0"), None);
    assert_eq!(parse_file_line_anchor("f-src-lib-rs-Lx"), None);
    assert_eq!(parse_file_line_anchor("x-src-lib-rs-L5"), None);
}

#[test]
fn parse_file_line_anchor_rejects_out_of_range_lines() {
    let max_safe_line = MAX_SAFE_LINE as usize;
    let beyond = max_safe_line + 1;
    assert_eq!(parse_file_line_anchor(&format!("f-src-lib-rs-L{beyond}")), None);
    // MAX_SAFE_LINE itself is accepted.
    let ok = parse_file_line_anchor(&format!("f-src-lib-rs-L{max_safe_line}")).unwrap();
    assert_eq!(ok.start, max_safe_line);
}

#[test]
fn validate_file_anchors_accepts_distinct() {
    let labels = vec![
        "src/main.rs".to_owned(),
        "src/lib.rs".to_owned(),
        "README.md".to_owned(),
    ];
    assert!(validate_file_anchors(&labels).is_ok());
}

#[test]
fn validate_file_anchors_rejects_exact_duplicates() {
    let labels = vec!["src/main.rs".to_owned(), "src/main.rs".to_owned()];
    let err = validate_file_anchors(&labels).unwrap_err();
    assert!(err.contains("src/main.rs"), "error should name the label: {err}");
    assert!(err.contains("f-src-main-rs"), "error should name the anchor: {err}");
}

#[test]
fn validate_file_anchors_rejects_normalization_collisions() {
    // a-b.rs and a/b.rs both normalize to f-a-b-rs
    let labels = vec!["a-b.rs".to_owned(), "a/b.rs".to_owned()];
    let err = validate_file_anchors(&labels).unwrap_err();
    assert!(err.contains("a-b.rs"), "error should name first label: {err}");
    assert!(err.contains("a/b.rs"), "error should name second label: {err}");
    assert!(err.contains("f-a-b-rs"), "error should name the anchor: {err}");
}

#[test]
fn validate_file_anchors_empty_is_ok() {
    assert!(validate_file_anchors(&[]).is_ok());
}

#[test]
fn validate_file_anchors_single_is_ok() {
    assert!(validate_file_anchors(&["x.rs".to_owned()]).is_ok());
}

#[test]
fn collision_message_names_the_first_pair_in_order() {
    let labels = vec![
        "x.rs".to_owned(),
        "a-b.rs".to_owned(),
        "a/b.rs".to_owned(),
        "a_b.rs".to_owned(),
    ];
    assert_eq!(
        validate_file_anchors(&labels).unwrap_err(),
        "anchor collision: \"a-b.rs\" and \"a/b.rs\" both produce #f-a-b-rs"
    );
}

#[test]
fn an_oversized_anchor_is_not_parsed() {
    let long = format!("f-{}-L5", "a".repeat(9000));
    assert_eq!(parse_file_line_anchor(&long), None);
    let multibyte = format!("f-{}-L5", "é".repeat(4096));
    assert!(multibyte.chars().count() < 8192);
    assert_eq!(parse_file_line_anchor(&multibyte), None);
}

#[test]
fn a_plus_sign_is_read_as_str_parse_reads_it() {
    let parsed = parse_file_line_anchor("f-x-L+7").unwrap();
    assert_eq!((parsed.start, parsed.end), (7, 7));
}
