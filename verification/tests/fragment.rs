use wdyt::fragment::{
    comment_fragment, encode_path, line_fragment, parse_comment, parse_selection, range_fragment,
    decode_path,
};

#[test]
fn round_trips_a_simple_path() {
    let frag = line_fragment("src/lib.rs", "new", 5);
    let sel = parse_selection(&frag).unwrap();
    assert_eq!(sel.path, "src/lib.rs");
    assert_eq!(sel.side, "new");
    assert_eq!(sel.start, 5);
    assert_eq!(sel.end, 5);
}

#[test]
fn round_trips_a_range() {
    let frag = range_fragment("src/lib.rs", "old", 3, 7);
    let sel = parse_selection(&frag).unwrap();
    assert_eq!(sel.path, "src/lib.rs");
    assert_eq!(sel.side, "old");
    assert_eq!(sel.start, 3);
    assert_eq!(sel.end, 7);
}

#[test]
fn round_trips_a_path_with_special_chars() {
    let frag = line_fragment("src/my-file.test.rs", "new", 42);
    let sel = parse_selection(&frag).unwrap();
    assert_eq!(sel.path, "src/my-file.test.rs");
    assert_eq!(sel.start, 42);
}

#[test]
fn round_trips_a_path_with_dashes() {
    let frag = range_fragment("a-b/c-d.rs", "new", 1, 10);
    let sel = parse_selection(&frag).unwrap();
    assert_eq!(sel.path, "a-b/c-d.rs");
    assert_eq!(sel.start, 1);
    assert_eq!(sel.end, 10);
}

#[test]
fn backwards_range_is_normalised() {
    let frag = range_fragment("x.rs", "new", 10, 3);
    let sel = parse_selection(&frag).unwrap();
    assert_eq!(sel.start, 3);
    assert_eq!(sel.end, 10);
}

#[test]
fn degenerate_range_becomes_single_line() {
    let frag = range_fragment("x.rs", "new", 5, 5);
    assert_eq!(frag, line_fragment("x.rs", "new", 5));
    let sel = parse_selection(&frag).unwrap();
    assert_eq!(sel.start, 5);
    assert_eq!(sel.end, 5);
}

#[test]
fn invalid_fragments_return_none() {
    assert_eq!(parse_selection(""), None);
    assert_eq!(parse_selection("sel-"), None);
    assert_eq!(parse_selection("sel-abc-sideways-5"), None);
    assert_eq!(parse_selection("f-src-lib-rs"), None);
    assert_eq!(parse_selection("comment-3"), None);
}

#[test]
fn comment_fragment_round_trips() {
    let frag = comment_fragment(42);
    assert_eq!(frag, "comment-42");
    assert_eq!(parse_comment(&frag), Some(42));
}

#[test]
fn comment_fragment_rejects_non_numeric() {
    assert_eq!(parse_comment("comment-abc"), None);
    assert_eq!(parse_comment("comment-"), None);
    assert_eq!(parse_comment("sel-abc-new-5"), None);
}

#[test]
fn path_encoding_with_a_hyphen_round_trips() {
    let path = "src/¾x.rs";
    let encoded = encode_path(path);
    assert_eq!(encoded, "c3JjL8K-eC5ycw");
    assert!(encoded.contains('-'));

    let line = parse_selection(&line_fragment(path, "new", 7)).unwrap();
    assert_eq!(line.path, path);
    assert_eq!((line.start, line.end), (7, 7));

    let range = parse_selection(&range_fragment(path, "old", 2, 5)).unwrap();
    assert_eq!(range.path, path);
    assert_eq!(range.side, "old");
    assert_eq!((range.start, range.end), (2, 5));
}

#[test]
fn does_not_collide_with_file_anchors() {
    let file_anchor = "f-src-lib-rs";
    let sel = line_fragment("src/lib.rs", "new", 1);
    assert_ne!(sel, file_anchor);
    assert_eq!(parse_selection(file_anchor), None);
}

#[test]
fn cross_language_known_vectors() {
    assert_eq!(line_fragment("src/lib.rs", "new", 5), "sel-c3JjL2xpYi5ycw-new-5");
    assert_eq!(line_fragment("src/¾x.rs", "old", 12), "sel-c3JjL8K-eC5ycw-old-12");
    assert_eq!(
        range_fragment("src/my_mod/test.rs", "new", 3, 7),
        "sel-c3JjL215X21vZC90ZXN0LnJz-new-3-7"
    );
    assert_eq!(line_fragment("docs/über.md", "new", 1), "sel-ZG9jcy_DvGJlci5tZA-new-1");
    for (path, side, start, end) in [
        ("src/lib.rs", "new", 5, 5),
        ("a-b/c-d.rs", "old", 12, 12),
        ("src/my_mod/test.rs", "new", 3, 7),
        ("docs/über.md", "new", 1, 1),
    ] {
        let frag = if start == end {
            line_fragment(path, side, start)
        } else {
            range_fragment(path, side, start, end)
        };
        let sel = parse_selection(&frag).unwrap();
        assert_eq!(sel.path, path, "round-trip failed for {path}");
        assert_eq!(sel.side, side);
        assert_eq!(sel.start, start);
        assert_eq!(sel.end, end);
    }
}

#[test]
fn rejects_huge_line_numbers() {
    let huge = format!("sel-{}-new-{}", encode_path("x.rs"), u64::MAX);
    let _ = parse_selection(&huge);
    let overflow = format!("sel-{}-new-99999999999999999999", encode_path("x.rs"),);
    assert_eq!(parse_selection(&overflow), None);
}

#[test]
fn rejects_line_numbers_above_max_safe_integer() {
    let max_safe = 9_007_199_254_740_991usize;
    let beyond = max_safe + 1;
    let frag = format!("sel-{}-new-{}", encode_path("x.rs"), beyond);
    assert_eq!(parse_selection(&frag), None, "line > MAX_SAFE_INTEGER should be rejected");
    let frag_ok = format!("sel-{}-new-{}", encode_path("x.rs"), max_safe);
    let sel = parse_selection(&frag_ok).unwrap();
    assert_eq!(sel.start, max_safe);
}

#[test]
fn rejects_empty_path() {
    assert_eq!(parse_selection("sel--new-5"), None);
}

#[test]
fn rejects_oversized_fragment() {
    let long_path = "a".repeat(7000);
    let frag = format!("sel-{}-new-1", encode_path(&long_path));
    assert!(frag.len() > 8192);
    assert_eq!(parse_selection(&frag), None, "oversized fragment should be rejected");
}

#[test]
fn rejects_oversized_encoded_path() {
    let long_path = "x".repeat(4000);
    let encoded = encode_path(&long_path);
    assert!(encoded.len() > 4096);
    let frag = format!("sel-{}-new-1", encoded);
    assert_eq!(parse_selection(&frag), None, "oversized path should be rejected");
}

#[test]
fn decode_path_rejects_invalid_base64_and_utf8() {
    assert_eq!(decode_path("!!!"), None);
    // base64url of the single byte 0xff, which is not UTF-8.
    assert_eq!(decode_path("_w"), None);
    assert_eq!(decode_path("eC5ycw").as_deref(), Some("x.rs"));
}

#[test]
fn a_comment_id_beyond_u64_is_rejected() {
    assert_eq!(parse_comment("comment-18446744073709551615"), Some(u64::MAX));
    assert_eq!(parse_comment("comment-18446744073709551616"), None);
}
