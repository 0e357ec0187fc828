use wdyt::diff::{assemble_file, parse_structure};
use wdyt::guided::{
    assemble_guide, find_directives, guide_pieces, line_start, line_starts,
    select_diff, validate_range, validated_relative_path, DiffDirective, DirectiveKind, GuidePart,
    GuidePiece, RawDirective, MAX_BLOCKS,
};
use wdyt::session::{DiffFile, GuidedBlock, LineKind, Side};

const PATCH: &str = "\
diff --git a/src/lib.rs b/src/lib.rs
--- a/src/lib.rs
+++ b/src/lib.rs
@@ -2,4 +2,5 @@
 fn before() {}
-old one
-old two
+new one
+new two
+new three
 tail
";

fn diff_directive(file: &str, side: &str, start: usize, end: usize) -> String {
    format!(
        "```wdyt-diff\n\
         {{\"file\":{file:?},\"side\":{side:?},\"start\":{start},\"end\":{end}}}\n\
         ```\n"
    )
}

fn patch_files(patch: &str) -> Result<Vec<DiffFile>, String> {
    let raw = parse_structure(patch)?;
    Ok(raw
        .iter()
        .map(|f| assemble_file(f, &vec![], &vec![], String::new()))
        .collect())
}

/// The directive's JSON, read strictly: exactly these four fields.
fn read_diff_directive(body: &str, line: usize) -> Result<DiffDirective, String> {
    let bad = || format!("invalid wdyt-diff directive at line {line}");
    let value: serde_json::Value = serde_json::from_str(body).map_err(|_| bad())?;
    let object = value.as_object().ok_or_else(bad)?;
    if object.len() != 4 {
        return Err(bad());
    }
    let side = match object.get("side").and_then(|v| v.as_str()) {
        Some("old") => Side::Old,
        Some("new") => Side::New,
        _ => return Err(bad()),
    };
    let number = |key: &str| {
        object
            .get(key)
            .and_then(|v| v.as_u64())
            .map(|n| n as usize)
            .ok_or_else(bad)
    };
    Ok(DiffDirective {
        file: object.get("file").and_then(|v| v.as_str()).ok_or_else(bad)?.to_owned(),
        side,
        start: number("start")?,
        end: number("end")?,
    })
}

/// A guide of prose and `wdyt-diff` directives, cut and assembled by the
/// library; the directives' JSON is read here, as the command does.
fn guide(source: &str, patch: &str) -> Result<Vec<GuidedBlock>, String> {
    let directives = find_directives(source)?;
    let files = if directives.iter().any(|d| d.kind == DirectiveKind::Diff) {
        patch_files(patch)?
    } else {
        Vec::new()
    };
    let make = |d: &RawDirective| -> Result<GuidedBlock, String> {
        assert_eq!(d.kind, DirectiveKind::Diff, "only diff directives here");
        let spec = read_diff_directive(&d.body, d.start_line)?;
        validate_range(spec.start, spec.end, d.start_line)?;
        select_diff(&files, spec, d.start_line)
    };
    let parts = guide_pieces(source, &directives)
        .into_iter()
        .map(|piece| match piece {
            GuidePiece::Text { start, end, first_line } => {
                GuidePart::Prose { text: source[start..end].to_owned(), first_line }
            }
            GuidePiece::Directive { index } => GuidePart::Made { block: make(&directives[index]) },
        })
        .collect();
    assemble_guide(parts, "Nord")
}

#[test]
fn markdown_is_escaped_and_uses_the_selected_theme() {
    let source = "## Safe\n\n<script>alert(1)</script>\n\n```rust\nfn main() {}\n```\n";
    let text = |theme: &str| {
        let parts = vec![GuidePart::Prose { text: source.to_owned(), first_line: 1 }];
        match assemble_guide(parts, theme).unwrap().remove(0) {
            GuidedBlock::Text { html, .. } => html,
            block => panic!("expected text block, got {block:?}"),
        }
    };
    let nord_html = text("Nord");
    let github_html = text("InspiredGitHub");
    assert!(!nord_html.contains("<script>"));
    assert!(nord_html.contains("style="));
    assert_ne!(nord_html, github_html);
}

#[test]
fn blank_prose_adds_nothing_and_an_empty_guide_is_refused() {
    let parts = vec![GuidePart::Prose { text: "  \n\n".to_owned(), first_line: 1 }];
    assert_eq!(assemble_guide(parts, "Nord").unwrap_err(), "guided review contains no content");
    let parts = vec![
        GuidePart::Prose { text: "\n".to_owned(), first_line: 1 },
        GuidePart::Made { block: Err("first".to_owned()) },
        GuidePart::Made { block: Err("second".to_owned()) },
    ];
    assert_eq!(assemble_guide(parts, "Nord").unwrap_err(), "first");
}

#[test]
fn new_side_selection_includes_removed_replacement_lines() {
    let source = diff_directive("src/lib.rs", "new", 3, 3);
    let blocks = guide(&source, PATCH).unwrap();
    let GuidedBlock::Diff { side, selected_hunks, .. } = &blocks[0] else {
        panic!("expected diff block");
    };
    let lines = &selected_hunks[0].lines;

    assert_eq!(*side, Side::New);
    assert_eq!(
        lines.iter().map(|line| line.text.as_str()).collect::<Vec<_>>(),
        ["old one", "old two", "new one"]
    );
    assert_eq!(
        lines.iter().map(|line| line.kind).collect::<Vec<_>>(),
        [LineKind::Removed, LineKind::Removed, LineKind::Added]
    );
}

#[test]
fn old_side_selection_includes_added_replacement_lines() {
    let source = diff_directive("src/lib.rs", "old", 4, 4);
    let blocks = guide(&source, PATCH).unwrap();
    let GuidedBlock::Diff { side, selected_hunks, .. } = &blocks[0] else {
        panic!("expected diff block");
    };
    let lines = &selected_hunks[0].lines;

    assert_eq!(*side, Side::Old);
    assert_eq!(
        lines.iter().map(|line| line.text.as_str()).collect::<Vec<_>>(),
        ["old two", "new one", "new two", "new three"]
    );
}

#[test]
fn directive_json_is_strict() {
    let unknown = "\
```wdyt-diff
{\"file\":\"src/lib.rs\",\"side\":\"new\",\"start\":1,\"end\":1,\"extra\":true}
```
";
    let error = guide(unknown, PATCH).unwrap_err();
    assert!(error.contains("invalid wdyt-diff"), "{error}");
    let malformed = "```wdyt-diff\nnot json\n```\n";
    let error = guide(malformed, PATCH).unwrap_err();
    assert!(error.contains("invalid wdyt-diff"), "{error}");
}

#[test]
fn guides_are_limited_to_one_hundred_blocks() {
    let mut source = String::new();
    for _ in 0..=MAX_BLOCKS {
        source.push_str(&diff_directive("src/lib.rs", "new", 3, 3));
    }
    let error = guide(&source, PATCH).unwrap_err();
    assert!(error.contains("100 blocks"), "{error}");
}

#[test]
fn nested_directive_fences_remain_markdown() {
    let source = "> ```wdyt-code\n> {\"file\":\"missing.rs\",\"start\":1,\"end\":1}\n> ```\n";
    assert!(find_directives(source).unwrap().is_empty());
    let blocks = guide(source, "").unwrap();
    assert!(matches!(blocks.as_slice(), [GuidedBlock::Text { .. }]));
}

#[test]
fn prose_and_directives_keep_source_order() {
    let source = format!(
        "## Public API\n\nAdded a method.\n\n{}## After\n",
        diff_directive("src/lib.rs", "new", 3, 3)
    );
    let directives = find_directives(&source).unwrap();
    assert_eq!(directives.len(), 1);
    assert_eq!((directives[0].start_line, directives[0].end_line), (5, 7));
    let pieces = guide_pieces(&source, &directives);
    assert_eq!(pieces.len(), 3);
    assert_eq!(pieces[0], GuidePiece::Text { start: 0, end: 32, first_line: 1 });
    assert_eq!(pieces[1], GuidePiece::Directive { index: 0 });
    let GuidePiece::Text { start, end, first_line } = pieces[2] else {
        panic!("expected trailing prose");
    };
    assert_eq!(&source[start..end], "## After\n");
    assert_eq!(first_line, 8);
    let blocks = guide(&source, PATCH).unwrap();
    assert_eq!(blocks.len(), 3);
    assert!(matches!(blocks[0], GuidedBlock::Text { source_start: 1, .. }));
    assert!(matches!(blocks[1], GuidedBlock::Diff { .. }));
    assert!(matches!(blocks[2], GuidedBlock::Text { source_start: 8, .. }));
}

#[test]
fn an_unclosed_directive_is_an_error() {
    let error = find_directives("text\n\n```wdyt-code\n{}\n").unwrap_err();
    assert_eq!(error, "unclosed wdyt-code directive at line 3");
}

#[test]
fn ranges_that_select_no_lines_are_rejected() {
    let error = guide(&diff_directive("src/lib.rs", "new", 100, 100), PATCH).unwrap_err();
    assert!(error.contains("selects no new-side lines"), "{error}");
}

#[test]
fn a_missing_diff_file_is_named() {
    let error = guide(&diff_directive("src/other.rs", "new", 1, 1), PATCH).unwrap_err();
    assert!(error.contains("src/other.rs"), "{error}");
}

#[test]
fn zero_reversed_and_large_ranges_are_refused() {
    assert_eq!(
        validate_range(0, 1, 4).unwrap_err(),
        "directive at line 4 has a zero line number"
    );
    assert_eq!(
        validate_range(2, 1, 4).unwrap_err(),
        "directive at line 4 has a reversed range 2..1"
    );
    assert_eq!(
        validate_range(1, 501, 4).unwrap_err(),
        "directive at line 4 selects 501 lines; the limit is 500"
    );
    assert!(validate_range(1, 500, 4).is_ok());
}

#[test]
fn code_paths_must_stay_beneath_the_workspace() {
    for file in ["../secret.rs", "/tmp/secret.rs", ".", ""] {
        let error = validated_relative_path(file, 1).unwrap_err();
        assert!(
            error.contains("workspace") || error.contains("empty file path"),
            "{file}: {error}"
        );
    }
    assert_eq!(validated_relative_path("./src/lib.rs", 1).unwrap(), "./src/lib.rs");
}

#[test]
fn line_starts_are_byte_offsets() {
    let starts = line_starts("a\né\nc");
    assert_eq!(starts, vec![0, 2, 5]);
    assert_eq!(line_start(&starts, 6, 2), 2);
    assert_eq!(line_start(&starts, 6, 0), 0);
    assert_eq!(line_start(&starts, 6, 9), 6);
}

#[test]
fn relative_paths_are_read_component_by_component() {
    assert_eq!(validated_relative_path("a/./b", 1).unwrap(), "a/./b");
    assert_eq!(validated_relative_path("a//b/", 1).unwrap(), "a//b/");
    assert_eq!(validated_relative_path("...", 1).unwrap(), "...");
    assert!(validated_relative_path("a/../b", 1).unwrap_err().contains("may not leave the workspace"));
    assert!(validated_relative_path("/etc/passwd", 1).unwrap_err().contains("workspace-relative"));
    assert!(validated_relative_path("./.", 4).unwrap_err().contains("line 4 has an empty file path"));
}
