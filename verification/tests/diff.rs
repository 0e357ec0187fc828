use wdyt::diff::{
    assemble_file, hunk_lengths, hunk_starts, pad_blank_html, parse_structure, review_rank,
    side_lines, split_files, strip_prefix_dir,
};
use wdyt::session::LineKind;

const SAMPLE: &str = "\
diff --git a/src/lib.rs b/src/lib.rs
index 1111111..2222222 100644
--- a/src/lib.rs
+++ b/src/lib.rs
@@ -1,4 +1,5 @@
 fn main() {
-    let x = 1;
+    let x = 2;
+    let y = 3;
 }
";

#[test]
fn parses_a_git_diff() {
    let files = parse_structure(SAMPLE).unwrap();
    assert_eq!(files.len(), 1);
    let file = &files[0];
    assert_eq!(file.label, "src/lib.rs");
    assert_eq!(file.added, 2);
    assert_eq!(file.removed, 1);
    assert_eq!(file.hunks.len(), 1);
}

#[test]
fn numbers_both_sides_independently() {
    let files = parse_structure(SAMPLE).unwrap();
    let lines = &files[0].hunks[0].lines;
    assert_eq!((lines[0].old, lines[0].new), (Some(1), Some(1)));
    assert_eq!((lines[1].old, lines[1].new), (Some(2), None));
    assert_eq!((lines[2].old, lines[2].new), (None, Some(2)));
    assert_eq!((lines[3].old, lines[3].new), (None, Some(3)));
    assert_eq!((lines[4].old, lines[4].new), (Some(3), Some(4)));
}

#[test]
fn every_line_gets_html_even_without_highlighting() {
    let files = parse_structure(SAMPLE).unwrap();
    let file = assemble_file(&files[0], &vec![], &vec![], "Rust".to_owned());
    assert_eq!(file.language, "Rust");
    for line in &file.hunks[0].lines {
        assert!(!line.html.is_empty(), "no html for {:?}", line.text);
    }
    assert_eq!(file.hunks[0].lines[1].html, "    let x = 1;");
}

#[test]
fn highlighted_sides_are_matched_back_to_their_lines() {
    let files = parse_structure(SAMPLE).unwrap();
    let hunk = &files[0].hunks[0];
    let old_side = side_lines(hunk, true);
    let new_side = side_lines(hunk, false);
    assert_eq!(old_side, vec!["fn main() {", "    let x = 1;", "}"]);
    assert_eq!(
        new_side,
        vec!["fn main() {", "    let x = 2;", "    let y = 3;", "}"]
    );
    let old_html: Vec<String> = vec!["O0".into(), "O1".into(), "O2".into()];
    let new_html: Vec<String> = vec!["N0".into(), "N1".into(), "N2".into(), "N3".into()];
    let file = assemble_file(&files[0], &vec![old_html], &vec![new_html], "Rust".into());
    let htmls: Vec<&str> = file.hunks[0].lines.iter().map(|l| l.html.as_str()).collect();
    assert_eq!(htmls, ["O0", "O1", "N1", "N2", "O2"]);
}

#[test]
fn splits_multiple_files() {
    let two = format!(
        "{SAMPLE}diff --git a/README.md b/README.md\n\
         --- a/README.md\n\
         +++ b/README.md\n\
         @@ -1 +1 @@\n\
         -old\n\
         +new\n"
    );
    let files = parse_structure(&two).unwrap();
    assert_eq!(files.len(), 2);
    assert_eq!(files[1].label, "README.md");
}

#[test]
fn handles_a_plain_diff_u_with_timestamps() {
    let plain = "--- old.txt\t2026-01-01 00:00:00\n\
                 +++ new.txt\t2026-01-02 00:00:00\n\
                 @@ -1,2 +1,2 @@\n\
                  keep\n\
                 -gone\n\
                 +here\n";
    let files = parse_structure(plain).unwrap();
    assert_eq!(files.len(), 1);
    assert_eq!(files[0].label, "new.txt");
}

#[test]
fn a_removed_line_of_dashes_is_not_a_file_header() {
    let tricky = "--- a/x.md\n\
                  +++ b/x.md\n\
                  @@ -1,3 +1,3 @@\n\
                   title\n\
                  --- old rule\n\
                  +++ new rule\n\
                   end\n";
    let files = parse_structure(tricky).unwrap();
    assert_eq!(files.len(), 1, "split on a content line");
    assert_eq!(files[0].added, 1);
    assert_eq!(files[0].removed, 1);
}

#[test]
fn a_second_file_is_found_after_a_hunk_ends() {
    let two = "--- a/one.md\n\
               +++ b/one.md\n\
               @@ -1,2 +1,2 @@\n\
                kept\n\
               -was\n\
               +now\n\
               --- a/two.md\n\
               +++ b/two.md\n\
               @@ -1,1 +1,2 @@\n\
                kept\n\
               +added\n";
    let files = parse_structure(two).unwrap();
    assert_eq!(
        files.iter().map(|f| f.label.as_str()).collect::<Vec<_>>(),
        ["one.md", "two.md"],
        "the second file was swallowed by the first hunk"
    );
    assert_eq!((files[1].added, files[1].removed), (1, 0));
}

#[test]
fn hunk_lengths_reads_both_range_forms() {
    assert_eq!(hunk_lengths("@@ -1,2 +1,3 @@"), Some((2, 3)));
    assert_eq!(hunk_lengths("@@ -7 +9 @@ fn f()"), Some((1, 1)));
    assert_eq!(hunk_lengths(" not a hunk"), None);
}

#[test]
fn a_no_newline_marker_does_not_end_a_hunk_early() {
    let patch = "--- a/x.txt\n\
                 +++ b/x.txt\n\
                 @@ -1,2 +1,2 @@\n\
                 -old\n\
                 \\ No newline at end of file\n\
                 +new\n\
                 \\ No newline at end of file\n\
                  tail\n";
    let files = parse_structure(patch).unwrap();
    assert_eq!(files.len(), 1);
    assert_eq!((files[0].added, files[0].removed), (1, 1));
}

#[test]
fn skips_headers_with_no_hunks() {
    let rename = "diff --git a/old b/new\n\
                  similarity index 100%\n\
                  rename from old\n\
                  rename to new\n";
    assert!(parse_structure(rename).is_err());
}

#[test]
fn rejects_input_that_is_not_a_diff() {
    let error = parse_structure("just some text\nnot a diff\n").unwrap_err();
    assert!(error.contains("unified diff"), "{error}");
}

#[test]
fn a_new_file_starts_numbering_at_one() {
    let created = "--- /dev/null\n\
                   +++ b/new.rs\n\
                   @@ -0,0 +1,2 @@\n\
                   +fn a() {}\n\
                   +fn b() {}\n";
    let files = parse_structure(created).unwrap();
    assert_eq!(files[0].label, "new.rs");
    assert_eq!(files[0].hunks[0].lines[0].new, Some(1));
}

#[test]
fn a_deleted_file_keeps_its_old_name() {
    let deleted = "--- a/gone.rs\n\
                   +++ /dev/null\n\
                   @@ -1,1 +0,0 @@\n\
                   -fn gone() {}\n";
    let files = parse_structure(deleted).unwrap();
    assert_eq!(files[0].label, "gone.rs");
}

#[test]
fn no_newline_marker_is_not_a_line() {
    let marker = "--- a/x\n\
                  +++ b/x\n\
                  @@ -1 +1 @@\n\
                  -a\n\
                  \\ No newline at end of file\n\
                  +b\n";
    let files = parse_structure(marker).unwrap();
    assert_eq!(files[0].hunks[0].lines.len(), 2);
    assert_eq!(files[0].hunks[0].lines[0].kind, LineKind::Removed);
    assert_eq!(files[0].hunks[0].lines[1].kind, LineKind::Added);
}

#[test]
fn hunk_starts_parses_both_range_forms() {
    assert_eq!(hunk_starts("@@ -12,7 +14,9 @@"), Some((12, 14)));
    assert_eq!(hunk_starts("@@ -3 +5 @@ fn f()"), Some((3, 5)));
    assert_eq!(hunk_starts("not a hunk"), None);
}

#[test]
fn source_ranks_before_docs_before_lockfiles() {
    let source = review_rank("src/main.rs");
    let doc = review_rank("README.md");
    let lock = review_rank("Cargo.lock");
    assert!(source < doc, "source should rank before docs/config");
    assert!(doc < lock, "docs/config should rank before lockfiles");
}

#[test]
fn lockfiles_and_generated_config_are_low_signal() {
    let lock = review_rank("Cargo.lock");
    assert_eq!(review_rank("package-lock.json"), lock);
    assert_eq!(review_rank(".config/nextest.toml"), lock);
    assert_eq!(review_rank("yarn.lock"), lock);
    assert_eq!(review_rank("go.sum"), lock);
    assert_eq!(review_rank("node_modules/foo/index.js"), lock);
    assert_eq!(review_rank("dist/bundle.min.js"), lock);
}

#[test]
fn a_real_source_file_ranks_highest() {
    let source = review_rank("src/diff.rs");
    assert!(source < review_rank("Cargo.toml"));
    assert!(source < review_rank("Cargo.lock"));
    assert!(review_rank("Cargo.toml") < review_rank("Cargo.lock"));
}

#[test]
fn sort_is_stable_within_a_rank() {
    let mut labels = vec![
        "Cargo.lock",
        "src/zebra.rs",
        "src/alpha.rs",
        ".config/nextest.toml",
        "README.md",
    ];
    labels.sort_by_key(|l| review_rank(l));
    assert_eq!(
        labels,
        [
            "src/zebra.rs",
            "src/alpha.rs",
            "README.md",
            "Cargo.lock",
            ".config/nextest.toml",
        ],
        "stable sort must keep zebra before alpha"
    );
}

#[test]
fn the_prefix_directory_of_a_git_path_is_dropped() {
    assert_eq!(strip_prefix_dir("a/src/lib.rs"), "src/lib.rs");
    assert_eq!(strip_prefix_dir("b/x"), "x");
    assert_eq!(strip_prefix_dir("plain.txt"), "plain.txt");
}

#[test]
fn a_diff_is_split_at_each_file_header() {
    // Outside a hunk, the `---` line starts a file as well, so the `diff --git`
    // preamble stands alone and carries no hunks.
    let groups = split_files(SAMPLE);
    assert_eq!(groups.len(), 2);
    assert_eq!(groups[0], ["diff --git a/src/lib.rs b/src/lib.rs", "index 1111111..2222222 100644"]);
    assert_eq!(groups[1][0], "--- a/src/lib.rs");
    assert_eq!(groups[1].len(), 8);
}

#[test]
fn a_blank_highlighted_line_keeps_its_height() {
    assert_eq!(pad_blank_html("  ".into()), "  &nbsp;");
    assert_eq!(pad_blank_html("<span>x</span>".into()), "<span>x</span>");
}

#[test]
fn review_order_is_a_stable_sort_by_rank() {
    let labels: Vec<String> = [
        "Cargo.lock",
        "src/zebra.rs",
        "src/alpha.rs",
        ".config/nextest.toml",
        "README.md",
    ]
    .map(String::from)
    .to_vec();
    assert_eq!(wdyt::diff::review_order(&labels), vec![1, 2, 4, 0, 3]);
}

fn sample_file() -> wdyt::session::DiffFile {
    let raw = parse_structure(SAMPLE).unwrap();
    assemble_file(&raw[0], &vec![], &vec![], String::new())
}

fn lines(text: &str) -> Vec<String> {
    text.lines().map(str::to_owned).collect()
}

#[test]
fn a_working_tree_file_that_agrees_with_the_diff_is_kept() {
    let mut file = sample_file();
    let current = lines("fn main() {\n    let x = 2;\n    let y = 3;\n}\n// after");
    assert!(wdyt::diff::source_agrees(&file.hunks, &current));
    wdyt::diff::keep_source(&mut file, current.clone());
    assert_eq!(file.source, current);
    assert_eq!(file.label, "src/lib.rs");
    assert_eq!(file.hunks.len(), 1);
}

#[test]
fn a_working_tree_file_from_another_revision_is_dropped() {
    let mut file = sample_file();
    // The removed line is what the old side said: the new side must not say it.
    let older = lines("fn main() {\n    let x = 1;\n}");
    assert!(!wdyt::diff::source_agrees(&file.hunks, &older));
    wdyt::diff::keep_source(&mut file, older);
    assert!(file.source.is_empty());

    // Too short to hold the last line the diff shows.
    let mut file = sample_file();
    wdyt::diff::keep_source(&mut file, lines("fn main() {\n    let x = 2;"));
    assert!(file.source.is_empty());
}

const AROUND: &str = "\
diff --git a/src/lib.rs b/src/lib.rs
--- a/src/lib.rs
+++ b/src/lib.rs
@@ -2,4 +2,5 @@
 fn before() {}
-old one
-old two
+new one
+new two
+new three
 tail
";

fn around_file() -> wdyt::session::DiffFile {
    let raw = parse_structure(AROUND).unwrap();
    let mut file = assemble_file(&raw[0], &vec![], &vec![], String::new());
    let current = lines(
        "before hidden\nfn before() {}\nnew one\nnew two\nnew three\ntail\nafter hidden",
    );
    wdyt::diff::keep_source(&mut file, current);
    file
}

#[test]
fn gaps_cover_the_lines_around_the_hunks() {
    let file = around_file();
    assert_eq!(file.source.len(), 7);
    let gaps = wdyt::diff::gaps(&file);
    assert_eq!(gaps.before, vec![Some(wdyt::diff::Gap { from: 1, to: 1 })]);
    assert_eq!(gaps.after, Some(wdyt::diff::Gap { from: 7, to: 7 }));
}

#[test]
fn a_file_without_its_source_has_nothing_to_reveal() {
    let raw = parse_structure(AROUND).unwrap();
    let file = assemble_file(&raw[0], &vec![], &vec![], String::new());
    let gaps = wdyt::diff::gaps(&file);
    assert_eq!(gaps.before, vec![None]);
    assert_eq!(gaps.after, None);
}

#[test]
fn a_deletion_only_hunk_sits_after_its_header_line() {
    let patch = "\
--- a/notes.txt
+++ b/notes.txt
@@ -6,3 +5,0 @@
-six
-seven
-eight
";
    let raw = parse_structure(patch).unwrap();
    let mut file = assemble_file(&raw[0], &vec![], &vec![], String::new());
    file.source = lines("1\n2\n3\n4\n5\n9\n10\n11\n12");
    let gaps = wdyt::diff::gaps(&file);
    assert_eq!(gaps.before, vec![Some(wdyt::diff::Gap { from: 1, to: 5 })]);
    assert_eq!(gaps.after, Some(wdyt::diff::Gap { from: 6, to: 9 }));
}

#[test]
fn old_numbers_follow_the_nearest_context_line_above() {
    let file = around_file();
    // Below the hunk the old side runs one behind: two lines became three.
    assert_eq!(wdyt::diff::old_offset_at(&file, 7), Some(-1));
    // Above it nothing has changed yet.
    assert_eq!(wdyt::diff::old_offset_at(&file, 1), Some(0));

    let rewritten = "\
--- a/x
+++ b/x
@@ -1,1 +1,1 @@
-old
+new
";
    let raw = parse_structure(rewritten).unwrap();
    let file = assemble_file(&raw[0], &vec![], &vec![], String::new());
    assert_eq!(wdyt::diff::old_offset_at(&file, 2), None);
}

#[test]
fn every_line_gets_highlighted_html() {
    let files = wdyt::diff::parse(SAMPLE, "Nord").unwrap();
    for line in &files[0].hunks[0].lines {
        assert!(!line.html.is_empty(), "unhighlighted: {line:?}");
    }
    // The content is highlighted, not just escaped.
    let joined: String = files[0].hunks[0].lines.iter().map(|l| l.html.clone()).collect();
    assert!(joined.contains("style="), "no highlighting: {joined}");
    assert_eq!(files[0].language, "Rust");
}

#[test]
fn review_rank_ignores_ascii_case() {
    for label in ["Cargo.LOCK", "SRC/MAIN.RS", "Vendor/Lib.rs", "Docs/README.md", ".Github/ci.yml", "a/B.Min.JS"] {
        assert_eq!(review_rank(label), review_rank(&label.to_ascii_lowercase()), "{label}");
    }
    assert_eq!(review_rank("SRC/MAIN.RS"), 0);
    assert_eq!(review_rank("Cargo.LOCK"), 2);
    assert_eq!(review_rank("Vendor/Lib.rs"), 2);
}

#[test]
fn review_rank_reads_the_file_name_as_paths_do() {
    // Trailing and doubled separators are read past.
    assert_eq!(review_rank("src/lib.rs/"), 0);
    assert_eq!(review_rank("src//lib.rs"), 0);
    // A trailing dot gives an empty extension, which is no source.
    assert_eq!(review_rank("notes."), 1);
    assert_eq!(review_rank("main.rs."), 1);
}
