use wdyt::diff::{assemble_file, parse_structure};
use wdyt::raw::{context_file, context_lines, raw_body, RawBody};
use wdyt::session::{CodeFile, Comment, Content, DiffFile, DocFile, GuidedBlock, Side};

const PATCH: &str = "\
--- a/x.rs
+++ b/x.rs
@@ -1,2 +1,2 @@ fn f()
 keep
-a < b
+a > b
";

fn diff_file(source: Vec<&str>) -> DiffFile {
    let raw = parse_structure(PATCH).unwrap();
    let mut file = assemble_file(&raw[0], &vec![], &vec![], String::new());
    file.source = source.into_iter().map(String::from).collect();
    file
}

#[test]
fn the_raw_form_of_a_diff_is_its_patch() {
    let content = Content::Diff { files: vec![diff_file(vec![])] };
    match raw_body(&content, "localhost", "abc") {
        RawBody::Text(text) => assert_eq!(
            text,
            "--- a/x.rs\n+++ b/x.rs\n@@ -1,2 +1,2 @@ fn f()\n keep\n-a < b\n+a > b\n"
        ),
        other => panic!("expected the patch, got {other:?}"),
    }
}

#[test]
fn framed_content_is_redirected() {
    let demo = Content::Demo { port: 5173, path: "/app".into() };
    match raw_body(&demo, "box", "abc") {
        RawBody::Redirect(to) => assert_eq!(to, "http://box:5173/app"),
        other => panic!("expected a redirect, got {other:?}"),
    }
    let dir = Content::Static { root: "/tmp/site".into(), entry: "/index.html".into() };
    match raw_body(&dir, "box", "abc") {
        RawBody::Redirect(to) => assert_eq!(to, "/s/abc/assets/index.html"),
        other => panic!("expected a redirect, got {other:?}"),
    }
}

#[test]
fn code_and_docs_are_html_pages() {
    let code = Content::Code {
        files: vec![CodeFile {
            label: "<a>.rs".into(),
            html: "<table></table>".into(),
            highlighted: vec![],
            sources: vec![],
            lines: 0,
            language: "Rust".into(),
        }],
    };
    match raw_body(&code, "h", "i") {
        RawBody::Html(body) => assert_eq!(body, "<h2>&lt;a&gt;.rs</h2><table></table>"),
        other => panic!("expected html, got {other:?}"),
    }
    let docs = Content::Docs {
        files: vec![
            DocFile { label: "a".into(), html: "<p>1</p>".into(), sources: vec![] },
            DocFile { label: "b".into(), html: "<p>2</p>".into(), sources: vec![] },
        ],
    };
    match raw_body(&docs, "h", "i") {
        RawBody::Html(body) => assert_eq!(body, "<p>1</p><p>2</p>"),
        other => panic!("expected html, got {other:?}"),
    }
}

#[test]
fn a_guide_is_one_page_with_escaped_excerpts() {
    let file = diff_file(vec![]);
    let hunks = file.hunks.clone();
    let guide = Content::Guided {
        blocks: vec![
            GuidedBlock::Text { html: "<p>why</p>".into(), source_start: 1, sources: vec![] },
            GuidedBlock::Code {
                file: "y.rs".into(),
                language: "Rust".into(),
                start: 1,
                end: 2,
                highlighted: vec!["one".into(), "two".into()],
                sources: vec![],
            },
            GuidedBlock::Diff { file, side: Side::New, start: 1, end: 2, selected_hunks: hunks },
        ],
    };
    match raw_body(&guide, "h", "i") {
        RawBody::Html(body) => assert_eq!(
            body,
            "<p>why</p><pre><code>one\ntwo</code></pre><pre><code>@@ -1,2 +1,2 @@ fn f()\n keep\n-a &lt; b\n+a &gt; b\n</code></pre>"
        ),
        other => panic!("expected html, got {other:?}"),
    }
}

fn comment(id: u64, line: usize, end_line: Option<usize>, target: Option<&str>) -> Comment {
    Comment {
        id,
        file: "x.rs".into(),
        target: target.map(String::from),
        line,
        end_line,
        side: Side::New,
        snippet: String::new(),
        text: String::new(),
        at: 0,
        replies: vec![],
        delivered_at: None,
    }
}

#[test]
fn context_needs_a_captured_source() {
    let without = Content::Diff { files: vec![diff_file(vec![])] };
    assert!(context_file(&without, 0).is_none());
    let with = Content::Diff { files: vec![diff_file(vec!["keep", "a > b", "tail"])] };
    let (file, target) = context_file(&with, 0).unwrap();
    assert_eq!(file.label, "x.rs");
    assert_eq!(target, None);
    assert!(context_file(&with, 1).is_none());
}

#[test]
fn a_guided_block_files_its_lines_under_its_target() {
    let file = diff_file(vec!["keep"]);
    let guide = Content::Guided {
        blocks: vec![
            GuidedBlock::Text { html: String::new(), source_start: 1, sources: vec![] },
            GuidedBlock::Diff { file, side: Side::New, start: 1, end: 1, selected_hunks: vec![] },
        ],
    };
    let (_, target) = context_file(&guide, 1).unwrap();
    assert_eq!(target.as_deref(), Some("guided:1"));
    assert!(context_file(&guide, 0).is_none());
}

#[test]
fn hidden_lines_come_back_numbered_with_their_comments() {
    let file = diff_file(vec!["keep", "a > b", "tail", "end"]);
    let highlighted: Vec<String> = vec!["h1".into(), "h2".into(), "h3".into()];
    let comments = vec![
        comment(1, 3, None, None),
        comment(2, 2, Some(4), None),
        comment(3, 3, None, Some("guided:0")),
    ];
    let lines = context_lines(&file, &None, &comments, 3, 4, &highlighted, Some(-1)).unwrap();
    assert_eq!(lines.file, "x.rs");
    assert_eq!(lines.lines.len(), 2);
    assert_eq!((lines.lines[0].new, lines.lines[0].old), (3, Some(2)));
    assert_eq!(lines.lines[0].html, "h3");
    assert_eq!(lines.lines[0].comments.iter().map(|c| c.id).collect::<Vec<_>>(), [1]);
    assert_eq!(lines.lines[1].html, "", "past what was highlighted");
    assert_eq!(lines.lines[1].comments.iter().map(|c| c.id).collect::<Vec<_>>(), [2]);
    assert_eq!(
        context_lines(&file, &None, &comments, 3, 5, &highlighted, None).unwrap_err(),
        "beyond the end of the file"
    );
    let none = context_lines(&file, &None, &comments, 1, 1, &highlighted, Some(-5)).unwrap();
    assert_eq!(none.lines[0].old, None, "a negative old number is no number");
}
