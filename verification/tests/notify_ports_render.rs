use wdyt::notify::{escape, Notification, Payload, Style};
use wdyt::ports::{candidate_ports, no_free_port_message};
use wdyt::render::{code_table, resolve_theme, sort_names, theme_names};

fn sample() -> Notification {
    Notification {
        title: "New <flamegraph> UI".to_owned(),
        note: Some("a & b".to_owned()),
        url: "http://localhost:3000/s/abc".to_owned(),
        kind: "demo",
        details: vec!["2 files".to_owned()],
    }
}

/// The Block Kit parts of the sample's payload.
fn blocks(n: &Notification) -> (String, String, Option<String>, String) {
    match n.payload_for(Style::Blocks, "content") {
        Payload::Blocks { fallback, heading, note, context } => (fallback, heading, note, context),
        other => panic!("expected block kit, got {other:?}"),
    }
}

#[test]
fn trigger_urls_get_a_flat_variable_map() {
    // A trigger declares typed variables; Block Kit sent to one is accepted
    // and then fails inside the workflow.
    assert_eq!(
        Style::detect("https://hooks.slack.com/triggers/E01/994/1d8"),
        Style::Trigger
    );
    assert_eq!(
        Style::detect("https://hooks.slack.com/services/T00/B00/xxx"),
        Style::Blocks
    );
    match sample().payload_for(Style::Trigger, "content") {
        Payload::Trigger { field, text: content } => {
            assert_eq!(field, "content");
            assert!(content.contains("http://localhost:3000/s/abc"), "{content}");
            assert!(content.contains("New <flamegraph> UI"), "{content}");
            assert!(content.contains("a & b"), "{content}");
            assert!(content.contains("demo"), "{content}");
            // No entity escaping: the variable renders verbatim.
            assert!(!content.contains("&amp;"), "escaped a plain variable: {content}");
            assert_eq!(
                content,
                "New <flamegraph> UI — a & b\nhttp://localhost:3000/s/abc\ndemo · 2 files"
            );
        }
        other => panic!("expected a trigger payload, got {other:?}"),
    }
}

#[test]
fn the_trigger_variable_name_is_configurable() {
    match sample().payload_for(Style::Trigger, "message") {
        Payload::Trigger { field, .. } => assert_eq!(field, "message"),
        other => panic!("expected a trigger payload, got {other:?}"),
    }
}

#[test]
fn payload_links_the_url_and_escapes_markup() {
    let (_, heading, note, _) = blocks(&sample());
    assert!(heading.contains("http://localhost:3000/s/abc"));
    assert!(heading.contains("&lt;flamegraph&gt;"), "not escaped: {heading}");
    assert_eq!(heading, "*<http://localhost:3000/s/abc|New &lt;flamegraph&gt; UI>*");
    assert_eq!(note.as_deref(), Some("a &amp; b"));
}

#[test]
fn payload_has_fallback_text_with_url() {
    let (fallback, ..) = blocks(&sample());
    assert!(fallback.contains("http://localhost:3000/s/abc"));
    assert_eq!(fallback, "New <flamegraph> UI — http://localhost:3000/s/abc");
}

#[test]
fn context_block_carries_kind_and_details() {
    let (.., context) = blocks(&sample());
    assert!(context.contains("demo"));
    assert!(context.contains("2 files"));
    assert_eq!(context, "`demo`  ·  2 files");
}

#[test]
fn note_block_is_omitted_when_absent() {
    let mut notification = sample();
    notification.note = None;
    // Title, then context: no note block in between.
    let (_, _, note, _) = blocks(&notification);
    assert_eq!(note, None);
    assert_eq!(
        notification.plain(),
        "New <flamegraph> UI\nhttp://localhost:3000/s/abc\ndemo · 2 files"
    );
}

#[test]
fn slack_control_characters_are_escaped() {
    assert_eq!(escape("<a & b>"), "&lt;a &amp; b&gt;");
}

#[test]
fn reserved_ports_are_skipped_in_order() {
    assert_eq!(
        candidate_ports(&vec![3000, 3001, 3002, 3003], &vec![3001, 3003]),
        vec![3000, 3002]
    );
    assert!(candidate_ports(&vec![3000, 3001], &vec![3000, 3001]).is_empty());
}

#[test]
fn pick_errors_when_everything_is_reserved() {
    let range = vec![3000, 3001];
    assert!(candidate_ports(&range, &vec![3000, 3001]).is_empty());
    let error = no_free_port_message(&range);
    assert!(error.contains("no free port"));
    assert!(error.starts_with("no free port in 3000-3001."), "{error}");
}

#[test]
fn theme_list_is_not_empty() {
    assert!(theme_names().iter().any(|n| n == "Nord"));
}

#[test]
fn theme_names_come_sorted() {
    let names = theme_names();
    let mut sorted = names.clone();
    sorted.sort();
    assert_eq!(names, sorted);
}

#[test]
fn sorting_names_is_by_code_point() {
    let names: Vec<String> = vec!["b".into(), "B".into(), "a".into(), "ab".into()];
    assert_eq!(sort_names(&names), vec!["B", "a", "ab", "b"]);
}

#[test]
fn a_listing_is_a_numbered_table() {
    assert_eq!(
        code_table(&vec!["<b>fn</b>".into(), String::new()]),
        "<table class=\"src\"><tr id=\"L1\"><td class=\"ln\"><a href=\"#L1\">1</a></td><td class=\"code\"><b>fn</b></td></tr>\
<tr id=\"L2\"><td class=\"ln\"><a href=\"#L2\">2</a></td><td class=\"code\">&nbsp;</td></tr></table>"
    );
    assert_eq!(
        code_table(&vec![]),
        "<table class=\"src\"><tr><td class=\"ln\"></td><td class=\"code\"><em>empty file</em></td></tr></table>"
    );
}

#[test]
fn an_unknown_theme_falls_back() {
    let names: Vec<String> = vec!["Dracula".into(), "Nord".into()];
    assert_eq!(resolve_theme("Dracula", &names).as_deref(), Some("Dracula"));
    assert_eq!(resolve_theme("no-such-theme", &names).as_deref(), Some("Nord"));
    let without_nord: Vec<String> = vec!["Dracula".into()];
    assert_eq!(resolve_theme("x", &without_nord).as_deref(), Some("Dracula"));
    assert_eq!(resolve_theme("x", &vec![]), None);
}

#[test]
fn every_bundled_theme_is_listed_once() {
    let mut expected: Vec<String> = [
        "ansi", "base16", "base16-eighties.dark", "base16-mocha.dark", "base16-ocean.dark",
        "base16-ocean.light", "base16-256", "Catppuccin Frappe", "Catppuccin Latte",
        "Catppuccin Macchiato", "Catppuccin Mocha", "Coldark-Cold", "Coldark-Dark", "DarkNeon",
        "Dracula", "GitHub", "gruvbox-dark", "gruvbox-light", "InspiredGitHub", "1337",
        "Monokai Extended", "Monokai Extended Bright", "Monokai Extended Light",
        "Monokai Extended Origin", "Nord", "OneHalfDark", "OneHalfLight", "Solarized (dark)",
        "Solarized (light)", "Sublime Snazzy", "TwoDark", "zenburn",
    ]
    .iter()
    .map(|name| name.to_string())
    .collect();
    expected.sort();
    assert_eq!(theme_names(), expected);
}

#[test]
fn highlights_rust_with_line_numbers() {
    let file = wdyt::render::highlight("lib.rs", "fn main() {}\nlet x = 1;\n", "Nord").unwrap();
    assert_eq!(file.lines, 2);
    assert!(file.html.contains("id=\"L1\""));
    assert!(file.html.contains("id=\"L2\""));
    assert_eq!(file.language, "Rust");
}

#[test]
fn unknown_extension_falls_back_to_plain_text() {
    let file = wdyt::render::highlight("notes.zzzz", "hello\n", "Nord").unwrap();
    assert_eq!(file.lines, 1);
    assert!(file.html.contains("hello"));
    assert_eq!(file.language, "Plain Text");
}

#[test]
fn empty_file_still_renders() {
    let file = wdyt::render::highlight("empty.rs", "", "Nord").unwrap();
    assert_eq!(file.lines, 0);
    assert!(file.html.contains("empty file"));
}

#[test]
fn code_content_is_escaped() {
    // syntect escapes text; a file containing markup must not inject it.
    let file = wdyt::render::highlight("x.txt", "<script>alert(1)</script>\n", "Nord").unwrap();
    assert!(!file.html.contains("<script>"), "raw script tag survived: {}", file.html);
}

#[test]
fn renders_markdown_tables_and_tasklists() {
    let doc = wdyt::render::markdown("README.md", "| a | b |\n|---|---|\n| 1 | 2 |\n\n- [x] done\n", "Nord");
    assert!(doc.html.contains("<table>"));
    assert!(doc.html.contains("checkbox"));
}

#[test]
fn renders_markdown_tables_and_tasklists_with_source_positions() {
    let doc = wdyt::render::markdown_commentable("README.md", "| a | b |\n|---|---|\n| 1 | 2 |\n\n- [x] done\n", "Nord");
    assert!(doc.html.contains("<table"));
    assert!(doc.html.contains("checkbox"));
}

#[test]
fn highlights_fenced_code_in_markdown() {
    let doc = wdyt::render::markdown("d.md", "```rust\nfn main() {}\n```\n", "Nord");
    // The syntect adapter emits inline styles rather than a bare <code>.
    assert!(doc.html.contains("style"), "no highlighting: {}", doc.html);
}

#[test]
fn an_unknown_theme_name_uses_the_fallback() {
    assert_eq!(wdyt::render::theme_for("no-such-theme"), "Nord");
    assert_eq!(wdyt::render::theme_for("GitHub"), "GitHub");
}

#[test]
fn plain_markdown_passes_raw_html_through() {
    let source = "<div class=\"note\">kept</div>\n\nand <b>bold</b>\n";
    let plain = wdyt::render::markdown("a.md", source, "Nord");
    assert!(plain.html.contains("<div class=\"note\">kept</div>"), "{}", plain.html);
    assert!(plain.html.contains("<b>bold</b>"));
    let commentable = wdyt::render::markdown_commentable("a.md", source, "Nord");
    assert!(!commentable.html.contains("<div class=\"note\">"));
    assert!(commentable.html.contains("raw HTML omitted"));
}
