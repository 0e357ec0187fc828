use wdyt::diff::Gap;
use wdyt::page::{code_file, diff_hunk, grouped_html, index_html, reply_widget, session_page, shell, thread};
use wdyt::render::ThemeColors;
use wdyt::session::{Ack, CodeFile, Comment, Content, DiffLine, Hunk, LineKind, Reply, Session, Side};
use wdyt::ui::Page;
use wdyt::zellij_origin::Origin;

fn colors() -> ThemeColors {
    ThemeColors {
        background: "#2e3440".to_owned(),
        foreground: "#d8dee9".to_owned(),
        gutter: "#3b4252".to_owned(),
        border: "#4c566a".to_owned(),
        muted: "#616e88".to_owned(),
        dark: true,
    }
}

fn origin() -> Origin {
    Origin { cwd: None, session: None, tab: None, pane: None }
}

fn session(id: &str, title: &str, content: Content) -> Session {
    Session {
        id: id.to_owned(),
        title: title.to_owned(),
        note: None,
        content,
        origin: origin(),
        brief: None,
        brief_sources: Vec::new(),
        theme: None,
        created: 0,
        reply: None,
        comments: Vec::new(),
    }
}

fn comment(id: u64, file: &str, line: usize, text: &str) -> Comment {
    Comment {
        id,
        file: file.to_owned(),
        target: None,
        line,
        end_line: None,
        side: Side::New,
        snippet: String::new(),
        text: text.to_owned(),
        at: 0,
        replies: Vec::new(),
        delivered_at: None,
    }
}

#[test]
fn a_page_without_a_session_has_no_reply_box() {
    assert_eq!(reply_widget("", &None), "");
}

#[test]
fn the_reply_box_offers_a_form_until_a_reply_is_sent() {
    let html = reply_widget("a\"b", &None);
    assert!(html.starts_with(r#"<div id="reply" class="reply" data-session="a&quot;b">"#));
    assert!(html.contains(r#"<form action="/s/a&quot;b/reply" method="post">"#));
    assert!(html.contains("Reply to agent"));
    assert!(html.ends_with("</script>"));
}

#[test]
fn a_sent_reply_is_escaped_and_shows_its_acknowledgement() {
    let reply = Reply {
        text: "<b>ship it</b>".to_owned(),
        at: 1,
        delivered_at: Some(2),
        ack: Some(Ack { note: "on <it>".to_owned(), at: 3 }),
    };
    let html = reply_widget("s1", &Some(reply));
    assert!(html.contains(r#"class="done read">Reply sent</button>"#));
    assert!(html.contains("&lt;b&gt;ship it&lt;/b&gt;"));
    assert!(!html.contains("<b>ship it"));
    assert!(html.contains(r#"<p class="acknote">on &lt;it&gt;</p>"#));
    assert!(!html.contains("<form"));
}

#[test]
fn a_hunk_after_a_gap_keeps_its_section_heading_in_the_band() {
    let hunk = Hunk {
        header: "@@ -10,1 +10,1 @@ fn main()".to_owned(),
        lines: vec![DiffLine {
            kind: LineKind::Added,
            old: None,
            new: Some(10),
            html: "x".to_owned(),
            text: "x".to_owned(),
        }],
        old_start: 10,
        new_start: 10,
    };
    let html = diff_hunk("a.rs", 0, &hunk, &Vec::new(), Some(Gap { from: 1, to: 9 }), None);
    assert!(html.starts_with(r#"<table class="src diff commentable"><tbody><tr class="gap" data-file="a.rs" data-index="0" data-from="1" data-to="9" data-place="before">"#));
    assert!(html.contains(r#"<span class="section">fn main()</span>"#));
    assert!(!html.contains(r#"<tr class="hunk">"#));
    assert!(html.contains(r#"data-line="10" data-side="new">+</button><span class="marker">+</span>x</td></tr>"#));
    assert!(html.ends_with("</tbody></table>"));
}

#[test]
fn a_hunk_without_a_gap_shows_its_escaped_header() {
    let hunk = Hunk { header: "@@ <x> @@".to_owned(), lines: Vec::new(), old_start: 1, new_start: 1 };
    let html = diff_hunk("a.rs", 2, &hunk, &Vec::new(), None, None);
    assert_eq!(
        html,
        r#"<table class="src diff commentable"><tbody><tr class="hunk"><td class="ln" colspan="2"></td><td class="code">@@ &lt;x&gt; @@</td></tr></tbody></table>"#
    );
}

#[test]
fn an_empty_listing_says_so() {
    let html = code_file("a.rs", &Vec::new(), &Vec::new());
    assert_eq!(
        html,
        r#"<table class="src commentable"><tbody><tr><td class="ln" colspan="2"></td><td class="code"><em>empty file</em></td></tr></tbody></table>"#
    );
}

#[test]
fn a_comment_hangs_under_its_line_escaped() {
    let lines = vec!["one".to_owned(), "two".to_owned()];
    let comments = vec![comment(7, "a.rs", 2, "<why>")];
    let html = code_file("a.rs", &lines, &comments);
    let two = html.find(">two</td></tr>").unwrap();
    let note = html.find(r#"<div class="note" id="comment-7""#).unwrap();
    assert!(note > two);
    assert!(html.contains("&lt;why&gt;"));
    assert!(!html.contains("<why>"));
}

#[test]
fn the_shell_escapes_the_title_and_shows_the_origin() {
    let page = Page {
        title: "<T>".to_owned(),
        note: Some("a & b".to_owned()),
        kind: "code".to_owned(),
        session_id: String::new(),
        reply: None,
        body_class: None,
        hideable: true,
        commentable: false,
        origin: Origin {
            cwd: Some("/tmp".to_owned()),
            session: Some("dev".to_owned()),
            tab: Some("t".to_owned()),
            pane: None,
        },
    };
    let html = shell(&page, &colors(), None, "<p>child</p>".to_owned());
    assert!(html.starts_with("<!DOCTYPE html>"));
    assert!(html.contains("<title>&lt;T&gt; · wdyt</title>"));
    assert!(html.contains("<h1>&lt;T&gt;</h1>"));
    assert!(html.contains(r#"<span class="note">a &amp; b</span>"#));
    assert!(html.contains(r#"<span class="place">dev</span><span class="sep">›</span><span class="place">t</span><span class="cwd">/tmp</span>"#));
    assert!(html.contains("--code-fg: #d8dee9"));
    assert!(html.contains("<main><p>child</p></main>"));
    assert!(html.contains(r#"id="chrome-toggle""#));
    assert!(!html.contains(r#"id="reply""#));
    assert!(html.ends_with("</body></html>"));
}

#[test]
fn an_empty_index_says_how_to_start() {
    let html = index_html(&Vec::new(), &colors());
    assert!(html.contains("No sessions yet."));
    assert!(html.contains("<title>Sessions · wdyt</title>"));
    assert!(!html.contains("session-list"));
}

#[test]
fn the_index_lists_sessions_in_order_escaped() {
    let summaries = vec![
        ("b".to_owned(), "<new>".to_owned(), "diff", true),
        ("a".to_owned(), "old".to_owned(), "code", false),
    ];
    let html = index_html(&summaries, &colors());
    let b = html.find(r#"value="b""#).unwrap();
    let a = html.find(r#"value="a""#).unwrap();
    assert!(b < a);
    assert!(html.contains(r#"<label for="pick-b">&lt;new&gt;</label><span class="kind">diff</span><a class="direct" href="/s/b">Open</a><span style="color: var(--muted); grid-column: 2">replied</span></li>"#));
    assert_eq!(html.matches("replied</span>").count(), 1);
}

#[test]
fn a_group_is_titled_by_its_count_and_frames_the_selected_tab() {
    let tabs = vec![
        session("s1", "First", Content::Demo { port: 3000, path: "/".to_owned() }),
        session("s2", "Second & more", Content::Static { root: "/r".to_owned(), entry: "index.html".to_owned() }),
    ];
    let html = grouped_html(&tabs, 1, &colors());
    assert!(html.contains("<title>2 sessions · wdyt</title>"));
    assert!(html.contains(r#"id="review-tab-0" aria-selected="false" href="/?s=s1&amp;s=s2&amp;tab=s1""#));
    assert!(html.contains(r#"id="review-tab-1" aria-selected="true""#));
    assert!(html.contains(r#"<iframe class="review-frame" src="/s/s2?embed=1" title="Review: Second &amp; more">"#));
    assert!(html.contains(r#"<body class="grouped">"#));
}

#[test]
fn a_group_of_one_takes_its_title() {
    let tabs = vec![session("s1", "Only", Content::Demo { port: 1, path: "/".to_owned() })];
    let html = grouped_html(&tabs, 0, &colors());
    assert!(html.contains("<title>Only · wdyt</title>"));
}

#[test]
fn a_code_session_lists_its_files_with_their_lines() {
    let file = CodeFile {
        label: "src/<a>.rs".to_owned(),
        html: String::new(),
        highlighted: vec!["fn a() {}".to_owned()],
        sources: vec!["fn a() {}".to_owned()],
        lines: 1,
        language: "Rust".to_owned(),
    };
    let mut s = session("id1", "Review", Content::Code { files: vec![file] });
    s.comments.push(comment(3, "src/<a>.rs", 1, "nice"));
    let html = session_page(&s, &colors(), false, "localhost");
    assert!(html.contains(r#"<div class="wrap" data-comments="1" data-session="id1">"#));
    assert!(html.contains("<span>src/&lt;a&gt;.rs</span><span class=\"meta\">Rust · 1 lines</span>"));
    assert!(html.contains(r#"<div class="note" id="comment-3""#));
    assert!(html.contains(r#"<div id="reply" class="reply" data-session="id1">"#));
    assert!(html.contains("<script>"));
    assert!(!html.contains("<nav"));
}

#[test]
fn framed_sessions_point_at_their_content() {
    let s = session("id2", "Site", Content::Static { root: "/r".to_owned(), entry: "/docs/index.html".to_owned() });
    let html = session_page(&s, &colors(), true, "localhost");
    assert!(html.contains(r#"<iframe class="frame" src="/s/id2/assets/docs/index.html" title="Preview""#));
    assert!(html.contains(r#"<body class="framed embedded">"#));
    assert!(!html.contains(r#"id="chrome-toggle""#));
    let demo = session("id3", "Demo", Content::Demo { port: 8080, path: "/app".to_owned() });
    let html = session_page(&demo, &colors(), false, "example.test");
    assert!(html.contains(r#"src="http://example.test:8080/app" title="Live demo""#));
    assert!(html.contains(r#"<body class="framed">"#));
}

#[test]
fn a_thread_shows_its_span_and_replies_escaped() {
    let mut c = comment(5, "a.rs", 3, "why <this>?");
    c.end_line = Some(6);
    c.replies.push(wdyt::session::Message {
        id: 9,
        from: wdyt::session::Author::Agent,
        text: "because & so".to_owned(),
        at: 1,
        delivered_at: None,
    });
    let html = thread(&c);
    assert!(html.starts_with(r#"<div class="note" id="comment-5" data-thread="5"><span class="who">you<span class="span">L3–L6</span></span>"#));
    assert!(html.contains("why &lt;this&gt;?"));
    assert!(html.contains(r#"<div class="said agent" data-message="9"><span class="who">agent</span>because &amp; so</div>"#));
    assert!(html.ends_with(r#"<div class="threadfoot"></div></div>"#));
}
