use wdyt::server::{u64_param, usize_param};
use wdyt::text::escape_attr_exec;
use wdyt::server::{
    ack_note, anchor, bounded_text, check_context_range, check_create, escape_html,
    escape_json_for_script, guided_block_index, inbox_items, next_event_at, prepare_comment,
    public_host, query_params, reply_status, request_port, snippet_for, unread_only,
    CommentInput, CreateSession, UserEvent, MAX_CONTEXT_LINES,
};
use wdyt::session::{Anchor, CodeFile, Content, DocFile, Side, Store};
use wdyt::server::{brief_comments, demo_frame_src, grouped_ids, selected_tab, static_frame_src};
use wdyt::session::Comment;

#[test]
fn anchors_are_url_safe_and_stable() {
    assert_eq!(anchor("src/main.rs"), "f-src-main-rs");
    assert_eq!(anchor("A B.md"), "f-a-b-md");
    assert_eq!(anchor("x/y.rs"), anchor("x/y.rs"));
}

#[test]
fn escape_html_escapes_markup() {
    assert_eq!(escape_html("<a> & </a>"), "&lt;a&gt; &amp; &lt;/a&gt;");
}

#[test]
fn escape_json_for_script_prevents_breakout() {
    let input = r#"{"text":"</script><script>alert(1)</script>"}"#;
    let escaped = escape_json_for_script(input);
    assert!(
        !escaped.contains("</script>"),
        "breakout not prevented: {escaped}"
    );
    assert!(escaped.contains("<\\/script>"));
    let upper = r#"{"text":"</SCRIPT>"}"#;
    let escaped_upper = escape_json_for_script(upper);
    assert!(
        !escaped_upper.contains("</SCRIPT>") || !escaped_upper.contains("</script>"),
        "case-insensitive breakout possible"
    );
}

#[test]
fn escape_json_for_script_preserves_normal_content() {
    let normal = r#"[{"id":1,"text":"looks good","line":3}]"#;
    assert_eq!(escape_json_for_script(normal), normal);
}

fn code_session(store: &mut Store) -> String {
    let file = CodeFile {
        label: "a.rs".into(),
        html: String::new(),
        highlighted: vec!["l1".into(), "l2".into(), "l3".into()],
        sources: vec!["one".into(), "two".into(), "three".into()],
        lines: 3,
        language: "Rust".into(),
    };
    store.insert("t".into(), None, Content::Code { files: vec![file] })
}

fn input(line: usize, end_line: Option<usize>, side: &str, text: &str) -> CommentInput {
    CommentInput {
        file: "a.rs".into(),
        target: None,
        line,
        end_line,
        side: side.into(),
        text: text.into(),
    }
}

#[test]
fn a_comment_quotes_its_lines_from_the_session() {
    let mut store = Store::new(None);
    let id = code_session(&mut store);
    let (a, snippet, text) = store
        .with(&id, |s| prepare_comment(s, input(3, Some(2), "new", "  why?  ")))
        .unwrap()
        .unwrap();
    assert_eq!((a.line, a.end_line), (2, Some(3)));
    assert_eq!(snippet, "two\nthree");
    assert_eq!(text, "why?");
}

#[test]
fn a_bad_comment_is_refused_with_its_reason() {
    let mut store = Store::new(None);
    let id = code_session(&mut store);
    let check = |i: CommentInput| store.with(&id, |s| prepare_comment(s, i)).unwrap();
    assert_eq!(check(input(1, None, "new", "   ")).unwrap_err(), "comment must not be empty");
    assert_eq!(check(input(1, None, "both", "x")).unwrap_err(), "side must be old or new");
    assert_eq!(check(input(0, None, "new", "x")).unwrap_err(), "line must be >= 1");
    assert_eq!(check(input(1, Some(0), "new", "x")).unwrap_err(), "end_line must be >= 1");
    assert_eq!(
        check(input(1, None, "old", "x")).unwrap_err(),
        "side must be new for code/docs/brief comments"
    );
    assert_eq!(
        check(input(1, Some(600), "new", "x")).unwrap_err(),
        "comment covers too many lines"
    );
    assert_eq!(check(input(4, None, "new", "x")).unwrap_err(), "no such line in this session");
    let mut unknown = input(1, None, "new", "x");
    unknown.target = Some("doc:7".into());
    assert_eq!(check(unknown).unwrap_err(), "unknown comment target");
}

#[test]
fn a_snippet_needs_every_line_it_covers() {
    let mut store = Store::new(None);
    let id = code_session(&mut store);
    let inside = Anchor::range("a.rs".into(), 1, 2, Side::New);
    let past = Anchor::range("a.rs".into(), 2, 4, Side::New);
    let other = Anchor::line("b.rs".into(), 1, Side::New);
    assert_eq!(
        store.with(&id, |s| snippet_for(s, &inside)).unwrap().as_deref(),
        Some("one\ntwo")
    );
    assert_eq!(store.with(&id, |s| snippet_for(s, &past)).unwrap(), None);
    assert_eq!(store.with(&id, |s| snippet_for(s, &other)).unwrap(), None);
}

#[test]
fn an_explicit_doc_target_picks_the_file_by_index() {
    let doc = |label: &str, line: &str| DocFile {
        label: label.into(),
        html: String::new(),
        sources: vec![line.into()],
    };
    let mut store = Store::new(None);
    let id = store.insert(
        "t".into(),
        None,
        Content::Docs { files: vec![doc("same.md", "first"), doc("same.md", "second")] },
    );
    let mut a = Anchor::line("same.md".into(), 1, Side::New);
    assert_eq!(store.with(&id, |s| snippet_for(s, &a)).unwrap(), None, "ambiguous label quoted");
    a.target = Some("doc:1".into());
    assert_eq!(
        store.with(&id, |s| snippet_for(s, &a)).unwrap().as_deref(),
        Some("second")
    );
}

#[test]
fn context_ranges_are_bounded() {
    assert!(check_context_range(1, 1).is_ok());
    assert!(check_context_range(1, MAX_CONTEXT_LINES).is_ok());
    assert_eq!(
        check_context_range(1, MAX_CONTEXT_LINES + 1).unwrap_err(),
        "too many lines requested"
    );
    assert_eq!(
        check_context_range(0, 3).unwrap_err(),
        "from must be >= 1 and to must be >= from"
    );
    assert_eq!(
        check_context_range(5, 4).unwrap_err(),
        "from must be >= 1 and to must be >= from"
    );
}

#[test]
fn submitted_text_is_trimmed_and_bounded() {
    assert_eq!(bounded_text("  hi \n", "empty", "long").unwrap(), "hi");
    assert_eq!(bounded_text(" \t ", "empty", "long").unwrap_err(), "empty");
    let big = "x".repeat(16385);
    assert_eq!(bounded_text(&big, "empty", "long").unwrap_err(), "long");
    let exact = "é".repeat(8192);
    assert_eq!(bounded_text(&exact, "empty", "long").unwrap(), exact);
    let over = "é".repeat(8193);
    assert_eq!(bounded_text(&over, "empty", "long").unwrap_err(), "long");
}

#[test]
fn an_ack_needs_a_note() {
    assert_eq!(ack_note("  on it ").unwrap(), "on it");
    assert_eq!(
        ack_note("   ").unwrap_err(),
        "an ack needs a note saying what you are doing"
    );
}

#[test]
fn the_port_and_host_come_from_the_host_header() {
    assert_eq!(request_port(Some("localhost:3005")), 3005);
    assert_eq!(request_port(Some("example.com")), 3000);
    assert_eq!(request_port(Some("example.com:99999")), 3000);
    assert_eq!(request_port(Some("example.com:x")), 3000);
    assert_eq!(request_port(None), 3000);
    assert_eq!(public_host(Some("box.local:3005")), "box.local");
    assert_eq!(public_host(Some("box.local")), "box.local");
    assert_eq!(public_host(None), "localhost");
}

#[test]
fn unread_is_anything_but_false_or_zero() {
    assert!(unread_only(Some("1")));
    assert!(unread_only(Some("")));
    assert!(!unread_only(Some("false")));
    assert!(!unread_only(Some("0")));
    assert!(!unread_only(None));
}

#[test]
fn repeated_query_parameters_are_decoded_in_order() {
    assert_eq!(
        query_params(Some("p=a&x=1&p=b%20c&p=d+e"), "p"),
        vec!["a", "b c", "d e"]
    );
    assert_eq!(query_params(Some("p%3D=1"), "p="), vec!["1"]);
    assert_eq!(query_params(Some("p"), "p"), vec![""]);
    assert!(query_params(None, "p").is_empty());
    assert!(query_params(Some("p=%FF"), "p").is_empty());
}

#[test]
fn guided_targets_name_a_block() {
    assert_eq!(guided_block_index("guided:3"), Some(3));
    assert_eq!(guided_block_index("guided:"), None);
    assert_eq!(guided_block_index("guided:x"), None);
    assert_eq!(guided_block_index("doc:3"), None);
}

#[test]
fn a_create_request_with_colliding_labels_is_refused() {
    let doc = |label: &str| DocFile { label: label.into(), html: String::new(), sources: vec![] };
    let ok = CreateSession::new("t".into(), Content::Docs { files: vec![doc("a.md"), doc("b.md")] });
    assert!(check_create(&ok).is_ok());
    let clash =
        CreateSession::new("t".into(), Content::Docs { files: vec![doc("a b.md"), doc("a-b.md")] });
    assert!(check_create(&clash).is_err());
}

#[test]
fn events_are_comments_first_then_the_reply() {
    let mut store = Store::new(None);
    let id = store.insert("t".into(), None, Content::Demo { port: 1, path: "/".into() });
    assert!(next_event_at(&mut store, "nope", 5).is_err());
    assert!(next_event_at(&mut store, &id, 5).unwrap().is_none());
    store.reply_at(&id, "done".into(), 6).unwrap();
    store
        .comment_at(&id, Anchor::line("a".into(), 1, Side::New), "s".into(), "q".into(), 7)
        .unwrap();
    match next_event_at(&mut store, &id, 8).unwrap() {
        Some(UserEvent::Comment { message, .. }) => assert_eq!(message.text, "q"),
        other => panic!("expected the comment first, got {other:?}"),
    }
    match next_event_at(&mut store, &id, 9).unwrap() {
        Some(UserEvent::Reply { reply }) => {
            assert_eq!(reply.text, "done");
            assert_eq!(reply.delivered_at, Some(9));
        }
        other => panic!("expected the reply, got {other:?}"),
    }
    assert!(next_event_at(&mut store, &id, 10).unwrap().is_none());
}

#[test]
fn the_inbox_links_each_session_and_can_hide_acked_ones() {
    let mut store = Store::new(None);
    let a = store.insert("a".into(), None, Content::Demo { port: 1, path: "/".into() });
    let b = store.insert("b".into(), None, Content::Demo { port: 1, path: "/".into() });
    store.reply(&a, "x".into()).unwrap();
    store.reply(&b, "y".into()).unwrap();
    store.ack(&a, "seen".into()).unwrap();
    let all = inbox_items(store.replied(), false, "localhost", 3005);
    assert_eq!(all.items.len(), 2);
    let unread = inbox_items(store.replied(), true, "localhost", 3005);
    assert_eq!(unread.items.len(), 1);
    assert_eq!(unread.items[0].id, b);
    assert_eq!(unread.items[0].url, format!("http://localhost:3005/s/{b}"));
}

#[test]
fn reply_status_reports_delivery_and_ack() {
    let mut store = Store::new(None);
    let id = store.insert("a".into(), None, Content::Demo { port: 1, path: "/".into() });
    let none = store.with(&id, reply_status).unwrap();
    assert!(!none.replied && !none.delivered && none.ack.is_none());
    store.reply(&id, "x".into()).unwrap();
    store.ack(&id, "ok".into()).unwrap();
    let done = store.with(&id, reply_status).unwrap();
    assert!(done.replied && done.delivered);
    assert_eq!(done.ack.unwrap().note, "ok");
}

#[test]
fn grouped_reviews_collapse_repeats_and_are_bounded() {
    let ids: Vec<String> = ["b", "a", "b"].map(String::from).to_vec();
    assert_eq!(grouped_ids(&ids).unwrap(), ["b", "a"]);
    let with_empty: Vec<String> = ["a", ""].map(String::from).to_vec();
    assert_eq!(
        grouped_ids(&with_empty).unwrap_err(),
        "session selection contains an empty id"
    );
    let many: Vec<String> = (0..13).map(|i| format!("s{i}")).collect();
    assert_eq!(
        grouped_ids(&many).unwrap_err(),
        "a grouped review supports at most 12 tabs"
    );
    let mut twelve: Vec<String> = (0..12).map(|i| format!("s{i}")).collect();
    twelve.push("s0".into());
    assert_eq!(grouped_ids(&twelve).unwrap().len(), 12);
}

#[test]
fn the_selected_tab_is_found_by_id() {
    let ids: Vec<String> = ["a", "b", "c"].map(String::from).to_vec();
    assert_eq!(selected_tab(&ids, Some("c")), 2);
    assert_eq!(selected_tab(&ids, Some("z")), 0);
    assert_eq!(selected_tab(&ids, None), 0);
}

#[test]
fn brief_comments_are_chosen_by_target_then_legacy_label() {
    let c = |id: u64, file: &str, target: Option<&str>| Comment {
        id,
        file: file.into(),
        target: target.map(String::from),
        line: 1,
        end_line: None,
        side: Side::New,
        snippet: String::new(),
        text: String::new(),
        at: 0,
        replies: vec![],
        delivered_at: None,
    };
    let all = vec![
        c(1, "x", Some("brief")),
        c(2, "brief:", None),
        c(3, "brief:", Some("doc:0")),
        c(4, "a.rs", None),
    ];
    let ids: Vec<u64> = brief_comments(&all).iter().map(|c| c.id).collect();
    assert_eq!(ids, [1, 2]);
}

#[test]
fn framed_content_urls() {
    assert_eq!(static_frame_src("abc", "//index.html"), "/s/abc/assets/index.html");
    assert_eq!(static_frame_src("abc", "a/b.html"), "/s/abc/assets/a/b.html");
    assert_eq!(demo_frame_src("box", 5173, "/app"), "http://box:5173/app");
}

#[test]
fn numeric_query_parameters_read_like_str_parse() {
    assert_eq!(u64_param(Some("timeout_secs=30"), "timeout_secs"), Some(30));
    assert_eq!(u64_param(Some("a=1&timeout_secs=%2B7&timeout_secs=9"), "timeout_secs"), Some(7));
    // A `+` in a query is a space, which no number begins with.
    assert_eq!(u64_param(Some("timeout_secs=+7"), "timeout_secs"), None);
    assert_eq!(u64_param(Some("timeout_secs=soon"), "timeout_secs"), None);
    assert_eq!(u64_param(Some("timeout_secs="), "timeout_secs"), None);
    assert_eq!(u64_param(Some("timeout_secs=18446744073709551616"), "timeout_secs"), None);
    assert_eq!(u64_param(None, "timeout_secs"), None);
    assert_eq!(usize_param(Some("file=0&from=12&to=40"), "from"), Some(12));
    assert_eq!(usize_param(Some("file=0&from=12&to=40"), "to"), Some(40));
    assert_eq!(usize_param(Some("file=-1"), "file"), None);
}

#[test]
fn attribute_text_escapes_quotes_as_well() {
    assert_eq!(escape_attr_exec(r#"a "b" <c> & d"#), "a &quot;b&quot; &lt;c&gt; &amp; d");
    assert_eq!(escape_attr_exec("plain"), "plain");
}

#[test]
fn code_docs_and_the_brief_have_no_old_side() {
    let mut store = Store::new(None);
    let id = code_session(&mut store);
    let old = Anchor::line("a.rs".into(), 1, Side::Old);
    assert_eq!(store.with(&id, |s| snippet_for(s, &old)).unwrap(), None);

    let doc = DocFile { label: "d.md".into(), html: String::new(), sources: vec!["first".into()] };
    let id = store.insert("t".into(), None, Content::Docs { files: vec![doc] });
    let mut a = Anchor::line("d.md".into(), 1, Side::Old);
    assert_eq!(store.with(&id, |s| snippet_for(s, &a)).unwrap(), None);
    a.target = Some("doc:0".into());
    assert_eq!(store.with(&id, |s| snippet_for(s, &a)).unwrap(), None);
    a.side = Side::New;
    assert_eq!(store.with(&id, |s| snippet_for(s, &a)).unwrap().as_deref(), Some("first"));
}
