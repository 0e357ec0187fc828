use wdyt::session::{Comment, DiffLine, LineKind, Side};
use wdyt::ui::{
    line_class, marker, receipt_text, row_class, span_label, Page, Row, COMMENT_JS,
    DOC_COMMENT_JS, EXPAND_JS, FRAGMENT_JS, NAV_JS, REPLY_JS,
};
use wdyt::session::Hunk;
use wdyt::ui::{hunk_rows, hunk_section, receipt_stage};
use wdyt::session::{Ack, Reply};

#[test]
fn the_receipt_never_calls_a_mere_delivery_read() {
    let delivered = receipt_text("delivered");
    assert!(!delivered.contains("read"), "{delivered:?} overclaims");
    assert!(receipt_text("read").contains("read"));
}

#[test]
fn every_receipt_stage_has_its_own_words() {
    assert_eq!(receipt_text("read"), "The agent read this and replied");
    assert_eq!(
        receipt_text("delivered"),
        "Picked up by an agent, not yet acknowledged"
    );
    assert_eq!(receipt_text("waiting"), "Waiting for an agent to pick this up");
    assert_eq!(receipt_text(""), "Waiting for an agent to pick this up");
}

#[test]
fn comment_js_posts_to_the_session_it_was_rendered_for() {
    assert!(COMMENT_JS.contains("querySelector('[data-comments]')"));
    assert!(COMMENT_JS.contains("getAttribute('data-session')"));
    assert!(COMMENT_JS.contains("'/s/' + session + '/comments'"));
    assert!(COMMENT_JS.contains("classList.contains('notes')"));
}

#[test]
fn comment_js_uses_attribute_comparison_not_selector_interpolation() {
    assert!(
        !COMMENT_JS.contains(r#"'[data-file="' + file + '"]'"#),
        "unsafe selector interpolation found in COMMENT_JS"
    );
    assert!(COMMENT_JS.contains("getAttribute('data-file') === file"));
}

#[test]
fn comment_js_validates_line_numbers_as_safe_integers() {
    assert!(COMMENT_JS.contains("safeLineNo"));
    assert!(COMMENT_JS.contains("Number.MAX_SAFE_INTEGER"));
}

#[test]
fn comment_js_updates_url_on_range_gesture() {
    assert!(COMMENT_JS.contains("selFragment(filePath, side, lo, hi)"));
    assert!(COMMENT_JS.contains("history.replaceState(null, '', '#' + frag)"));
}

#[test]
fn a_drag_redraws_only_when_the_row_changes() {
    assert!(COMMENT_JS.contains("if (button === drag.to) return;"));
    assert!(COMMENT_JS.contains("siblingCache"));
    assert!(COMMENT_JS.contains("Object.create(null)"));
}

#[test]
fn expand_js_reveals_the_hidden_lines() {
    assert!(EXPAND_JS.contains("function paint(band)"));
    assert!(EXPAND_JS.contains("/context?file="));
    assert!(EXPAND_JS.contains("insertBefore(rows, band.nextSibling)"));
    assert!(EXPAND_JS.contains("insertBefore(rows, band)"));
    assert!(EXPAND_JS.contains("MAX_AT_ONCE"));
    assert!(EXPAND_JS.contains("add.className = 'addnote'"));
    assert!(EXPAND_JS.contains("CustomEvent('wdyt:revealed')"));
    assert!(COMMENT_JS.contains("addEventListener('wdyt:revealed'"));
}

#[test]
fn revealing_lines_keeps_the_page_still() {
    assert!(EXPAND_JS.contains("getBoundingClientRect().top"));
    assert!(EXPAND_JS.contains("window.scrollBy"));
}

#[test]
fn comment_js_renders_permalink_on_saved_comments() {
    assert!(COMMENT_JS.contains("permalink"));
    assert!(COMMENT_JS.contains("'#comment-' + comment.id"));
}

#[test]
fn a_range_can_be_dragged_and_is_bounded_to_one_file_and_side() {
    assert!(COMMENT_JS.contains("pointerdown"));
    assert!(COMMENT_JS.contains("pointerup"));
    assert!(COMMENT_JS.contains("data-file") && COMMENT_JS.contains("data-side"));
    assert!(COMMENT_JS.contains("end_line"), "the range is never sent");
    assert!(COMMENT_JS.contains("document.addEventListener('pointerup'"));
}

fn comment(line: usize, end_line: Option<usize>) -> Comment {
    Comment {
        id: 1,
        file: "a.rs".to_owned(),
        target: None,
        line,
        end_line,
        side: Side::New,
        snippet: String::new(),
        text: String::new(),
        at: 0,
        replies: Vec::new(),
        delivered_at: None,
    }
}

#[test]
fn a_ranged_comment_is_labelled() {
    assert_eq!(span_label(&comment(4, Some(9))).as_deref(), Some("L4–L9"));
    assert_eq!(span_label(&comment(4, None)), None);
    assert_eq!(span_label(&comment(4, Some(4))), None);
}

#[test]
fn line_classes_and_markers_agree() {
    assert_eq!(
        (line_class(LineKind::Added), marker(LineKind::Added)),
        ("add", "+")
    );
    assert_eq!(
        (line_class(LineKind::Removed), marker(LineKind::Removed)),
        ("del", "-")
    );
    assert_eq!(
        (line_class(LineKind::Context), marker(LineKind::Context)),
        ("ctx", " ")
    );
}

#[test]
fn a_row_in_a_range_is_marked() {
    let line = DiffLine {
        kind: LineKind::Removed,
        old: Some(3),
        new: None,
        text: "x".into(),
        html: "x".into(),
    };
    let mut row = Row {
        line,
        side: "old",
        line_no: 3,
        comments: vec![],
        in_range: false,
    };
    assert_eq!(row_class(&row), "del");
    row.in_range = true;
    assert_eq!(row_class(&row), "del inrange");
}

#[test]
fn the_index_page_has_no_session() {
    let page = Page::index();
    assert_eq!(page.title, "Sessions");
    assert_eq!(page.kind, "index");
    assert!(page.session_id.is_empty());
    assert!(!page.commentable && !page.hideable);
}

#[test]
fn reply_js_posts_json_and_is_not_escaped() {
    assert!(REPLY_JS.contains("application/json"));
    assert!(REPLY_JS.contains("metaKey || e.ctrlKey"));
}

#[test]
fn reply_js_bails_out_when_the_form_is_absent() {
    assert!(
        REPLY_JS.contains("if (!form || !box || !send || !error) return"),
        "missing the guard for a form-less panel"
    );
    let (open_close, sending) = REPLY_JS
        .split_once("if (!form || !box || !send || !error) return")
        .expect("guard present");
    assert!(open_close.contains("toggle.addEventListener('click'"));
    assert!(open_close.contains("open();"));
    assert!(sending.contains("form.addEventListener('submit'"));
}

#[test]
fn fragment_js_handles_comment_and_selection_anchors() {
    assert!(FRAGMENT_JS.contains("comment-"));
    assert!(FRAGMENT_JS.contains("parseSel"));
    assert!(FRAGMENT_JS.contains("highlightComment"));
    assert!(FRAGMENT_JS.contains("highlightSelection"));
}

#[test]
fn fragment_js_listens_to_hashchange_and_page_load() {
    assert!(FRAGMENT_JS.contains("addEventListener('hashchange'"));
    assert!(FRAGMENT_JS.contains("location.hash"));
    assert!(FRAGMENT_JS.contains("setTimeout(handleFragment"));
}

#[test]
fn fragment_js_updates_url_on_line_click() {
    assert!(FRAGMENT_JS.contains("history.replaceState"));
    assert!(FRAGMENT_JS.contains("selFragment"));
}

#[test]
fn fragment_js_falls_through_for_file_anchors() {
    assert!(FRAGMENT_JS.contains("clearHighlights"));
    assert!(FRAGMENT_JS.contains("indexOf('comment-') === 0"));
    assert!(FRAGMENT_JS.contains("indexOf('sel-') !== 0"));
}

#[test]
fn fragment_js_handles_hand_written_file_line_anchors() {
    assert!(FRAGMENT_JS.contains("parseFileLine"));
    assert!(FRAGMENT_JS.contains("highlightFileLine"));
    assert!(FRAGMENT_JS.contains("fileAnchor"));
    assert!(FRAGMENT_JS.contains(r"-L(\d+)$"));
    assert!(FRAGMENT_JS.contains("getAttribute('data-side') !== 'new'"));
}

#[test]
fn doc_comment_js_handles_hand_written_file_line_anchors() {
    assert!(DOC_COMMENT_JS.contains("parseFileLine"));
    assert!(DOC_COMMENT_JS.contains("handleDocFileLine"));
    assert!(DOC_COMMENT_JS.contains("sp.startLine <= fl.end && sp.endLine >= fl.start"));
    assert!(DOC_COMMENT_JS.contains("docFile === 'brief:'"));
}

#[test]
fn fragment_js_respects_reduced_motion() {
    assert!(FRAGMENT_JS.contains("prefers-reduced-motion: reduce"));
    assert!(FRAGMENT_JS.contains("scrollBehavior"));
    assert!(FRAGMENT_JS.contains("'auto'"));
}

#[test]
fn fragment_js_validates_safe_integers() {
    assert!(FRAGMENT_JS.contains("safeInt"));
    assert!(FRAGMENT_JS.contains("Number.MAX_SAFE_INTEGER"));
}

#[test]
fn fragment_js_iterates_dom_not_numeric_range() {
    assert!(FRAGMENT_JS.contains("querySelectorAll('.addnote')"));
    assert!(
        !FRAGMENT_JS.contains("line <= sel.end"),
        "fragment JS still uses numeric range iteration"
    );
}

#[test]
fn comment_js_includes_keyboard_hint_with_accessible_markup() {
    assert!(COMMENT_JS.contains("kb-hint"));
    assert!(COMMENT_JS.contains("<kbd"));
    assert!(COMMENT_JS.contains("<abbr"));
    assert!(COMMENT_JS.contains("aria-label"));
    assert!(COMMENT_JS.contains("ev.key === 'Escape'"));
    assert!(COMMENT_JS.contains("ev.metaKey || ev.ctrlKey"));
}

#[test]
fn doc_comment_js_includes_keyboard_hint() {
    assert!(DOC_COMMENT_JS.contains("kb-hint"));
    assert!(DOC_COMMENT_JS.contains("<kbd"));
    assert!(DOC_COMMENT_JS.contains("<abbr"));
}

#[test]
fn nav_js_uses_intersection_observer_and_passive_scroll() {
    assert!(NAV_JS.contains("IntersectionObserver"));
    assert!(NAV_JS.contains("passive: true"));
    assert!(NAV_JS.contains("prefers-reduced-motion: reduce"));
    assert!(NAV_JS.contains("'auto' : 'smooth'"));
}

#[test]
fn comment_js_keyboard_hint_renders_ctrl_on_non_mac() {
    assert!(
        COMMENT_JS.contains(r"'\u2318+Enter' : 'Ctrl+Enter'")
            || COMMENT_JS.contains(r#"'\u2318+Enter' : 'Ctrl+Enter'"#),
        "COMMENT_JS visible hint not platform-conditional"
    );
    assert!(
        !COMMENT_JS.contains(r#"'>\u2318+Enter</abbr> send"#),
        "COMMENT_JS still hard-codes Mac glyph without condition"
    );
}

#[test]
fn doc_comment_js_keyboard_hint_renders_ctrl_on_non_mac() {
    assert!(
        DOC_COMMENT_JS.contains(r"'\u2318+Enter' : 'Ctrl+Enter'")
            || DOC_COMMENT_JS.contains(r#"'\u2318+Enter' : 'Ctrl+Enter'"#),
        "DOC_COMMENT_JS visible hint not platform-conditional"
    );
}

#[test]
fn jump_to_top_respects_reduced_motion() {
    assert!(
        NAV_JS.contains("prefers-reduced-motion: reduce"),
        "NAV_JS does not query reduced motion"
    );
    assert!(
        NAV_JS.contains("prefersReduced") || NAV_JS.contains("prefers-reduced-motion"),
        "NAV_JS does not store reduced motion preference"
    );
    assert!(
        NAV_JS.contains("'auto' : 'smooth'") || NAV_JS.contains("'auto':'smooth'"),
        "NAV_JS does not conditionally use 'auto' for reduced motion"
    );
    let smooth_count = NAV_JS.matches("behavior: 'smooth'").count();
    assert_eq!(
        smooth_count, 0,
        "NAV_JS has unconditional 'smooth' scrolling ({smooth_count} occurrences)"
    );
}

fn hunk_line(kind: LineKind, old: Option<usize>, new: Option<usize>) -> DiffLine {
    DiffLine { kind, old, new, text: "t".into(), html: "h".into() }
}

#[test]
fn hunk_rows_hang_comments_under_their_last_line() {
    let hunk = Hunk {
        header: "@@ -1,2 +1,3 @@".into(),
        lines: vec![
            hunk_line(LineKind::Context, Some(1), Some(1)),
            hunk_line(LineKind::Removed, Some(2), None),
            hunk_line(LineKind::Added, None, Some(2)),
            hunk_line(LineKind::Added, None, Some(3)),
        ],
        old_start: 1,
        new_start: 1,
    };
    let mut ranged = comment(1, Some(2));
    ranged.id = 7;
    let mut old_side = comment(2, None);
    old_side.side = Side::Old;
    old_side.id = 8;
    let mut elsewhere = comment(2, None);
    elsewhere.file = "b.rs".into();
    let mut targeted = comment(3, None);
    targeted.target = Some("guided:0".into());
    let rows = hunk_rows("a.rs", &hunk, &vec![ranged, old_side, elsewhere, targeted]);
    assert_eq!(rows.len(), 4);
    assert_eq!((rows[0].side, rows[0].line_no), ("new", 1));
    assert_eq!((rows[1].side, rows[1].line_no), ("old", 2));
    assert_eq!((rows[2].side, rows[2].line_no), ("new", 2));
    assert!(rows[0].in_range && rows[2].in_range);
    assert!(!rows[1].in_range && !rows[3].in_range);
    assert!(rows[0].comments.is_empty());
    assert_eq!(rows[1].comments.iter().map(|c| c.id).collect::<Vec<_>>(), [8]);
    assert_eq!(rows[2].comments.iter().map(|c| c.id).collect::<Vec<_>>(), [7]);
    assert!(rows[3].comments.is_empty(), "a targeted comment landed in the diff");
}

#[test]
fn a_hunk_section_is_what_follows_the_last_marker() {
    assert_eq!(hunk_section("@@ -1,5 +1,7 @@ fn foo()").as_deref(), Some("fn foo()"));
    assert_eq!(hunk_section("@@ -1,5 +1,7 @@"), None);
    assert_eq!(hunk_section("@@ -1 +1 @@   "), None);
    assert_eq!(hunk_section("no markers"), None);
}

#[test]
fn a_reply_is_read_only_once_acknowledged() {
    let mut reply = Reply { text: "ship it".to_owned(), at: 10, delivered_at: None, ack: None };
    assert_eq!(receipt_stage(&reply), "waiting");
    reply.delivered_at = Some(11);
    assert_eq!(receipt_stage(&reply), "delivered");
    reply.ack = Some(Ack { note: "merging".to_owned(), at: 12 });
    assert_eq!(receipt_stage(&reply), "read");
}
