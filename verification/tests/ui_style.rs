use wdyt::render::ThemeColors;
use wdyt::session::{Comment, Side};
use wdyt::ui::{
    span_label, stylesheet, CHROME_JS, COMMENT_JS, DOC_COMMENT_JS, EXPAND_JS, NAV_JS, REPLY_JS,
    THREAD_JS,
};

/// A dark palette, as a theme such as Nord gives it.
fn nord() -> ThemeColors {
    ThemeColors {
        background: "#2e3440".into(),
        foreground: "#d8dee9".into(),
        gutter: "#3b4252".into(),
        border: "#434c5e".into(),
        muted: "#7b8394".into(),
        dark: true,
    }
}

/// A light palette, as a theme such as InspiredGitHub gives it.
fn github() -> ThemeColors {
    ThemeColors {
        background: "#ffffff".into(),
        foreground: "#323232".into(),
        gutter: "#f5f5f5".into(),
        border: "#e1e1e1".into(),
        muted: "#8a8a8a".into(),
        dark: false,
    }
}

#[test]
fn the_syntax_theme_reaches_the_code_card_only() {
    let colors = nord();
    let css = stylesheet(&colors);
    assert!(css.contains(&format!("--code-bg: {}", colors.background)), "{css}");
    assert!(css.contains("--bg: #faf9f5"), "{css}");
    assert!(css.contains("color-scheme: light"), "{css}");
    assert!(css.contains("position: fixed"));
}

#[test]
fn the_chrome_does_not_change_with_the_theme() {
    let dark = stylesheet(&nord());
    let light = stylesheet(&github());
    let strip = |css: &str| {
        css.lines()
            .filter(|line| !line.trim_start().starts_with("--code-"))
            .collect::<Vec<_>>()
            .join("\n")
    };
    assert_eq!(strip(&dark), strip(&light));
    assert_ne!(dark, light);
}

#[test]
fn framed_modes_share_the_full_viewport_rules() {
    let css = stylesheet(&nord());
    assert!(css.contains("body.framed main { position: relative; }"));
    assert!(css.contains(".framewrap { position: absolute"));
}

#[test]
fn markdown_alerts_are_styled() {
    let css = stylesheet(&nord());
    assert!(css.contains(".markdown-alert-title"));
    assert!(css.contains(".markdown-alert-warning"));
}

#[test]
fn the_toggle_outranks_the_generic_button_rule() {
    let css = stylesheet(&nord());
    assert!(css.contains("#reply #toggle {"), "{css}");
    for line in css.lines() {
        assert!(!line.starts_with("#toggle"), "under-specific toggle rule: {line}");
    }
}

#[test]
fn the_widget_can_be_dragged_off_the_default_corner() {
    let css = stylesheet(&nord());
    assert!(css.contains("#reply.moved { right: auto; bottom: auto; }"), "{css}");
    assert!(REPLY_JS.contains("root.classList.add('moved')"));
    assert!(css.contains("#reply .grip"), "{css}");
    assert!(REPLY_JS.contains("reply-shield"));
    assert!(css.contains("#reply-shield"), "{css}");
    assert!(REPLY_JS.contains("justDragged"));
}

#[test]
fn the_top_bar_can_be_hidden() {
    let css = stylesheet(&nord());
    assert!(css.contains("body.nochrome header.bar"), "{css}");
    assert!(css.contains("body.nochrome #chrome-show { display: block; }"), "{css}");
    assert!(CHROME_JS.contains("chrome-toggle"));
    assert!(CHROME_JS.contains("chrome-show"));
    assert!(CHROME_JS.contains("wdyt.chrome.hidden"));
}

#[test]
fn the_read_receipt_has_all_three_states() {
    let css = stylesheet(&nord());
    assert!(css.contains("#reply .receipt.waiting .dot"), "{css}");
    assert!(css.contains("#reply .receipt.delivered .dot"), "{css}");
    assert!(css.contains("#reply .receipt.read .dot"), "{css}");
    assert!(css.contains("#reply .acknote"), "no style for the ack note: {css}");
    assert!(css.contains("prefers-reduced-motion"), "{css}");
    assert!(REPLY_JS.contains("'/status'") || REPLY_JS.contains("/status'"));
    assert!(!REPLY_JS.contains("/reply?"), "the page must not long-poll");
    assert!(REPLY_JS.contains("if (s.ack) stop = true"));
    assert!(
        !REPLY_JS.contains("if (s.delivered) stop"),
        "the poll gave up at delivery, so a later ack would never show"
    );
}

#[test]
fn the_comment_editor_floats_rather_than_reflowing_the_table() {
    assert!(COMMENT_JS.contains("box.className = 'notebox'"));
    assert!(COMMENT_JS.contains("document.body.appendChild(box)"));
    assert!(
        !COMMENT_JS.contains("row.className = 'pending'"),
        "the editor is a pending row again"
    );
    assert!(COMMENT_JS.contains("window.scrollX"));
    assert!(COMMENT_JS.contains("window.scrollY"));

    let css = stylesheet(&nord());
    assert!(css.contains(".notebox {\n  position: absolute;"), "{css}");
    assert!(
        !css.contains("table.src.commentable .notebox"),
        "the editor's rules still require it to be inside the table: {css}"
    );
    assert!(!css.contains("tr.pending"), "dead pending-row rules: {css}");
}

#[test]
fn the_gutter_sticks_only_while_the_code_is_panned() {
    let css = stylesheet(&nord());
    assert!(
        css.contains(".codebox.panned table.src td.ln { position: sticky; left: 0; }"),
        "{css}"
    );
    assert!(
        !css.contains("position: sticky; left: 0; background: var(--code-bg)"),
        "the gutter is unconditionally sticky again: {css}"
    );
    assert!(NAV_JS.contains("classList.toggle('panned', panned)"));
    assert!(NAV_JS.contains("codebox.scrollLeft > 0"));
    assert!(NAV_JS.contains("{ passive: true }"));
}

#[test]
fn the_hidden_lines_can_be_revealed() {
    assert!(EXPAND_JS.contains("function paint(band)"));
    assert!(EXPAND_JS.contains("/context?file="));
    assert!(EXPAND_JS.contains("insertBefore(rows, band.nextSibling)"));
    assert!(EXPAND_JS.contains("insertBefore(rows, band)"));
    assert!(EXPAND_JS.contains("MAX_AT_ONCE"));
    assert!(EXPAND_JS.contains("add.className = 'addnote'"));
    assert!(EXPAND_JS.contains("CustomEvent('wdyt:revealed')"));
    assert!(COMMENT_JS.contains("addEventListener('wdyt:revealed'"));

    let css = stylesheet(&nord());
    assert!(css.contains("table.src.diff tr.gap td"), "{css}");
    assert!(css.contains("table.src.diff tr.gap button"), "{css}");
}

#[test]
fn a_thread_shows_who_said_what_and_who_is_waiting() {
    let css = stylesheet(&nord());
    assert!(css.contains(".note .said.agent"), "{css}");
    assert!(css.contains(".note .threadfoot"), "{css}");
    assert!(css.contains(".note .threadfoot .waiting .dot"), "{css}");
    assert!(css.contains(".note .threadfoot .delivered .dot"), "{css}");
    assert!(THREAD_JS.contains("'/s/' + session + '/threads'"));
    assert!(
        !THREAD_JS.contains("threads/next"),
        "the page must not take questions from the agent"
    );
    assert!(THREAD_JS.contains("'/messages'"));
    assert!(THREAD_JS.contains("visibilitychange"));
    assert!(THREAD_JS.contains("document.body.appendChild(box)"));
    assert!(THREAD_JS.contains("box.className = 'notebox'"));
    assert!(COMMENT_JS.contains("CustomEvent('wdyt:commented')"));
    assert!(THREAD_JS.contains("addEventListener('wdyt:commented'"));
    assert!(COMMENT_JS.contains("setAttribute('data-thread'"));
}

#[test]
fn a_ranged_comment_is_labelled_and_marked() {
    let css = stylesheet(&nord());
    assert!(css.contains("tr.inrange td.code"), "{css}");
    assert!(css.contains("box-shadow: inset 3px 0 0 var(--accent)"), "{css}");
    assert!(css.contains("tr.selecting"), "no drag feedback: {css}");

    let ranged = Comment {
        id: 1,
        file: "a.rs".to_owned(),
        target: None,
        line: 4,
        end_line: Some(9),
        side: Side::New,
        snippet: String::new(),
        text: String::new(),
        at: 0,
        replies: Vec::new(),
        delivered_at: None,
    };
    assert_eq!(span_label(&ranged).as_deref(), Some("L4–L9"));
    let single = Comment { end_line: None, ..ranged.clone() };
    assert_eq!(span_label(&single), None);
    let degenerate = Comment { end_line: Some(4), ..ranged };
    assert_eq!(span_label(&degenerate), None);
}

#[test]
fn diff_rows_are_tinted_and_commentable() {
    let css = stylesheet(&nord());
    assert!(css.contains("table.src.diff tr.add td"), "{css}");
    assert!(css.contains("table.src.diff tr.del td"), "{css}");
    assert!(css.contains("var(--code-bg)"), "{css}");
    assert!(css.contains("table.src.commentable .addnote"), "{css}");
    assert!(css.contains("position: absolute; left: 1px"), "{css}");
}

#[test]
fn deep_link_highlight_styles_exist() {
    let css = stylesheet(&nord());
    assert!(css.contains("tr.sel-highlight td"), "{css}");
    assert!(css.contains(".note.sel-highlight"), "{css}");
    assert!(css.contains("wdyt-flash"), "{css}");
    assert!(css.contains("prefers-reduced-motion"), "{css}");
    assert!(css.contains(".note .permalink"), "{css}");
}

#[test]
fn keyboard_hint_is_styled_unobtrusively() {
    let css = stylesheet(&nord());
    assert!(css.contains(".kb-hint"));
    assert!(DOC_COMMENT_JS.contains("aria-label"));
}

#[test]
fn jump_to_top_is_styled_and_hidden_on_framed() {
    let css = stylesheet(&nord());
    assert!(css.contains("#jump-top"), "no jump-to-top CSS");
    assert!(css.contains("body.framed #jump-top"), "framed pages must hide jump-to-top");
    assert!(css.contains("max-width: 600px"));
}

#[test]
fn sidebar_desktop_rules_are_responsive() {
    let css = stylesheet(&nord());
    assert!(css.contains("min-width: 1380px"));
    assert!(css.contains("nav.files.has-sidebar"));
    assert!(css.contains("nav.files a.active"));
    assert!(css.contains("has-file-sidebar main"));
}

#[test]
fn nochrome_does_not_activate_sidebar() {
    let css = stylesheet(&nord());
    assert!(css.contains("not(.nochrome)"));
}

#[test]
fn narrow_nav_is_single_row_scrollable_strip() {
    let css = stylesheet(&nord());
    assert!(css.contains("max-width: 1379px"), "no narrow breakpoint: {css}");
    assert!(css.contains("flex-wrap: nowrap"), "narrow nav not forced to nowrap: {css}");
    assert!(css.contains("overflow-x: auto"), "narrow nav missing horizontal scroll: {css}");
    assert!(
        css.contains("-webkit-overflow-scrolling: touch"),
        "narrow nav missing touch scrolling: {css}"
    );
    assert!(css.contains("scrollbar-width: thin"), "narrow nav missing thin scrollbar: {css}");
    assert!(
        css.contains("nav.files.has-sidebar a {\n    white-space: nowrap; flex: 0 0 auto;")
            || css.contains("white-space: nowrap; flex: 0 0 auto;"),
        "narrow nav links not set to nowrap: {css}"
    );
    assert!(
        css.contains("scroll-margin-top: 92px"),
        "narrow nav missing scroll-margin for anchors: {css}"
    );
}

#[test]
fn desktop_brief_and_wrap_share_left_axis() {
    let css = stylesheet(&nord());
    assert!(
        css.contains("has-file-sidebar section.brief {\n    margin-left: 200px;")
            || css.contains("has-file-sidebar section.brief {\n    margin-left: 200px"),
        "brief not shifted by sidebar width: {css}"
    );
    assert!(
        css.contains("100% - 200px - 1100px"),
        "brief padding formula does not account for sidebar width: {css}"
    );
}

#[test]
fn active_link_styling_is_global_not_desktop_only() {
    let css = stylesheet(&nord());
    assert!(css.contains("nav.files a.active"), "no global active link rule: {css}");
    assert!(
        css.contains("nav.files a.active {\n  background: var(--surface)")
            || css.contains("nav.files a.active {"),
        "active rule missing styling: {css}"
    );
}

#[test]
fn permalink_visible_on_focus_not_hover_only_code_diff() {
    let css = stylesheet(&nord());
    assert!(css.contains(".note .permalink:focus"), "not visible on :focus: {css}");
    assert!(css.contains(".note .permalink:focus-visible"), "not visible on :focus-visible: {css}");
}

#[test]
fn permalink_visible_on_focus_not_hover_only_docs() {
    let css = stylesheet(&nord());
    assert!(css.contains(".doc .doc-notes .note .permalink:focus"), "{css}");
    assert!(css.contains(".doc .doc-notes .note .permalink:focus-visible"), "{css}");
}
