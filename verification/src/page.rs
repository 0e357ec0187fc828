//! The pages the daemon serves, as HTML. Every piece of text a reader or an
//! agent wrote (titles, notes, labels, comments, replies, messages) reaches
//! the page through `escape_markup` in text or `escape_attr` in attributes;
//! what is inserted as it is, is markup the library or syntect made.

use vstd::prelude::*;

use crate::diff::Gap;
use crate::session::{Comment, CommentView, DiffLine, Hunk, MessageView, Reply};
use crate::text::{chars_of, decimal, escape_attr, escape_markup, push_decimal, push_str, string_of};
use crate::render::ThemeColors;
use crate::ui::{covers, hanging, row_number, row_side, spec_line_class, spec_marker, Page};
use crate::zellij_origin::Origin;

verus! {

// ---------------------------------------------------------------------------
// Building blocks.
// ---------------------------------------------------------------------------

/// Appends `s` escaped for text.
#[verifier::rlimit(30)]
#[verifier::spinoff_prover]
fn push_text(out: &mut Vec<char>, s: &str)
    ensures
        final(out)@ == old(out)@ + escape_markup(s@),
{
    let e = crate::text::escape_markup_exec(s);
    push_str(out, e.as_str());
}

/// Appends `s` escaped for a double-quoted attribute.
#[verifier::rlimit(30)]
#[verifier::spinoff_prover]
fn push_attr(out: &mut Vec<char>, s: &str)
    ensures
        final(out)@ == old(out)@ + escape_attr(s@),
{
    let e = crate::text::escape_attr_exec(s);
    push_str(out, e.as_str());
}

/// Whether line links can be made for `file`: its encoded form fits.
pub open spec fn linkable(file: Seq<char>) -> bool {
    vstd::utf8::encode_utf8(file).len() * 4 <= usize::MAX
}

#[verifier::rlimit(30)]
#[verifier::spinoff_prover]
fn is_linkable(file: &str) -> (r: bool)
    ensures
        r == linkable(file@),
{
    !crate::text::utf8_len_exceeds(&chars_of(file), usize::MAX / 4)
}

// ---------------------------------------------------------------------------
// Threads.
// ---------------------------------------------------------------------------

/// One message under a comment: who said it, and what.
pub open spec fn message_html(m: MessageView) -> Seq<char> {
    let (class, who) = match m.from {
        crate::session::Author::Agent => ("said agent"@, "agent"@),
        crate::session::Author::User => ("said user"@, "you"@),
    };
    "<div class=\""@ + class + "\" data-message=\""@ + decimal(m.id as nat) + "\"><span class=\"who\">"@ + who
        + "</span>"@ + escape_markup(m.text) + "</div>"@
}

/// The messages of a thread, in order.
pub open spec fn messages_html(ms: Seq<MessageView>) -> Seq<char>
    decreases ms.len(),
{
    if ms.len() == 0 {
        Seq::empty()
    } else {
        messages_html(ms.drop_last()) + message_html(ms.last())
    }
}

/// The span a ranged comment covers, as its label shows it.
pub open spec fn span_html(c: CommentView) -> Seq<char> {
    match c.end_line {
        Some(end) => if end > c.line {
            "<span class=\"span\">L"@ + decimal(c.line as nat) + "\u{2013}L"@ + decimal(end as nat)
                + "</span>"@
        } else {
            Seq::empty()
        },
        None => Seq::empty(),
    }
}

/// One comment and the discussion under it. The foot (receipt and reply
/// control) is painted by the thread script.
pub open spec fn thread_html(c: CommentView) -> Seq<char> {
    "<div class=\"note\" id=\"comment-"@ + decimal(c.id as nat) + "\" data-thread=\""@ + decimal(c.id as nat)
        + "\"><span class=\"who\">you"@ + span_html(c) + "</span><a class=\"permalink\" href=\"#"@
        + crate::fragment::spec_comment_fragment(c.id as nat) + "\" title=\"Link to this comment\">#</a>"@
        + escape_markup(c.text) + messages_html(c.replies) + "<div class=\"threadfoot\"></div></div>"@
}

/// Several threads, in order.
pub open spec fn threads_html(cs: Seq<CommentView>) -> Seq<char>
    decreases cs.len(),
{
    if cs.len() == 0 {
        Seq::empty()
    } else {
        threads_html(cs.drop_last()) + thread_html(cs.last())
    }
}

/// The row of threads beneath a line; nothing when no comment hangs there.
pub open spec fn notes_row_html(cs: Seq<CommentView>) -> Seq<char> {
    if cs.len() == 0 {
        Seq::empty()
    } else {
        "<tr class=\"notes\"><td class=\"ln\" colspan=\"2\"></td><td class=\"code\">"@ + threads_html(cs)
            + "</td></tr>"@
    }
}

#[verifier::rlimit(30)]
#[verifier::spinoff_prover]
fn push_message(out: &mut Vec<char>, m: &crate::session::Message)
    ensures
        final(out)@ == old(out)@ + message_html(m@),
{
    let ghost start = out@;
    let (class, who) = crate::ui::said_by(m.from);
    push_str(out, "<div class=\"");
    push_str(out, class);
    push_str(out, "\" data-message=\"");
    push_decimal(out, m.id);
    push_str(out, "\"><span class=\"who\">");
    push_str(out, who);
    push_str(out, "</span>");
    push_text(out, m.text.as_str());
    push_str(out, "</div>");
    assert(out@ =~= start + message_html(m@));
}

#[verifier::rlimit(30)]
#[verifier::spinoff_prover]
fn push_messages(out: &mut Vec<char>, ms: &Vec<crate::session::Message>)
    ensures
        final(out)@ == old(out)@ + messages_html(crate::session::messages_view(ms@)),
{
    let ghost start = out@;
    let ghost v = crate::session::messages_view(ms@);
    let mut i: usize = 0;
    assert(v.take(0) =~= Seq::<MessageView>::empty());
    while i < ms.len()
        invariant
            i <= ms.len(),
            v == crate::session::messages_view(ms@),
            out@ == start + messages_html(v.take(i as int)),
        decreases ms.len() - i,
    {
        assert(v.take(i + 1).drop_last() =~= v.take(i as int));
        assert(v[i as int] == ms@[i as int]@);
        push_message(out, &ms[i]);
        i = i + 1;
    }
    assert(v.take(i as int) =~= v);
}

#[verifier::rlimit(30)]
#[verifier::spinoff_prover]
fn push_span(out: &mut Vec<char>, c: &Comment)
    ensures
        final(out)@ == old(out)@ + span_html(c@),
{
    let ghost start = out@;
    match c.end_line {
        Some(end) => {
            if end > c.line {
                push_str(out, "<span class=\"span\">L");
                push_decimal(out, c.line as u64);
                push_str(out, "\u{2013}L");
                push_decimal(out, end as u64);
                push_str(out, "</span>");
            }
        },
        None => {},
    }
    assert(out@ =~= start + span_html(c@));
}

#[verifier::rlimit(30)]
#[verifier::spinoff_prover]
fn push_thread(out: &mut Vec<char>, c: &Comment)
    ensures
        final(out)@ == old(out)@ + thread_html(c@),
{
    let ghost start = out@;
    push_str(out, "<div class=\"note\" id=\"comment-");
    push_decimal(out, c.id);
    push_str(out, "\" data-thread=\"");
    push_decimal(out, c.id);
    push_str(out, "\"><span class=\"who\">you");
    push_span(out, c);
    push_str(out, "</span><a class=\"permalink\" href=\"#");
    let f = crate::fragment::comment_fragment(c.id);
    push_str(out, f.as_str());
    push_str(out, "\" title=\"Link to this comment\">#</a>");
    push_text(out, c.text.as_str());
    push_messages(out, &c.replies);
    push_str(out, "<div class=\"threadfoot\"></div></div>");
    assert(out@ =~= start + thread_html(c@));
}

/// One comment and the discussion under it, as it hangs under its line.
#[verifier::rlimit(30)]
#[verifier::spinoff_prover]
pub fn thread(comment: &Comment) -> (r: String)
    ensures
        r@ == thread_html(comment@),
{
    let mut out: Vec<char> = Vec::new();
    push_thread(&mut out, comment);
    assert(out@ =~= thread_html(comment@));
    string_of(&out)
}

#[verifier::rlimit(30)]
#[verifier::spinoff_prover]
fn push_notes_row(out: &mut Vec<char>, cs: &Vec<Comment>)
    ensures
        final(out)@ == old(out)@ + notes_row_html(crate::session::comments_view(cs@)),
{
    let ghost v = crate::session::comments_view(cs@);
    if cs.len() == 0 {
        assert(out@ =~= old(out)@ + notes_row_html(v));
        return;
    }
    let ghost start = out@;
    push_str(out, "<tr class=\"notes\"><td class=\"ln\" colspan=\"2\"></td><td class=\"code\">");
    let ghost head = out@;
    let mut i: usize = 0;
    assert(v.take(0) =~= Seq::<CommentView>::empty());
    while i < cs.len()
        invariant
            i <= cs.len(),
            v == crate::session::comments_view(cs@),
            out@ == head + threads_html(v.take(i as int)),
        decreases cs.len() - i,
    {
        assert(v.take(i + 1).drop_last() =~= v.take(i as int));
        assert(v[i as int] == cs@[i as int]@);
        push_thread(out, &cs[i]);
        i = i + 1;
    }
    assert(v.take(i as int) =~= v);
    push_str(out, "</td></tr>");
    assert(out@ =~= start + notes_row_html(v));
}

// ---------------------------------------------------------------------------
// The reply box.
// ---------------------------------------------------------------------------

/// The head of the reply panel: a grip to drag it by.
pub open spec fn panel_head() -> Seq<char> {
    "<div class=\"head\"><span class=\"grip\" title=\"Drag to move\" aria-hidden=\"true\">\u{283f}</span>"@
}

/// The reply box of session `id`: a sent reply with its receipt and the
/// agent's own words once it acknowledged, or a form to send one; nothing
/// on a page with no session.
pub open spec fn spec_reply_widget(id: Seq<char>, existing: Option<Reply>) -> Seq<char> {
    if id.len() == 0 {
        Seq::empty()
    } else {
        "<div id=\"reply\" class=\"reply\" data-session=\""@ + escape_attr(id) + "\">"@ + match existing {
            Some(r) => {
                let stage = crate::ui::spec_receipt_stage(r);
                "<button id=\"toggle\" type=\"button\" class=\""@ + (if r.ack is Some {
                    "done read"@
                } else {
                    "done"@
                }) + "\">Reply sent</button><div class=\"panel\">"@ + panel_head()
                    + "Reply</div><p class=\"sent\" style=\"margin: 0\"><b>Sent to the agent</b><br>"@
                    + escape_markup(r.text@) + "</p><p class=\"receipt "@ + stage
                    + "\"><span class=\"dot\"></span><span class=\"text\">"@
                    + crate::ui::spec_receipt_text(stage) + "</span></p>"@ + (match r.ack {
                    Some(a) => "<p class=\"acknote\">"@ + escape_markup(a.note@) + "</p>"@,
                    None => Seq::empty(),
                })
                    + "<div class=\"row\"><span class=\"spacer\"></span><button type=\"button\" class=\"close\">Close</button></div></div>"@
            },
            None => "<button id=\"toggle\" type=\"button\">Reply to agent</button><div class=\"panel\">"@
                + panel_head() + "Reply to agent</div><form action=\"/s/"@ + escape_attr(id)
                + "/reply\" method=\"post\"><textarea name=\"text\" placeholder=\"Send a note back to the agent\u{2026}\" aria-label=\"Reply to the agent\"></textarea><p class=\"error\" role=\"alert\"></p><div class=\"row\"><span class=\"hint\">\u{2318}/Ctrl + Enter to send</span><button type=\"button\" class=\"close\">Close</button><button type=\"submit\" class=\"primary\">Send</button></div></form></div>"@,
        } + "</div><script>"@ + crate::ui::REPLY_JS@ + "</script>"@
    }
}

/// The floating reply box for session `session_id`.
#[verifier::rlimit(30)]
#[verifier::spinoff_prover]
pub fn reply_widget(session_id: &str, existing: &Option<Reply>) -> (r: String)
    ensures
        r@ == spec_reply_widget(session_id@, *existing),
{
    let mut out: Vec<char> = Vec::new();
    if chars_of(session_id).len() == 0 {
        return string_of(&out);
    }
    push_str(&mut out, "<div id=\"reply\" class=\"reply\" data-session=\"");
    push_attr(&mut out, session_id);
    push_str(&mut out, "\">");
    match existing {
        Some(r) => {
            let stage = crate::ui::receipt_stage(r);
            push_str(&mut out, "<button id=\"toggle\" type=\"button\" class=\"");
            if r.ack.is_some() {
                push_str(&mut out, "done read");
            } else {
                push_str(&mut out, "done");
            }
            push_str(&mut out, "\">Reply sent</button><div class=\"panel\">");
            push_str(&mut out, "<div class=\"head\"><span class=\"grip\" title=\"Drag to move\" aria-hidden=\"true\">\u{283f}</span>");
            push_str(&mut out, "Reply</div><p class=\"sent\" style=\"margin: 0\"><b>Sent to the agent</b><br>");
            push_text(&mut out, r.text.as_str());
            push_str(&mut out, "</p><p class=\"receipt ");
            push_str(&mut out, stage);
            push_str(&mut out, "\"><span class=\"dot\"></span><span class=\"text\">");
            push_str(&mut out, crate::ui::receipt_text(stage));
            push_str(&mut out, "</span></p>");
            match &r.ack {
                Some(a) => {
                    push_str(&mut out, "<p class=\"acknote\">");
                    push_text(&mut out, a.note.as_str());
                    push_str(&mut out, "</p>");
                },
                None => {},
            }
            push_str(&mut out, "<div class=\"row\"><span class=\"spacer\"></span><button type=\"button\" class=\"close\">Close</button></div></div>");
        },
        None => {
            push_str(&mut out, "<button id=\"toggle\" type=\"button\">Reply to agent</button><div class=\"panel\">");
            push_str(&mut out, "<div class=\"head\"><span class=\"grip\" title=\"Drag to move\" aria-hidden=\"true\">\u{283f}</span>");
            push_str(&mut out, "Reply to agent</div><form action=\"/s/");
            push_attr(&mut out, session_id);
            push_str(&mut out, "/reply\" method=\"post\"><textarea name=\"text\" placeholder=\"Send a note back to the agent\u{2026}\" aria-label=\"Reply to the agent\"></textarea><p class=\"error\" role=\"alert\"></p><div class=\"row\"><span class=\"hint\">\u{2318}/Ctrl + Enter to send</span><button type=\"button\" class=\"close\">Close</button><button type=\"submit\" class=\"primary\">Send</button></div></form></div>");
        },
    }
    push_str(&mut out, "</div><script>");
    push_str(&mut out, crate::ui::REPLY_JS);
    push_str(&mut out, "</script>");
    proof {
        assert(out@ =~= spec_reply_widget(session_id@, *existing));
    }
    string_of(&out)
}


// ---------------------------------------------------------------------------
// A diff hunk.
// ---------------------------------------------------------------------------

/// Whether some comment's range covers line `n` on `side` of `file`.
pub open spec fn in_range(cs: Seq<Comment>, file: Seq<char>, side: Seq<char>, n: usize) -> bool {
    exists|k: int| 0 <= k < cs.len() && #[trigger] covers(cs[k]@, file, side, n)
}

/// A line-number cell: a link to the line when it is addressed on this side.
pub open spec fn ln_cell(class: Seq<char>, file: Seq<char>, number: Option<usize>, linked: bool) -> Seq<char> {
    match number {
        Some(n) => if linked && linkable(file) {
            "<td class=\"ln "@ + class + "\"><a href=\"#"@ + crate::fragment::spec_line_fragment(file, class, n as nat)
                + "\">"@ + decimal(n as nat) + "</a></td>"@
        } else {
            "<td class=\"ln "@ + class + "\">"@ + decimal(n as nat) + "</td>"@
        },
        None => "<td class=\"ln "@ + class + "\"></td>"@,
    }
}

/// The opening of a hunk line's row: its kind, and whether a ranged
/// comment covers it.
pub open spec fn row_open(file: Seq<char>, l: DiffLine, cs: Seq<Comment>) -> Seq<char> {
    "<tr class=\""@ + spec_line_class(l.kind) + (if in_range(cs, file, row_side(l.kind), row_number(l)) {
        " inrange"@
    } else {
        Seq::empty()
    }) + "\">"@
}

/// A hunk line's two number cells; the side it is addressed on links.
pub open spec fn row_cells(file: Seq<char>, l: DiffLine) -> Seq<char> {
    ln_cell("old"@, file, l.old, l.kind == crate::session::LineKind::Removed) + ln_cell(
        "new"@,
        file,
        l.new,
        l.kind != crate::session::LineKind::Removed,
    )
}

/// A hunk line's code cell, with its comment button.
pub open spec fn row_code(file: Seq<char>, l: DiffLine) -> Seq<char> {
    "<td class=\"code\"><button type=\"button\" class=\"addnote\" title=\"Comment on this line, or drag to cover more\" data-file=\""@
        + escape_attr(file) + "\" data-line=\""@ + decimal(row_number(l) as nat) + "\" data-side=\""@
        + row_side(l.kind) + "\">+</button><span class=\"marker\">"@ + spec_marker(l.kind) + "</span>"@ + l.html@
        + "</td></tr>"@
}

/// One line of a hunk with its comment button, and the threads under it.
pub open spec fn diff_row_html(file: Seq<char>, l: DiffLine, cs: Seq<Comment>) -> Seq<char> {
    row_open(file, l, cs) + row_cells(file, l) + row_code(file, l) + notes_row_html(
        hanging(crate::session::comments_view(cs), file, row_side(l.kind), row_number(l)),
    )
}

/// The lines of a hunk, in order.
pub open spec fn diff_rows_html(file: Seq<char>, ls: Seq<DiffLine>, cs: Seq<Comment>) -> Seq<char>
    decreases ls.len(),
{
    if ls.len() == 0 {
        Seq::empty()
    } else {
        diff_rows_html(file, ls.drop_last(), cs) + diff_row_html(file, ls.last(), cs)
    }
}

/// A band standing for lines the diff leaves out, painted into reveal
/// controls by the expand script.
pub open spec fn gap_row_html(file: Seq<char>, index: usize, gap: Gap, place: Seq<char>, section: Option<
    Seq<char>,
>) -> Seq<char> {
    "<tr class=\"gap\" data-file=\""@ + escape_attr(file) + "\" data-index=\""@ + decimal(index as nat)
        + "\" data-from=\""@ + decimal(gap.from as nat) + "\" data-to=\""@ + decimal(gap.to as nat)
        + "\" data-place=\""@ + place + "\"><td class=\"ln\" colspan=\"2\"></td><td class=\"code\">"@ + (match section {
        Some(t) => "<span class=\"section\">"@ + escape_markup(t) + "</span>"@,
        None => Seq::empty(),
    }) + "</td></tr>"@
}

/// One hunk of a diff. Where the patch skips lines before it, the `@@` row
/// gives way to a band that reveals them, keeping the header's section
/// heading; the run after the last hunk gets a band of its own.
pub open spec fn spec_diff_hunk(
    file: Seq<char>,
    index: usize,
    hunk: Hunk,
    cs: Seq<Comment>,
    before: Option<Gap>,
    after: Option<Gap>,
) -> Seq<char> {
    "<table class=\"src diff commentable\"><tbody>"@ + (match before {
        Some(g) => gap_row_html(file, index, g, "before"@, crate::ui::spec_hunk_section(hunk.header@)),
        None => "<tr class=\"hunk\"><td class=\"ln\" colspan=\"2\"></td><td class=\"code\">"@ + escape_markup(
            hunk.header@,
        ) + "</td></tr>"@,
    }) + diff_rows_html(file, hunk.lines@, cs) + (match after {
        Some(g) => gap_row_html(file, index, g, "after"@, None),
        None => Seq::empty(),
    }) + "</tbody></table>"@
}

#[verifier::rlimit(30)]
#[verifier::spinoff_prover]
fn push_ln_cell(out: &mut Vec<char>, class: &str, file: &str, number: Option<usize>, linked: bool)
    requires
        class@ == "old"@ || class@ == "new"@,
    ensures
        final(out)@ == old(out)@ + ln_cell(class@, file@, number, linked),
{
    let ghost start = out@;
    push_str(out, "<td class=\"ln ");
    push_str(out, class);
    match number {
        Some(n) => {
            if linked && is_linkable(file) {
                push_str(out, "\"><a href=\"#");
                let f = crate::fragment::line_fragment(file, class, n);
                push_str(out, f.as_str());
                push_str(out, "\">");
                push_decimal(out, n as u64);
                push_str(out, "</a></td>");
            } else {
                push_str(out, "\">");
                push_decimal(out, n as u64);
                push_str(out, "</td>");
            }
        },
        None => {
            push_str(out, "\"></td>");
        },
    }
    assert(out@ =~= start + ln_cell(class@, file@, number, linked));
}

#[verifier::rlimit(50)]
#[verifier::spinoff_prover]
fn push_gap_row(out: &mut Vec<char>, file: &str, index: usize, gap: Gap, place: &str, section: Option<String>)
    ensures
        final(out)@ == old(out)@ + gap_row_html(file@, index, gap, place@, crate::zellij_origin::opt_view(section)),
{
    let ghost start = out@;
    push_str(out, "<tr class=\"gap\" data-file=\"");
    push_attr(out, file);
    push_str(out, "\" data-index=\"");
    push_decimal(out, index as u64);
    push_str(out, "\" data-from=\"");
    push_decimal(out, gap.from as u64);
    push_str(out, "\" data-to=\"");
    push_decimal(out, gap.to as u64);
    push_str(out, "\" data-place=\"");
    push_str(out, place);
    push_str(out, "\"><td class=\"ln\" colspan=\"2\"></td><td class=\"code\">");
    match &section {
        Some(t) => {
            push_str(out, "<span class=\"section\">");
            push_text(out, t.as_str());
            push_str(out, "</span>");
        },
        None => {},
    }
    push_str(out, "</td></tr>");
    assert(out@ =~= start + gap_row_html(file@, index, gap, place@, crate::zellij_origin::opt_view(section)));
}

#[verifier::rlimit(30)]
#[verifier::spinoff_prover]
fn push_row_cells(out: &mut Vec<char>, file: &str, l: &DiffLine)
    ensures
        final(out)@ == old(out)@ + row_cells(file@, *l),
{
    proof {
        reveal_strlit("old");
        reveal_strlit("new");
    }
    let removed = match l.kind {
        crate::session::LineKind::Removed => true,
        _ => false,
    };
    push_ln_cell(out, "old", file, l.old, removed);
    push_ln_cell(out, "new", file, l.new, !removed);
}

#[verifier::rlimit(30)]
#[verifier::spinoff_prover]
fn push_row_code(out: &mut Vec<char>, file: &str, row: &crate::ui::Row)
    requires
        row.side@ == row_side(row.line.kind),
        row.line_no == row_number(row.line),
    ensures
        final(out)@ == old(out)@ + row_code(file@, row.line),
{
    let ghost start = out@;
    push_str(out, "<td class=\"code\"><button type=\"button\" class=\"addnote\" title=\"Comment on this line, or drag to cover more\" data-file=\"");
    push_attr(out, file);
    push_str(out, "\" data-line=\"");
    push_decimal(out, row.line_no as u64);
    push_str(out, "\" data-side=\"");
    push_str(out, row.side);
    push_str(out, "\">+</button><span class=\"marker\">");
    push_str(out, crate::ui::marker(row.line.kind));
    push_str(out, "</span>");
    push_str(out, row.line.html.as_str());
    push_str(out, "</td></tr>");
    assert(out@ =~= start + row_code(file@, row.line));
}

#[verifier::rlimit(30)]
#[verifier::spinoff_prover]
fn push_diff_row(out: &mut Vec<char>, file: &str, row: &crate::ui::Row, comments: &Vec<Comment>)
    requires
        row.side@ == row_side(row.line.kind),
        row.line_no == row_number(row.line),
        crate::session::comments_view(row.comments@) == hanging(
            crate::session::comments_view(comments@),
            file@,
            row_side(row.line.kind),
            row_number(row.line),
        ),
        row.in_range == in_range(comments@, file@, row_side(row.line.kind), row_number(row.line)),
    ensures
        final(out)@ == old(out)@ + diff_row_html(file@, row.line, comments@),
{
    let ghost start = out@;
    push_str(out, "<tr class=\"");
    let class = crate::ui::row_class(row);
    push_str(out, class.as_str());
    push_str(out, "\">");
    let ghost a = out@;
    assert(a =~= start + row_open(file@, row.line, comments@));
    push_row_cells(out, file, &row.line);
    push_row_code(out, file, row);
    let ghost b = out@;
    push_notes_row(out, &row.comments);
    assert(out@ =~= start + diff_row_html(file@, row.line, comments@));
}

/// One hunk of a diff in `file` (the `index`th of its session), with the runs
/// it hides before and, for a file's last hunk, after it.
#[verifier::rlimit(30)]
#[verifier::spinoff_prover]
pub fn diff_hunk(
    file: &str,
    index: usize,
    hunk: &Hunk,
    comments: &Vec<Comment>,
    before: Option<Gap>,
    after: Option<Gap>,
) -> (r: String)
    ensures
        r@ == spec_diff_hunk(file@, index, *hunk, comments@, before, after),
{
    let mut out = chars_of("<table class=\"src diff commentable\"><tbody>");
    let ghost start = out@;
    match before {
        Some(g) => push_gap_row(&mut out, file, index, g, "before", crate::ui::hunk_section(hunk.header.as_str())),
        None => {
            push_str(&mut out, "<tr class=\"hunk\"><td class=\"ln\" colspan=\"2\"></td><td class=\"code\">");
            push_text(&mut out, hunk.header.as_str());
            push_str(&mut out, "</td></tr>");
        },
    }
    let ghost head = out@;
    let rows = crate::ui::hunk_rows(file, hunk, comments);
    let ghost ls = hunk.lines@;
    let mut j: usize = 0;
    assert(ls.take(0) =~= Seq::<DiffLine>::empty());
    while j < rows.len()
        invariant
            j <= rows.len(),
            rows@.len() == ls.len(),
            ls == hunk.lines@,
            forall|k: int|
                0 <= k < rows@.len() ==> {
                    let l = ls[k];
                    let row = #[trigger] rows@[k];
                    &&& row.line == l
                    &&& row.side@ == row_side(l.kind)
                    &&& row.line_no == row_number(l)
                    &&& crate::session::comments_view(row.comments@) == hanging(
                        crate::session::comments_view(comments@),
                        file@,
                        row_side(l.kind),
                        row_number(l),
                    )
                    &&& row.in_range == in_range(comments@, file@, row_side(l.kind), row_number(l))
                },
            out@ == head + diff_rows_html(file@, ls.take(j as int), comments@),
        decreases rows.len() - j,
    {
        assert(ls.take(j + 1).drop_last() =~= ls.take(j as int));
        assert(ls.take(j + 1).last() == ls[j as int]);
        push_diff_row(&mut out, file, &rows[j], comments);
        j = j + 1;
    }
    assert(ls.take(j as int) =~= ls);
    match after {
        Some(g) => push_gap_row(&mut out, file, index, g, "after", None),
        None => {},
    }
    push_str(&mut out, "</tbody></table>");
    proof {
        assert(out@ =~= spec_diff_hunk(file@, index, *hunk, comments@, before, after));
    }
    string_of(&out)
}

// ---------------------------------------------------------------------------
// A code listing.
// ---------------------------------------------------------------------------

/// The opening of line `n`'s row in a listing: its anchor, and whether a
/// ranged comment covers it.
pub open spec fn code_row_open(file: Seq<char>, n: usize, cs: Seq<Comment>) -> Seq<char> {
    "<tr id=\""@ + crate::spec_file_line_anchor(file, n as nat) + "\" class=\""@ + (if in_range(cs, file, "new"@, n) {
        "inrange"@
    } else {
        Seq::empty()
    }) + "\">"@
}

/// Line `n`'s number cell, a link to the line.
pub open spec fn code_row_number(file: Seq<char>, n: usize) -> Seq<char> {
    "<td class=\"ln\" colspan=\"2\">"@ + (if linkable(file) {
        "<a href=\"#"@ + crate::fragment::spec_line_fragment(file, "new"@, n as nat) + "\">"@ + decimal(n as nat)
            + "</a>"@
    } else {
        decimal(n as nat)
    }) + "</td>"@
}

/// Line `n`'s code cell, with its comment button.
pub open spec fn code_row_code(file: Seq<char>, n: usize, html: Seq<char>) -> Seq<char> {
    "<td class=\"code\"><button type=\"button\" class=\"addnote\" title=\"Comment on this line, or drag to cover more\" data-file=\""@
        + escape_attr(file) + "\" data-line=\""@ + decimal(n as nat) + "\" data-side=\"new\">+</button>"@ + html
        + "</td></tr>"@
}

/// Line `n` of a listing in `file`: anchored, numbered, with its comment
/// button and the threads under it. Every line is on the new side.
pub open spec fn code_row_html(file: Seq<char>, n: usize, html: Seq<char>, cs: Seq<Comment>) -> Seq<char> {
    code_row_open(file, n, cs) + code_row_number(file, n) + code_row_code(file, n, html) + notes_row_html(
        hanging(crate::session::comments_view(cs), file, "new"@, n),
    )
}

/// The lines of a listing, numbered from 1.
pub open spec fn code_rows_html(file: Seq<char>, hs: Seq<Seq<char>>, cs: Seq<Comment>) -> Seq<char>
    decreases hs.len(),
{
    if hs.len() == 0 {
        Seq::empty()
    } else {
        code_rows_html(file, hs.drop_last(), cs) + code_row_html(file, hs.len() as usize, hs.last(), cs)
    }
}

/// A highlighted listing of `file` whose lines rendered as `hs`.
pub open spec fn spec_code_file(file: Seq<char>, hs: Seq<Seq<char>>, cs: Seq<Comment>) -> Seq<char> {
    "<table class=\"src commentable\"><tbody>"@ + (if hs.len() == 0 {
        "<tr><td class=\"ln\" colspan=\"2\"></td><td class=\"code\"><em>empty file</em></td></tr>"@
    } else {
        code_rows_html(file, hs, cs)
    }) + "</tbody></table>"@
}

#[verifier::rlimit(30)]
#[verifier::spinoff_prover]
fn push_code_number(out: &mut Vec<char>, file: &str, n: usize)
    ensures
        final(out)@ == old(out)@ + code_row_number(file@, n),
{
    proof {
        reveal_strlit("new");
    }
    let ghost start = out@;
    push_str(out, "<td class=\"ln\" colspan=\"2\">");
    if is_linkable(file) {
        push_str(out, "<a href=\"#");
        let f = crate::fragment::line_fragment(file, "new", n);
        push_str(out, f.as_str());
        push_str(out, "\">");
        push_decimal(out, n as u64);
        push_str(out, "</a>");
    } else {
        push_decimal(out, n as u64);
    }
    push_str(out, "</td>");
    assert(out@ =~= start + code_row_number(file@, n));
}

#[verifier::rlimit(30)]
#[verifier::spinoff_prover]
fn push_code_cell(out: &mut Vec<char>, file: &str, n: usize, html: &str)
    ensures
        final(out)@ == old(out)@ + code_row_code(file@, n, html@),
{
    let ghost start = out@;
    push_str(out, "<td class=\"code\"><button type=\"button\" class=\"addnote\" title=\"Comment on this line, or drag to cover more\" data-file=\"");
    push_attr(out, file);
    push_str(out, "\" data-line=\"");
    push_decimal(out, n as u64);
    push_str(out, "\" data-side=\"new\">+</button>");
    push_str(out, html);
    push_str(out, "</td></tr>");
    assert(out@ =~= start + code_row_code(file@, n, html@));
}

#[verifier::rlimit(30)]
#[verifier::spinoff_prover]
fn push_code_row(out: &mut Vec<char>, file: &str, row: &crate::ui::CodeRow, comments: &Vec<Comment>)
    requires
        crate::session::comments_view(row.comments@) == hanging(
            crate::session::comments_view(comments@),
            file@,
            "new"@,
            row.line_no,
        ),
        row.in_range == in_range(comments@, file@, "new"@, row.line_no),
    ensures
        final(out)@ == old(out)@ + code_row_html(file@, row.line_no, row.html@, comments@),
{
    let ghost start = out@;
    push_str(out, "<tr id=\"");
    let anchor = crate::file_line_anchor(file, row.line_no);
    push_str(out, anchor.as_str());
    push_str(out, "\" class=\"");
    if row.in_range {
        push_str(out, "inrange");
    }
    push_str(out, "\">");
    assert(out@ =~= start + code_row_open(file@, row.line_no, comments@));
    push_code_number(out, file, row.line_no);
    push_code_cell(out, file, row.line_no, row.html.as_str());
    push_notes_row(out, &row.comments);
    assert(out@ =~= start + code_row_html(file@, row.line_no, row.html@, comments@));
}

/// A highlighted listing of `file`, one commentable row per line.
#[verifier::rlimit(30)]
#[verifier::spinoff_prover]
pub fn code_file(file: &str, highlighted: &Vec<String>, comments: &Vec<Comment>) -> (r: String)
    ensures
        r@ == spec_code_file(file@, crate::session::strings_view(highlighted@), comments@),
{
    let ghost hs = crate::session::strings_view(highlighted@);
    let mut out = chars_of("<table class=\"src commentable\"><tbody>");
    if highlighted.len() == 0 {
        push_str(&mut out, "<tr><td class=\"ln\" colspan=\"2\"></td><td class=\"code\"><em>empty file</em></td></tr>");
    }
    let ghost head = out@;
    let rows = crate::ui::code_rows(file, highlighted, comments);
    let mut j: usize = 0;
    assert(hs.take(0) =~= Seq::<Seq<char>>::empty());
    while j < rows.len()
        invariant
            j <= rows.len(),
            rows@.len() == hs.len(),
            hs == crate::session::strings_view(highlighted@),
            forall|k: int|
                0 <= k < rows@.len() ==> {
                    let row = #[trigger] rows@[k];
                    &&& row.line_no == k + 1
                    &&& row.html@ == hs[k]
                    &&& crate::session::comments_view(row.comments@) == hanging(
                        crate::session::comments_view(comments@),
                        file@,
                        "new"@,
                        (k + 1) as usize,
                    )
                    &&& row.in_range == in_range(comments@, file@, "new"@, (k + 1) as usize)
                },
            out@ == head + code_rows_html(file@, hs.take(j as int), comments@),
        decreases rows.len() - j,
    {
        assert(hs.take(j + 1).drop_last() =~= hs.take(j as int));
        assert(hs.take(j + 1).last() == hs[j as int]);
        push_code_row(&mut out, file, &rows[j], comments);
        j = j + 1;
    }
    assert(hs.take(j as int) =~= hs);
    push_str(&mut out, "</tbody></table>");
    proof {
        if hs.len() == 0 {
            assert(code_rows_html(file@, hs, comments@) =~= Seq::<char>::empty());
        }
        assert(out@ =~= spec_code_file(file@, hs, comments@));
    }
    string_of(&out)
}

// ---------------------------------------------------------------------------
// The document shell.
// ---------------------------------------------------------------------------

/// The stylesheet for a theme's code colours, as `ui::stylesheet` builds it.
pub open spec fn style_text(c: ThemeColors) -> Seq<char> {
    crate::ui::STYLE_HEAD@ + c.background@ + ";\n  --code-fg: "@ + c.foreground@ + ";\n  --code-gutter: "@
        + c.gutter@ + ";\n  --code-border: "@ + c.border@ + ";\n  --code-muted: "@ + c.muted@
        + crate::ui::STYLE_BODY_0@ + crate::ui::STYLE_BODY_1@ + crate::ui::STYLE_BODY_2@
}

/// The document head: the title and the stylesheet.
pub open spec fn shell_head(page: Page, c: ThemeColors) -> Seq<char> {
    "<!DOCTYPE html><html lang=\"en\"><head><meta charset=\"utf-8\"><meta name=\"viewport\" content=\"width=device-width, initial-scale=1\"><title>"@
        + escape_markup(page.title@) + " \u{b7} wdyt</title><style>"@ + style_text(c) + "</style></head>"@
}

/// The opening of the body, with the page's extra classes.
pub open spec fn body_open(page: Page) -> Seq<char> {
    match page.body_class {
        Some(class) => "<body class=\""@ + escape_attr(class@) + "\">"@,
        None => "<body>"@,
    }
}

/// The start of the top bar: the brand, the title and the note.
pub open spec fn bar_start(page: Page) -> Seq<char> {
    "<header class=\"bar\"><span class=\"brand\">wdyt</span><h1>"@ + escape_markup(page.title@) + "</h1>"@
        + (match page.note {
        Some(n) => "<span class=\"note\">"@ + escape_markup(n@) + "</span>"@,
        None => Seq::empty(),
    }) + "<span class=\"spacer\"></span>"@
}

/// Where the agent runs, as the bar shows it: the multiplexer session and
/// tab, then the directory, the pane's title on hover; nothing when none of
/// the first three is known.
pub open spec fn origin_html(o: Origin) -> Seq<char> {
    if o.cwd is None && o.session is None && o.tab is None {
        Seq::empty()
    } else {
        "<span class=\"origin\" title=\""@ + (match o.pane {
            Some(p) => escape_attr(p@),
            None => Seq::empty(),
        }) + "\">"@ + origin_places(o) + (match o.cwd {
            Some(d) => "<span class=\"cwd\">"@ + escape_markup(d@) + "</span>"@,
            None => Seq::empty(),
        }) + "</span>"@
    }
}

/// The multiplexer session and, within it, the tab.
pub open spec fn origin_places(o: Origin) -> Seq<char> {
    match o.session {
        Some(s) => "<span class=\"place\">"@ + escape_markup(s@) + "</span>"@ + (match o.tab {
            Some(t) => "<span class=\"sep\">\u{203a}</span><span class=\"place\">"@ + escape_markup(t@)
                + "</span>"@,
            None => Seq::empty(),
        }),
        None => Seq::empty(),
    }
}

/// The end of the top bar: the mode label and, where it can go, the button
/// that hides the bar.
pub open spec fn bar_end(page: Page) -> Seq<char> {
    "<span class=\"kind\">"@ + escape_markup(page.kind@) + "</span>"@ + (if page.hideable {
        "<button id=\"chrome-toggle\" type=\"button\" title=\"Hide this bar (.)\">Hide bar</button>"@
    } else {
        Seq::empty()
    }) + "</header>"@
}

/// The scripts a commentable page needs.
pub open spec fn comment_scripts() -> Seq<char> {
    "<script>"@ + crate::ui::COMMENT_JS@ + "</script><script>"@ + crate::ui::EXPAND_JS@ + "</script><script>"@
        + crate::ui::THREAD_JS@ + "</script><script>"@ + crate::ui::DOC_COMMENT_JS@ + "</script><script>"@
        + crate::ui::FRAGMENT_JS@ + "</script>"@
}

/// What follows the main content: the control that shows a hidden bar, the
/// jump to the top, the reply box, and the comment scripts.
pub open spec fn shell_foot(page: Page) -> Seq<char> {
    (if page.hideable {
        "<button id=\"chrome-show\" type=\"button\" title=\"Show the bar (.)\">wdyt \u{25be}</button><script>"@
            + crate::ui::CHROME_JS@ + "</script>"@
    } else {
        Seq::empty()
    })
        + "<button id=\"jump-top\" type=\"button\" aria-label=\"Jump to top\" title=\"Back to top\">\u{2191}</button><script>"@
        + crate::ui::NAV_JS@ + "</script>"@ + spec_reply_widget(page.session_id@, page.reply) + (if page.commentable {
        comment_scripts()
    } else {
        Seq::empty()
    }) + "</body></html>"@
}

/// The document every page shares, around `child`, with `subheader` (a
/// file list, a brief) just under the bar.
pub open spec fn spec_shell(page: Page, c: ThemeColors, subheader: Option<Seq<char>>, child: Seq<char>) -> Seq<char> {
    shell_head(page, c) + body_open(page) + bar_start(page) + origin_html(page.origin) + bar_end(page) + (match subheader {
        Some(s) => s,
        None => Seq::empty(),
    }) + "<main>"@ + child + "</main>"@ + shell_foot(page)
}

#[verifier::rlimit(30)]
#[verifier::spinoff_prover]
fn push_shell_head(out: &mut Vec<char>, page: &Page, colors: &ThemeColors)
    ensures
        final(out)@ == old(out)@ + shell_head(*page, *colors),
{
    let ghost start = out@;
    push_str(out, "<!DOCTYPE html><html lang=\"en\"><head><meta charset=\"utf-8\"><meta name=\"viewport\" content=\"width=device-width, initial-scale=1\"><title>");
    push_text(out, page.title.as_str());
    push_str(out, " \u{b7} wdyt</title><style>");
    let style = crate::ui::stylesheet(colors);
    push_str(out, style.as_str());
    push_str(out, "</style></head>");
    assert(out@ =~= start + shell_head(*page, *colors));
}

#[verifier::rlimit(30)]
#[verifier::spinoff_prover]
fn push_bar_start(out: &mut Vec<char>, page: &Page)
    ensures
        final(out)@ == old(out)@ + body_open(*page) + bar_start(*page),
{
    let ghost start = out@;
    match &page.body_class {
        Some(class) => {
            push_str(out, "<body class=\"");
            push_attr(out, class.as_str());
            push_str(out, "\">");
        },
        None => push_str(out, "<body>"),
    }
    assert(out@ =~= start + body_open(*page));
    let ghost mid = out@;
    push_str(out, "<header class=\"bar\"><span class=\"brand\">wdyt</span><h1>");
    push_text(out, page.title.as_str());
    push_str(out, "</h1>");
    match &page.note {
        Some(n) => {
            push_str(out, "<span class=\"note\">");
            push_text(out, n.as_str());
            push_str(out, "</span>");
        },
        None => {},
    }
    push_str(out, "<span class=\"spacer\"></span>");
    assert(out@ =~= mid + bar_start(*page));
}

#[verifier::rlimit(30)]
#[verifier::spinoff_prover]
fn push_origin_places(out: &mut Vec<char>, o: &Origin)
    ensures
        final(out)@ == old(out)@ + origin_places(*o),
{
    let ghost start = out@;
    match &o.session {
        Some(s) => {
            push_str(out, "<span class=\"place\">");
            push_text(out, s.as_str());
            push_str(out, "</span>");
            match &o.tab {
                Some(t) => {
                    push_str(out, "<span class=\"sep\">\u{203a}</span><span class=\"place\">");
                    push_text(out, t.as_str());
                    push_str(out, "</span>");
                },
                None => {},
            }
        },
        None => {},
    }
    assert(out@ =~= start + origin_places(*o));
}

#[verifier::rlimit(30)]
#[verifier::spinoff_prover]
fn push_origin(out: &mut Vec<char>, o: &Origin)
    ensures
        final(out)@ == old(out)@ + origin_html(*o),
{
    let ghost start = out@;
    if o.is_empty() {
        assert(out@ =~= start + origin_html(*o));
        return;
    }
    push_str(out, "<span class=\"origin\" title=\"");
    match &o.pane {
        Some(p) => push_attr(out, p.as_str()),
        None => {},
    }
    push_str(out, "\">");
    push_origin_places(out, o);
    match &o.cwd {
        Some(d) => {
            push_str(out, "<span class=\"cwd\">");
            push_text(out, d.as_str());
            push_str(out, "</span>");
        },
        None => {},
    }
    push_str(out, "</span>");
    assert(out@ =~= start + origin_html(*o));
}

#[verifier::rlimit(30)]
#[verifier::spinoff_prover]
fn push_bar_end(out: &mut Vec<char>, page: &Page)
    ensures
        final(out)@ == old(out)@ + bar_end(*page),
{
    let ghost start = out@;
    push_str(out, "<span class=\"kind\">");
    push_text(out, page.kind.as_str());
    push_str(out, "</span>");
    if page.hideable {
        push_str(out, "<button id=\"chrome-toggle\" type=\"button\" title=\"Hide this bar (.)\">Hide bar</button>");
    }
    push_str(out, "</header>");
    assert(out@ =~= start + bar_end(*page));
}

#[verifier::rlimit(30)]
#[verifier::spinoff_prover]
fn push_shell_foot(out: &mut Vec<char>, page: &Page)
    ensures
        final(out)@ == old(out)@ + shell_foot(*page),
{
    let ghost start = out@;
    if page.hideable {
        push_str(out, "<button id=\"chrome-show\" type=\"button\" title=\"Show the bar (.)\">wdyt \u{25be}</button><script>");
        push_str(out, crate::ui::CHROME_JS);
        push_str(out, "</script>");
    }
    push_str(out, "<button id=\"jump-top\" type=\"button\" aria-label=\"Jump to top\" title=\"Back to top\">\u{2191}</button><script>");
    push_str(out, crate::ui::NAV_JS);
    push_str(out, "</script>");
    let reply = reply_widget(page.session_id.as_str(), &page.reply);
    push_str(out, reply.as_str());
    let ghost mid = out@;
    if page.commentable {
        push_str(out, "<script>");
        push_str(out, crate::ui::COMMENT_JS);
        push_str(out, "</script><script>");
        push_str(out, crate::ui::EXPAND_JS);
        push_str(out, "</script><script>");
        push_str(out, crate::ui::THREAD_JS);
        push_str(out, "</script><script>");
        push_str(out, crate::ui::DOC_COMMENT_JS);
        push_str(out, "</script><script>");
        push_str(out, crate::ui::FRAGMENT_JS);
        push_str(out, "</script>");
        assert(out@ =~= mid + comment_scripts());
    }
    push_str(out, "</body></html>");
    assert(out@ =~= start + shell_foot(*page));
}

/// The document shell every page shares, around `child`, with `subheader`
/// just under the bar.
#[verifier::rlimit(30)]
#[verifier::spinoff_prover]
pub fn shell(page: &Page, colors: &ThemeColors, subheader: Option<String>, child: String) -> (r: String)
    ensures
        r@ == spec_shell(*page, *colors, crate::zellij_origin::opt_view(subheader), child@),
{
    let mut out: Vec<char> = Vec::new();
    push_shell_head(&mut out, page, colors);
    push_bar_start(&mut out, page);
    push_origin(&mut out, &page.origin);
    push_bar_end(&mut out, page);
    let ghost a = out@;
    match &subheader {
        Some(s) => push_str(&mut out, s.as_str()),
        None => {},
    }
    push_str(&mut out, "<main>");
    push_str(&mut out, child.as_str());
    push_str(&mut out, "</main>");
    push_shell_foot(&mut out, page);
    proof {
        assert(out@ =~= spec_shell(*page, *colors, crate::zellij_origin::opt_view(subheader), child@));
    }
    string_of(&out)
}

// ---------------------------------------------------------------------------
// The index and grouped reviews.
// ---------------------------------------------------------------------------

/// The page the index stands on: no session behind it, so no reply box, no
/// origin, and nothing to comment on.
pub open spec fn is_index_page(p: Page) -> bool {
    &&& p.title@ == "Sessions"@
    &&& p.note is None
    &&& p.kind@ == "index"@
    &&& p.session_id@.len() == 0
    &&& p.reply is None
    &&& p.body_class is None
    &&& !p.hideable
    &&& !p.commentable
    &&& p.origin.cwd is None && p.origin.session is None && p.origin.tab is None && p.origin.pane is None
}

/// One live session in the index: a box to pick it, its title and kind, a
/// link to open it alone, and whether it has been replied to.
pub open spec fn summary_html(s: (String, String, &'static str, bool)) -> Seq<char> {
    let id = escape_attr(s.0@);
    "<li><input type=\"checkbox\" name=\"s\" value=\""@ + id + "\" id=\"pick-"@ + id + "\"><label for=\"pick-"@ + id
        + "\">"@ + escape_markup(s.1@) + "</label><span class=\"kind\">"@ + s.2@
        + "</span><a class=\"direct\" href=\"/s/"@ + id + "\">Open</a>"@ + (if s.3 {
        "<span style=\"color: var(--muted); grid-column: 2\">replied</span>"@
    } else {
        Seq::empty()
    }) + "</li>"@
}

/// The sessions of the index, in the order given.
pub open spec fn summaries_html(ss: Seq<(String, String, &'static str, bool)>) -> Seq<char>
    decreases ss.len(),
{
    if ss.len() == 0 {
        Seq::empty()
    } else {
        summaries_html(ss.drop_last()) + summary_html(ss.last())
    }
}

/// The index's content: a hint when there are no sessions, else the list
/// to pick from.
pub open spec fn index_body(ss: Seq<(String, String, &'static str, bool)>) -> Seq<char> {
    "<div class=\"wrap session-picker\">"@ + (if ss.len() == 0 {
        "<p style=\"color: var(--muted)\">No sessions yet. An agent creates one with <code>wdyt create \u{2026}</code>.</p>"@
    } else {
        "<form id=\"session-picker\" action=\"/\" method=\"get\"><ul class=\"session-list\">"@ + summaries_html(ss)
            + "</ul><div class=\"picker-actions\"><button type=\"submit\">Open selected tabs</button></div></form>"@
    }) + "</div>"@
}

#[verifier::rlimit(30)]
#[verifier::spinoff_prover]
fn push_summary(out: &mut Vec<char>, s: &(String, String, &'static str, bool))
    ensures
        final(out)@ == old(out)@ + summary_html(*s),
{
    let ghost start = out@;
    let id = crate::text::escape_attr_exec(s.0.as_str());
    push_str(out, "<li><input type=\"checkbox\" name=\"s\" value=\"");
    push_str(out, id.as_str());
    push_str(out, "\" id=\"pick-");
    push_str(out, id.as_str());
    push_str(out, "\"><label for=\"pick-");
    push_str(out, id.as_str());
    push_str(out, "\">");
    push_text(out, s.1.as_str());
    push_str(out, "</label><span class=\"kind\">");
    push_str(out, s.2);
    push_str(out, "</span><a class=\"direct\" href=\"/s/");
    push_str(out, id.as_str());
    push_str(out, "\">Open</a>");
    if s.3 {
        push_str(out, "<span style=\"color: var(--muted); grid-column: 2\">replied</span>");
    }
    push_str(out, "</li>");
    assert(out@ =~= start + summary_html(*s));
}

/// The list of live sessions, in the order given (the store gives them
/// newest first), any of which can be opened alone or picked to open
/// together.
#[verifier::rlimit(30)]
#[verifier::spinoff_prover]
pub fn index_html(summaries: &Vec<(String, String, &'static str, bool)>, colors: &ThemeColors) -> (r: String)
    ensures
        exists|p: Page| #[trigger] is_index_page(p) && r@ == spec_shell(p, *colors, None, index_body(summaries@)),
{
    let ghost ss = summaries@;
    let mut body = chars_of("<div class=\"wrap session-picker\">");
    if summaries.len() == 0 {
        push_str(&mut body, "<p style=\"color: var(--muted)\">No sessions yet. An agent creates one with <code>wdyt create \u{2026}</code>.</p>");
    } else {
        push_str(&mut body, "<form id=\"session-picker\" action=\"/\" method=\"get\"><ul class=\"session-list\">");
        let ghost head = body@;
        let mut i: usize = 0;
        assert(ss.take(0) =~= Seq::<(String, String, &'static str, bool)>::empty());
        while i < summaries.len()
            invariant
                i <= summaries.len(),
                ss == summaries@,
                body@ == head + summaries_html(ss.take(i as int)),
            decreases summaries.len() - i,
        {
            assert(ss.take(i + 1).drop_last() =~= ss.take(i as int));
            push_summary(&mut body, &summaries[i]);
            i = i + 1;
        }
        assert(ss.take(i as int) =~= ss);
        push_str(&mut body, "</ul><div class=\"picker-actions\"><button type=\"submit\">Open selected tabs</button></div></form>");
    }
    push_str(&mut body, "</div>");
    assert(body@ =~= index_body(ss));
    let page = Page::index();
    let r = shell(&page, colors, None, string_of(&body));
    assert(is_index_page(page));
    r
}

/// The query that reopens the same group: `s=<id>&` for each tab.
pub open spec fn group_query(tabs: Seq<crate::session::Session>) -> Seq<char>
    decreases tabs.len(),
{
    if tabs.len() == 0 {
        Seq::empty()
    } else {
        group_query(tabs.drop_last()) + "s="@ + tabs.last().id@ + "&"@
    }
}

/// Tab `index` of a group: selected or not, a link that reopens the group
/// on it, its title and kind.
pub open spec fn group_tab_html(query: Seq<char>, index: usize, selected: usize, t: crate::session::Session) -> Seq<
    char,
> {
    "<a class=\"review-tab\" role=\"tab\" id=\"review-tab-"@ + decimal(index as nat) + "\" aria-selected=\""@ + (if index
        == selected {
        "true"@
    } else {
        "false"@
    }) + "\" href=\"/?"@ + escape_attr(query) + "tab="@ + escape_attr(t.id@) + "\"><span class=\"tab-title\">"@
        + escape_markup(t.title@) + "</span><span class=\"kind\">"@ + t.content.spec_kind() + "</span></a>"@
}

/// The first `n` tabs of a group.
pub open spec fn group_tabs_html(query: Seq<char>, tabs: Seq<crate::session::Session>, selected: usize, n: nat) -> Seq<
    char,
>
    decreases n,
{
    if n == 0 {
        Seq::empty()
    } else {
        group_tabs_html(query, tabs, selected, (n - 1) as nat) + group_tab_html(
            query,
            (n - 1) as usize,
            selected,
            tabs[n - 1],
        )
    }
}

/// The panel of the selected tab: its session's page, framed and embedded.
pub open spec fn group_panel_html(selected: usize, t: crate::session::Session) -> Seq<char> {
    "<section class=\"review-panel\" role=\"tabpanel\" aria-labelledby=\"review-tab-"@ + decimal(selected as nat)
        + "\"><iframe class=\"review-frame\" src=\"/s/"@ + escape_attr(t.id@) + "?embed=1\" title=\"Review: "@
        + escape_attr(t.title@) + "\"></iframe></section>"@
}

/// A group's content: its tabs, then the selected one's panel.
pub open spec fn group_body(tabs: Seq<crate::session::Session>, selected: usize) -> Seq<char> {
    "<div class=\"tabbed-review\"><div class=\"review-tabs\" role=\"tablist\" aria-label=\"Review sessions\">"@
        + group_tabs_html(group_query(tabs), tabs, selected, tabs.len()) + "</div>"@ + (if selected < tabs.len() {
        group_panel_html(selected, tabs[selected as int])
    } else {
        Seq::empty()
    }) + "</div>"@
}

/// The page a group stands on: titled by its one session or by the count,
/// carrying the first session's reply box and origin.
pub open spec fn is_group_page(p: Page, tabs: Seq<crate::session::Session>) -> bool {
    let first = tabs[0];
    &&& p.title@ == (if tabs.len() == 1 {
        first.title@
    } else {
        decimal(tabs.len()) + " sessions"@
    })
    &&& p.note is None
    &&& p.kind@ == "review"@
    &&& p.session_id@ == first.id@
    &&& p.reply == first.reply
    &&& p.body_class matches Some(c) && c@ == "grouped"@
    &&& !p.hideable
    &&& !p.commentable
    &&& p.origin == first.origin
}

#[verifier::rlimit(30)]
#[verifier::spinoff_prover]
fn push_group_query(out: &mut Vec<char>, tabs: &Vec<crate::session::Session>)
    ensures
        final(out)@ == old(out)@ + group_query(tabs@),
{
    let ghost start = out@;
    let ghost ts = tabs@;
    let mut i: usize = 0;
    assert(ts.take(0) =~= Seq::<crate::session::Session>::empty());
    while i < tabs.len()
        invariant
            i <= tabs.len(),
            ts == tabs@,
            out@ == start + group_query(ts.take(i as int)),
        decreases tabs.len() - i,
    {
        assert(ts.take(i + 1).drop_last() =~= ts.take(i as int));
        push_str(out, "s=");
        push_str(out, tabs[i].id.as_str());
        push_str(out, "&");
        i = i + 1;
    }
    assert(ts.take(i as int) =~= ts);
}

#[verifier::rlimit(30)]
#[verifier::spinoff_prover]
fn push_group_tab(out: &mut Vec<char>, query: &str, index: usize, selected: usize, t: &crate::session::Session)
    ensures
        final(out)@ == old(out)@ + group_tab_html(query@, index, selected, *t),
{
    let ghost start = out@;
    push_str(out, "<a class=\"review-tab\" role=\"tab\" id=\"review-tab-");
    push_decimal(out, index as u64);
    push_str(out, "\" aria-selected=\"");
    if index == selected {
        push_str(out, "true");
    } else {
        push_str(out, "false");
    }
    push_str(out, "\" href=\"/?");
    push_attr(out, query);
    push_str(out, "tab=");
    push_attr(out, t.id.as_str());
    push_str(out, "\"><span class=\"tab-title\">");
    push_text(out, t.title.as_str());
    push_str(out, "</span><span class=\"kind\">");
    push_str(out, t.content.kind());
    push_str(out, "</span></a>");
    assert(out@ =~= start + group_tab_html(query@, index, selected, *t));
}

#[verifier::rlimit(30)]
#[verifier::spinoff_prover]
fn push_group_panel(out: &mut Vec<char>, selected: usize, t: &crate::session::Session)
    ensures
        final(out)@ == old(out)@ + group_panel_html(selected, *t),
{
    let ghost start = out@;
    push_str(out, "<section class=\"review-panel\" role=\"tabpanel\" aria-labelledby=\"review-tab-");
    push_decimal(out, selected as u64);
    push_str(out, "\"><iframe class=\"review-frame\" src=\"/s/");
    push_attr(out, t.id.as_str());
    push_str(out, "?embed=1\" title=\"Review: ");
    push_attr(out, t.title.as_str());
    push_str(out, "\"></iframe></section>");
    assert(out@ =~= start + group_panel_html(selected, *t));
}

#[verifier::rlimit(30)]
#[verifier::spinoff_prover]
fn copy_text(o: &Option<String>) -> (r: Option<String>)
    ensures
        r == *o,
{
    match o {
        Some(t) => Some(t.clone()),
        None => None,
    }
}

#[verifier::rlimit(30)]
#[verifier::spinoff_prover]
fn copy_reply(o: &Option<Reply>) -> (r: Option<Reply>)
    ensures
        r == *o,
{
    match o {
        Some(reply) => {
            let ack = match &reply.ack {
                Some(a) => Some(crate::session::Ack { note: a.note.clone(), at: a.at }),
                None => None,
            };
            Some(Reply { text: reply.text.clone(), at: reply.at, delivered_at: reply.delivered_at, ack })
        },
        None => None,
    }
}

#[verifier::rlimit(30)]
#[verifier::spinoff_prover]
fn copy_origin(o: &Origin) -> (r: Origin)
    ensures
        r == *o,
{
    Origin {
        cwd: copy_text(&o.cwd),
        session: copy_text(&o.session),
        tab: copy_text(&o.tab),
        pane: copy_text(&o.pane),
    }
}

/// Several sessions as tabs, the `selected` one shown.
#[verifier::rlimit(30)]
#[verifier::spinoff_prover]
pub fn grouped_html(tabs: &Vec<crate::session::Session>, selected: usize, colors: &ThemeColors) -> (r: String)
    requires
        tabs.len() > 0,
    ensures
        exists|p: Page|
            #[trigger] is_group_page(p, tabs@) && r@ == spec_shell(p, *colors, None, group_body(tabs@, selected)),
{
    let ghost ts = tabs@;
    let mut q: Vec<char> = Vec::new();
    push_group_query(&mut q, tabs);
    let query = string_of(&q);
    let mut body = chars_of("<div class=\"tabbed-review\"><div class=\"review-tabs\" role=\"tablist\" aria-label=\"Review sessions\">");
    let ghost head = body@;
    let mut i: usize = 0;
    while i < tabs.len()
        invariant
            i <= tabs.len(),
            ts == tabs@,
            query@ == group_query(ts),
            body@ == head + group_tabs_html(group_query(ts), ts, selected, i as nat),
        decreases tabs.len() - i,
    {
        push_group_tab(&mut body, query.as_str(), i, selected, &tabs[i]);
        i = i + 1;
    }
    push_str(&mut body, "</div>");
    if selected < tabs.len() {
        push_group_panel(&mut body, selected, &tabs[selected]);
    }
    push_str(&mut body, "</div>");
    assert(body@ =~= group_body(ts, selected));
    let first = &tabs[0];
    let title = if tabs.len() == 1 {
        first.title.clone()
    } else {
        let mut t: Vec<char> = Vec::new();
        push_decimal(&mut t, tabs.len() as u64);
        push_str(&mut t, " sessions");
        string_of(&t)
    };
    let page = Page {
        title,
        note: None,
        kind: string_of(&chars_of("review")),
        session_id: first.id.clone(),
        reply: copy_reply(&first.reply),
        body_class: Some(string_of(&chars_of("grouped"))),
        hideable: false,
        commentable: false,
        origin: copy_origin(&first.origin),
    };
    let r = shell(&page, colors, None, string_of(&body));
    assert(is_group_page(page, ts));
    r
}

// ---------------------------------------------------------------------------
// A session's page: its parts.
// ---------------------------------------------------------------------------

/// The opening of a comment's data record: which comment, where it hangs.
pub open spec fn datum_head(c: CommentView) -> Seq<char> {
    "<div class=\"wdyt-comment-data\" data-comment-id=\""@ + decimal(c.id as nat) + "\" data-comment-target=\""@
        + escape_attr(
        match c.target {
            Some(t) => t,
            None => Seq::empty(),
        },
    ) + "\" data-comment-file=\""@ + escape_attr(c.file) + "\" data-comment-line=\""@ + decimal(c.line as nat)
}

/// The rest of a comment's data record: its span, side, quote and words.
pub open spec fn datum_tail(c: CommentView) -> Seq<char> {
    "\" data-comment-end-line=\""@ + (match c.end_line {
        Some(e) => decimal(e as nat),
        None => Seq::empty(),
    }) + "\" data-comment-side=\""@ + c.side.spec_as_str() + "\" data-comment-snippet=\""@ + escape_attr(c.snippet)
        + "\">"@ + escape_markup(c.text) + "</div>"@
}

/// Comments, as records for the doc-comment script.
pub open spec fn data_items(cs: Seq<CommentView>) -> Seq<char>
    decreases cs.len(),
{
    if cs.len() == 0 {
        Seq::empty()
    } else {
        data_items(cs.drop_last()) + datum_head(cs.last()) + datum_tail(cs.last())
    }
}

/// The hidden block, named `id`, that hands `cs` to the doc-comment script.
pub open spec fn comment_data_html(id: Seq<char>, cs: Seq<CommentView>) -> Seq<char> {
    "<div id=\""@ + id + "\" hidden=\"hidden\">"@ + data_items(cs) + "</div>"@
}

#[verifier::rlimit(30)]
#[verifier::spinoff_prover]
fn push_datum_head(out: &mut Vec<char>, c: &Comment)
    ensures
        final(out)@ == old(out)@ + datum_head(c@),
{
    let ghost start = out@;
    push_str(out, "<div class=\"wdyt-comment-data\" data-comment-id=\"");
    push_decimal(out, c.id);
    push_str(out, "\" data-comment-target=\"");
    match &c.target {
        Some(t) => push_attr(out, t.as_str()),
        None => {},
    }
    push_str(out, "\" data-comment-file=\"");
    push_attr(out, c.file.as_str());
    push_str(out, "\" data-comment-line=\"");
    push_decimal(out, c.line as u64);
    assert(out@ =~= start + datum_head(c@));
}

#[verifier::rlimit(30)]
#[verifier::spinoff_prover]
fn push_datum_tail(out: &mut Vec<char>, c: &Comment)
    ensures
        final(out)@ == old(out)@ + datum_tail(c@),
{
    let ghost mid = out@;
    push_str(out, "\" data-comment-end-line=\"");
    match c.end_line {
        Some(e) => push_decimal(out, e as u64),
        None => {},
    }
    push_str(out, "\" data-comment-side=\"");
    push_str(out, c.side.as_str());
    push_str(out, "\" data-comment-snippet=\"");
    push_attr(out, c.snippet.as_str());
    push_str(out, "\">");
    push_text(out, c.text.as_str());
    push_str(out, "</div>");
    assert(out@ =~= mid + datum_tail(c@));
}

#[verifier::rlimit(30)]
#[verifier::spinoff_prover]
fn push_comment_data(out: &mut Vec<char>, id: &str, cs: &Vec<Comment>)
    ensures
        final(out)@ == old(out)@ + comment_data_html(id@, crate::session::comments_view(cs@)),
{
    let ghost start = out@;
    let ghost v = crate::session::comments_view(cs@);
    push_str(out, "<div id=\"");
    push_str(out, id);
    push_str(out, "\" hidden=\"hidden\">");
    let ghost head = out@;
    let mut i: usize = 0;
    assert(v.take(0) =~= Seq::<CommentView>::empty());
    while i < cs.len()
        invariant
            i <= cs.len(),
            v == crate::session::comments_view(cs@),
            out@ == head + data_items(v.take(i as int)),
        decreases cs.len() - i,
    {
        assert(v.take(i + 1).drop_last() =~= v.take(i as int));
        assert(v[i as int] == cs@[i as int]@);
        push_datum_head(out, &cs[i]);
        push_datum_tail(out, &cs[i]);
        i = i + 1;
    }
    assert(v.take(i as int) =~= v);
    push_str(out, "</div>");
    assert(out@ =~= start + comment_data_html(id@, v));
}

/// A file in the file list: a link to it, and for a diff its counts.
pub open spec fn nav_link(label: Seq<char>, stats: Option<(usize, usize)>) -> Seq<char> {
    "<a href=\"#"@ + escape_attr(crate::spec_file_anchor(label)) + "\" title=\""@ + escape_attr(label)
        + "\"><span class=\"file-label\">"@ + escape_markup(label) + "</span>"@ + (match stats {
        Some((added, removed)) => "<span class=\"file-stats\"><span class=\"added\">+"@ + decimal(added as nat)
            + "</span><span class=\"removed\">\u{2212}"@ + decimal(removed as nat) + "</span></span>"@,
        None => Seq::empty(),
    }) + "</a>"@
}

/// The links of the file list, in order.
pub open spec fn nav_links(items: Seq<(Seq<char>, Option<(usize, usize)>)>) -> Seq<char>
    decreases items.len(),
{
    if items.len() == 0 {
        Seq::empty()
    } else {
        nav_links(items.drop_last()) + nav_link(items.last().0, items.last().1)
    }
}

/// The file list above content of two files or more; a sidebar past three.
pub open spec fn file_nav_html(items: Seq<(Seq<char>, Option<(usize, usize)>)>) -> Option<Seq<char>> {
    if items.len() < 2 {
        None
    } else {
        Some(
            "<nav class=\""@ + (if items.len() > 3 {
                "files has-sidebar"@
            } else {
                "files"@
            }) + "\">"@ + nav_links(items) + "</nav>"@,
        )
    }
}

/// What the file list shows of a session's content: each file's label and,
/// for a diff, its counts; nothing for content without files.
pub open spec fn nav_items(c: crate::session::Content) -> Option<Seq<(Seq<char>, Option<(usize, usize)>)>> {
    match c {
        crate::session::Content::Code { files } => Some(
            Seq::new(files@.len(), |i: int| (files@[i].label@, None::<(usize, usize)>)),
        ),
        crate::session::Content::Diff { files } => Some(
            Seq::new(files@.len(), |i: int| (files@[i].label@, Some((files@[i].added, files@[i].removed)))),
        ),
        crate::session::Content::Docs { files } => Some(
            Seq::new(files@.len(), |i: int| (files@[i].label@, None::<(usize, usize)>)),
        ),
        _ => None,
    }
}

#[verifier::rlimit(30)]
#[verifier::spinoff_prover]
fn push_nav_link(out: &mut Vec<char>, label: &str, stats: Option<(usize, usize)>)
    ensures
        final(out)@ == old(out)@ + nav_link(label@, stats),
{
    let ghost start = out@;
    push_str(out, "<a href=\"#");
    let anchor = crate::file_anchor(label);
    push_attr(out, anchor.as_str());
    push_str(out, "\" title=\"");
    push_attr(out, label);
    push_str(out, "\"><span class=\"file-label\">");
    push_text(out, label);
    push_str(out, "</span>");
    match stats {
        Some((added, removed)) => {
            push_str(out, "<span class=\"file-stats\"><span class=\"added\">+");
            push_decimal(out, added as u64);
            push_str(out, "</span><span class=\"removed\">\u{2212}");
            push_decimal(out, removed as u64);
            push_str(out, "</span></span>");
        },
        None => {},
    }
    push_str(out, "</a>");
    assert(out@ =~= start + nav_link(label@, stats));
}

/// The file list over `items`, none for fewer than two.
#[verifier::rlimit(30)]
#[verifier::spinoff_prover]
fn file_nav(items: &Vec<(String, Option<(usize, usize)>)>) -> (r: Option<String>)
    ensures
        crate::zellij_origin::opt_view(r) == file_nav_html(items@.map_values(|it: (String, Option<(usize, usize)>)| (it.0@, it.1))),
{
    let ghost v = items@.map_values(|it: (String, Option<(usize, usize)>)| (it.0@, it.1));
    if items.len() < 2 {
        return None;
    }
    let mut out = chars_of("<nav class=\"");
    if items.len() > 3 {
        push_str(&mut out, "files has-sidebar");
    } else {
        push_str(&mut out, "files");
    }
    push_str(&mut out, "\">");
    let ghost head = out@;
    let mut i: usize = 0;
    assert(v.take(0) =~= Seq::<(Seq<char>, Option<(usize, usize)>)>::empty());
    while i < items.len()
        invariant
            i <= items.len(),
            v == items@.map_values(|it: (String, Option<(usize, usize)>)| (it.0@, it.1)),
            out@ == head + nav_links(v.take(i as int)),
        decreases items.len() - i,
    {
        assert(v.take(i + 1).drop_last() =~= v.take(i as int));
        push_nav_link(&mut out, items[i].0.as_str(), items[i].1);
        i = i + 1;
    }
    assert(v.take(i as int) =~= v);
    push_str(&mut out, "</nav>");
    Some(string_of(&out))
}

/// The hunks of a diffed file shown in `index`, each with the run it hides
/// before it and the last with the rest of a captured file of `n` lines.
pub open spec fn hunks_html(label: Seq<char>, index: usize, hs: Seq<Hunk>, n: nat, cs: Seq<Comment>, k: nat) -> Seq<
    char,
>
    decreases k,
{
    if k == 0 {
        Seq::empty()
    } else {
        hunks_html(label, index, hs, n, cs, (k - 1) as nat) + spec_diff_hunk(
            label,
            index,
            hs[k - 1],
            cs,
            if n == 0 {
                None
            } else {
                crate::diff::gap_before(hs, k - 1)
            },
            if k == hs.len() && n > 0 {
                crate::diff::gap_after(hs, n)
            } else {
                None
            },
        )
    }
}

#[verifier::rlimit(50)]
#[verifier::spinoff_prover]
fn push_hunks(
    out: &mut Vec<char>,
    label: &str,
    index: usize,
    hunks: &Vec<Hunk>,
    source_len: usize,
    comments: &Vec<Comment>,
)
    ensures
        final(out)@ == old(out)@ + hunks_html(label@, index, hunks@, source_len as nat, comments@, hunks@.len()),
{
    let ghost start = out@;
    let gaps = crate::diff::gaps_of(hunks, source_len);
    let mut i: usize = 0;
    while i < hunks.len()
        invariant
            i <= hunks.len(),
            gaps.before@.len() == hunks@.len(),
            forall|j: int|
                0 <= j < hunks@.len() ==> #[trigger] gaps.before@[j] == (if source_len == 0 {
                    None
                } else {
                    crate::diff::gap_before(hunks@, j)
                }),
            gaps.after == (if source_len == 0 {
                None
            } else {
                crate::diff::gap_after(hunks@, source_len as nat)
            }),
            out@ == start + hunks_html(label@, index, hunks@, source_len as nat, comments@, i as nat),
        decreases hunks.len() - i,
    {
        let after = if i + 1 == hunks.len() {
            gaps.after
        } else {
            None
        };
        let h = diff_hunk(label, index, &hunks[i], comments, gaps.before[i], after);
        push_str(out, h.as_str());
        proof {
            assert(gaps.before@[i as int] == (if source_len == 0 {
                None
            } else {
                crate::diff::gap_before(hunks@, i as int)
            }));
        }
        i = i + 1;
    }
}

// ---------------------------------------------------------------------------
// A session's page: its content.
// ---------------------------------------------------------------------------

/// The opening of a page's content, which the comment scripts find it by.
pub open spec fn wrap_open(extra: Seq<char>, id: Seq<char>) -> Seq<char> {
    "<div class=\"wrap"@ + extra + "\" data-comments=\"1\" data-session=\""@ + escape_attr(id) + "\">"@
}

/// A source file: its name, language and length over its listing, or over
/// its whole-file rendering where it has no per-line one.
pub open spec fn code_section_html(f: crate::session::CodeFile, cs: Seq<Comment>) -> Seq<char> {
    "<section class=\"file\" id=\""@ + escape_attr(crate::spec_file_anchor(f.label@))
        + "\"><div class=\"filename\"><span>"@ + escape_markup(f.label@) + "</span><span class=\"meta\">"@
        + escape_markup(f.language@) + " \u{b7} "@ + decimal(f.lines as nat) + " lines</span></div><div class=\"codebox\">"@
        + (if f.highlighted@.len() == 0 {
        f.html@
    } else {
        spec_code_file(f.label@, crate::session::strings_view(f.highlighted@), cs)
    }) + "</div></section>"@
}

/// The first `k` source files.
pub open spec fn code_sections_html(fs: Seq<crate::session::CodeFile>, cs: Seq<Comment>, k: nat) -> Seq<char>
    decreases k,
{
    if k == 0 {
        Seq::empty()
    } else {
        code_sections_html(fs, cs, (k - 1) as nat) + code_section_html(fs[k - 1], cs)
    }
}

/// A diffed file, the `index`th: its name and counts over its hunks.
pub open spec fn diff_file_html(f: crate::session::DiffFile, index: usize, cs: Seq<Comment>) -> Seq<char> {
    "<section class=\"file\" id=\""@ + escape_attr(crate::spec_file_anchor(f.label@))
        + "\"><div class=\"filename\"><span>"@ + escape_markup(f.label@)
        + "</span><span class=\"meta\"><span class=\"added\">+"@ + decimal(f.added as nat)
        + "</span> <span class=\"removed\">\u{2212}"@ + decimal(f.removed as nat)
        + "</span></span></div><div class=\"codebox\">"@ + hunks_html(
        f.label@,
        index,
        f.hunks@,
        f.source@.len(),
        cs,
        f.hunks@.len(),
    ) + "</div></section>"@
}

/// The first `k` diffed files.
pub open spec fn diff_files_html(fs: Seq<crate::session::DiffFile>, cs: Seq<Comment>, k: nat) -> Seq<char>
    decreases k,
{
    if k == 0 {
        Seq::empty()
    } else {
        diff_files_html(fs, cs, (k - 1) as nat) + diff_file_html(fs[k - 1], (k - 1) as usize, cs)
    }
}

/// A rendered document, the `index`th, which the doc-comment script makes
/// commentable.
pub open spec fn doc_file_html(f: crate::session::DocFile, index: usize) -> Seq<char> {
    "<section class=\"doc\" id=\""@ + escape_attr(crate::spec_file_anchor(f.label@)) + "\" data-doc-file=\""@
        + escape_attr(f.label@) + "\" data-doc-target=\"doc:"@ + decimal(index as nat) + "\">"@ + f.html@
        + "</section>"@
}

/// The first `k` documents.
pub open spec fn doc_files_html(fs: Seq<crate::session::DocFile>, k: nat) -> Seq<char>
    decreases k,
{
    if k == 0 {
        Seq::empty()
    } else {
        doc_files_html(fs, (k - 1) as nat) + doc_file_html(fs[k - 1], (k - 1) as usize)
    }
}

/// The head of an excerpt in a guided review: the file and the lines.
pub open spec fn excerpt_head(index: usize, name: Seq<char>, what: Seq<char>, start: usize, end: usize) -> Seq<char> {
    "<section class=\"file\" id=\"guided-block-"@ + decimal(index as nat) + "\"><div class=\"filename\"><span>"@
        + escape_markup(name) + "</span><span class=\"guided-range\">"@ + what + " \u{b7} L"@ + decimal(start as nat)
        + "\u{2013}L"@ + decimal(end as nat) + "</span></div><div class=\"codebox\">"@
}

/// Block `index` of a guided review: prose commentable by its source
/// lines, a code excerpt, or the hunks selected from a diffed file (the
/// runs they hide are theirs).
pub open spec fn guided_block_html(id: Seq<char>, b: crate::session::GuidedBlock, index: usize, cs: Seq<Comment>) -> Seq<
    char,
> {
    match b {
        crate::session::GuidedBlock::Text { html, source_start, .. } => guided_text_html(id, html@, source_start, index),
        crate::session::GuidedBlock::Code { file, language, start, end, highlighted, .. } => excerpt_head(
            index,
            file@,
            escape_markup(language@),
            start,
            end,
        ) + spec_code_file(file@, crate::session::strings_view(highlighted@), cs) + "</div></section>"@,
        crate::session::GuidedBlock::Diff { file, side, start, end, selected_hunks } => excerpt_head(
            index,
            file.label@,
            side.spec_as_str(),
            start,
            end,
        ) + hunks_html(file.label@, index, selected_hunks@, file.source@.len(), cs, selected_hunks@.len())
            + "</div></section>"@,
    }
}

/// Prose in a guided review, the `index`th block, rendered from the lines
/// from `source_start` on.
pub open spec fn guided_text_html(id: Seq<char>, html: Seq<char>, source_start: usize, index: usize) -> Seq<char> {
    "<section class=\"doc\" id=\"guided-block-"@ + decimal(index as nat)
        + "\" data-doc-file=\"guided:\" data-doc-target=\"guided:"@ + decimal(index as nat)
        + "\" data-doc-line-offset=\""@ + decimal(
        if source_start > 0 {
            (source_start - 1) as nat
        } else {
            0
        },
    ) + "\" data-session=\""@ + escape_attr(id) + "\">"@ + html + "</section>"@
}

/// The first `k` blocks of a guided review.
pub open spec fn guided_blocks_html(id: Seq<char>, bs: Seq<crate::session::GuidedBlock>, cs: Seq<Comment>, k: nat) -> Seq<
    char,
>
    decreases k,
{
    if k == 0 {
        Seq::empty()
    } else {
        guided_blocks_html(id, bs, cs, (k - 1) as nat) + guided_block_html(id, bs[k - 1], (k - 1) as usize, cs)
    }
}

/// A session's content on its page, `host` being the name the browser
/// reached the daemon by (a demo on the same machine is framed through it).
pub open spec fn session_body(s: crate::session::Session, host: Seq<char>) -> Seq<char> {
    let id = s.id@;
    let cs = s.comments@;
    match s.content {
        crate::session::Content::Code { files } => wrap_open(Seq::empty(), id) + code_sections_html(
            files@,
            cs,
            files@.len(),
        ) + "</div>"@,
        crate::session::Content::Diff { files } => wrap_open("\" id=\"diff"@, id) + diff_files_html(
            files@,
            cs,
            files@.len(),
        ) + "</div>"@,
        crate::session::Content::Docs { files } => wrap_open(Seq::empty(), id) + doc_files_html(files@, files@.len())
            + "</div>"@ + comment_data_html(
            "wdyt-doc-comments"@,
            crate::session::comments_view(cs).filter(|c: CommentView| !crate::server::on_brief(c)),
        ),
        crate::session::Content::Guided { blocks } => wrap_open(" guided-review"@, id) + guided_blocks_html(
            id,
            blocks@,
            cs,
            blocks@.len(),
        ) + "</div>"@ + comment_data_html("wdyt-doc-comments"@, crate::session::comments_view(cs)),
        crate::session::Content::Static { entry, .. } => "<div class=\"framewrap\"><iframe class=\"frame\" src=\""@
            + escape_attr("/s/"@ + id + "/assets/"@ + crate::server::strip_slashes(entry@))
            + "\" title=\"Preview\" sandbox=\"allow-scripts allow-forms\"></iframe></div>"@,
        crate::session::Content::Demo { port, path } => "<div class=\"framewrap\"><iframe class=\"frame\" src=\""@
            + escape_attr("http://"@ + host + seq![':'] + decimal(port as nat) + path@)
            + "\" title=\"Live demo\"></iframe></div>"@,
    }
}

#[verifier::rlimit(30)]
#[verifier::spinoff_prover]
fn push_wrap_open(out: &mut Vec<char>, extra: &str, id: &str)
    ensures
        final(out)@ == old(out)@ + wrap_open(extra@, id@),
{
    let ghost start = out@;
    push_str(out, "<div class=\"wrap");
    push_str(out, extra);
    push_str(out, "\" data-comments=\"1\" data-session=\"");
    push_attr(out, id);
    push_str(out, "\">");
    assert(out@ =~= start + wrap_open(extra@, id@));
}

#[verifier::rlimit(30)]
#[verifier::spinoff_prover]
fn push_code_section(out: &mut Vec<char>, f: &crate::session::CodeFile, comments: &Vec<Comment>)
    ensures
        final(out)@ == old(out)@ + code_section_html(*f, comments@),
{
    let ghost start = out@;
    push_str(out, "<section class=\"file\" id=\"");
    let anchor = crate::file_anchor(f.label.as_str());
    push_attr(out, anchor.as_str());
    push_str(out, "\"><div class=\"filename\"><span>");
    push_text(out, f.label.as_str());
    push_str(out, "</span><span class=\"meta\">");
    push_text(out, f.language.as_str());
    push_str(out, " \u{b7} ");
    push_decimal(out, f.lines as u64);
    push_str(out, " lines</span></div><div class=\"codebox\">");
    if f.highlighted.len() == 0 {
        push_str(out, f.html.as_str());
    } else {
        let listing = code_file(f.label.as_str(), &f.highlighted, comments);
        push_str(out, listing.as_str());
    }
    push_str(out, "</div></section>");
    assert(out@ =~= start + code_section_html(*f, comments@));
}

#[verifier::rlimit(30)]
#[verifier::spinoff_prover]
fn push_diff_file(out: &mut Vec<char>, f: &crate::session::DiffFile, index: usize, comments: &Vec<Comment>)
    ensures
        final(out)@ == old(out)@ + diff_file_html(*f, index, comments@),
{
    let ghost start = out@;
    push_str(out, "<section class=\"file\" id=\"");
    let anchor = crate::file_anchor(f.label.as_str());
    push_attr(out, anchor.as_str());
    push_str(out, "\"><div class=\"filename\"><span>");
    push_text(out, f.label.as_str());
    push_str(out, "</span><span class=\"meta\"><span class=\"added\">+");
    push_decimal(out, f.added as u64);
    push_str(out, "</span> <span class=\"removed\">\u{2212}");
    push_decimal(out, f.removed as u64);
    push_str(out, "</span></span></div><div class=\"codebox\">");
    push_hunks(out, f.label.as_str(), index, &f.hunks, f.source.len(), comments);
    push_str(out, "</div></section>");
    assert(out@ =~= start + diff_file_html(*f, index, comments@));
}

#[verifier::rlimit(30)]
#[verifier::spinoff_prover]
fn push_doc_file(out: &mut Vec<char>, f: &crate::session::DocFile, index: usize)
    ensures
        final(out)@ == old(out)@ + doc_file_html(*f, index),
{
    let ghost start = out@;
    push_str(out, "<section class=\"doc\" id=\"");
    let anchor = crate::file_anchor(f.label.as_str());
    push_attr(out, anchor.as_str());
    push_str(out, "\" data-doc-file=\"");
    push_attr(out, f.label.as_str());
    push_str(out, "\" data-doc-target=\"doc:");
    push_decimal(out, index as u64);
    push_str(out, "\">");
    push_str(out, f.html.as_str());
    push_str(out, "</section>");
    assert(out@ =~= start + doc_file_html(*f, index));
}

#[verifier::rlimit(30)]
#[verifier::spinoff_prover]
fn code_body(id: &str, files: &Vec<crate::session::CodeFile>, comments: &Vec<Comment>) -> (r: Vec<char>)
    ensures
        r@ == wrap_open(Seq::empty(), id@) + code_sections_html(files@, comments@, files@.len()) + "</div>"@,
{
    let mut out: Vec<char> = Vec::new();
    push_wrap_open(&mut out, "", id);
    let ghost head = out@;
    let mut i: usize = 0;
    while i < files.len()
        invariant
            i <= files.len(),
            out@ == head + code_sections_html(files@, comments@, i as nat),
        decreases files.len() - i,
    {
        push_code_section(&mut out, &files[i], comments);
        i = i + 1;
    }
    push_str(&mut out, "</div>");
    proof {
        reveal_strlit("");
    }
    out
}

#[verifier::rlimit(30)]
#[verifier::spinoff_prover]
fn diff_body(id: &str, files: &Vec<crate::session::DiffFile>, comments: &Vec<Comment>) -> (r: Vec<char>)
    ensures
        r@ == wrap_open("\" id=\"diff"@, id@) + diff_files_html(files@, comments@, files@.len()) + "</div>"@,
{
    let mut out: Vec<char> = Vec::new();
    push_wrap_open(&mut out, "\" id=\"diff", id);
    let ghost head = out@;
    let mut i: usize = 0;
    while i < files.len()
        invariant
            i <= files.len(),
            out@ == head + diff_files_html(files@, comments@, i as nat),
        decreases files.len() - i,
    {
        push_diff_file(&mut out, &files[i], i, comments);
        i = i + 1;
    }
    push_str(&mut out, "</div>");
    out
}

#[verifier::rlimit(30)]
#[verifier::spinoff_prover]
fn docs_body(id: &str, files: &Vec<crate::session::DocFile>, comments: &Vec<Comment>) -> (r: Vec<char>)
    ensures
        r@ == wrap_open(Seq::empty(), id@) + doc_files_html(files@, files@.len()) + "</div>"@ + comment_data_html(
            "wdyt-doc-comments"@,
            crate::session::comments_view(comments@).filter(|c: CommentView| !crate::server::on_brief(c)),
        ),
{
    let mut out: Vec<char> = Vec::new();
    push_wrap_open(&mut out, "", id);
    let ghost head = out@;
    let mut i: usize = 0;
    while i < files.len()
        invariant
            i <= files.len(),
            out@ == head + doc_files_html(files@, i as nat),
        decreases files.len() - i,
    {
        push_doc_file(&mut out, &files[i], i);
        i = i + 1;
    }
    push_str(&mut out, "</div>");
    let on_docs = crate::server::off_brief_comments(comments);
    push_comment_data(&mut out, "wdyt-doc-comments", &on_docs);
    proof {
        reveal_strlit("");
    }
    out
}

#[verifier::rlimit(30)]
#[verifier::spinoff_prover]
fn push_excerpt_head(out: &mut Vec<char>, index: usize, name: &str, what: &str, start: usize, end: usize)
    ensures
        final(out)@ == old(out)@ + excerpt_head(index, name@, what@, start, end),
{
    let ghost s0 = out@;
    push_str(out, "<section class=\"file\" id=\"guided-block-");
    push_decimal(out, index as u64);
    push_str(out, "\"><div class=\"filename\"><span>");
    push_text(out, name);
    push_str(out, "</span><span class=\"guided-range\">");
    push_str(out, what);
    push_str(out, " \u{b7} L");
    push_decimal(out, start as u64);
    push_str(out, "\u{2013}L");
    push_decimal(out, end as u64);
    push_str(out, "</span></div><div class=\"codebox\">");
    assert(out@ =~= s0 + excerpt_head(index, name@, what@, start, end));
}

#[verifier::rlimit(30)]
#[verifier::spinoff_prover]
fn push_guided_text(out: &mut Vec<char>, id: &str, html: &str, source_start: usize, index: usize)
    ensures
        final(out)@ == old(out)@ + guided_text_html(id@, html@, source_start, index),
{
    let ghost s0 = out@;
    push_str(out, "<section class=\"doc\" id=\"guided-block-");
    push_decimal(out, index as u64);
    push_str(out, "\" data-doc-file=\"guided:\" data-doc-target=\"guided:");
    push_decimal(out, index as u64);
    push_str(out, "\" data-doc-line-offset=\"");
    push_decimal(out, source_start.saturating_sub(1) as u64);
    push_str(out, "\" data-session=\"");
    push_attr(out, id);
    push_str(out, "\">");
    push_str(out, html);
    push_str(out, "</section>");
    assert(out@ =~= s0 + guided_text_html(id@, html@, source_start, index));
}

#[verifier::rlimit(30)]
#[verifier::spinoff_prover]
fn push_guided_code(
    out: &mut Vec<char>,
    index: usize,
    file: &str,
    language: &str,
    start: usize,
    end: usize,
    highlighted: &Vec<String>,
    comments: &Vec<Comment>,
)
    ensures
        final(out)@ == old(out)@ + excerpt_head(index, file@, escape_markup(language@), start, end)
            + spec_code_file(file@, crate::session::strings_view(highlighted@), comments@)
            + "</div></section>"@,
{
    let ghost s0 = out@;
    let what = crate::text::escape_markup_exec(language);
    push_excerpt_head(out, index, file, what.as_str(), start, end);
    let listing = code_file(file, highlighted, comments);
    push_str(out, listing.as_str());
    push_str(out, "</div></section>");
    assert(out@ =~= s0 + excerpt_head(index, file@, escape_markup(language@), start, end) + spec_code_file(
        file@,
        crate::session::strings_view(highlighted@),
        comments@,
    ) + "</div></section>"@);
}

#[verifier::rlimit(30)]
#[verifier::spinoff_prover]
fn push_guided_diff(
    out: &mut Vec<char>,
    index: usize,
    file: &crate::session::DiffFile,
    side: crate::session::Side,
    start: usize,
    end: usize,
    selected_hunks: &Vec<Hunk>,
    comments: &Vec<Comment>,
)
    ensures
        final(out)@ == old(out)@ + excerpt_head(index, file.label@, side.spec_as_str(), start, end) + hunks_html(
            file.label@,
            index,
            selected_hunks@,
            file.source@.len(),
            comments@,
            selected_hunks@.len(),
        ) + "</div></section>"@,
{
    let ghost s0 = out@;
    push_excerpt_head(out, index, file.label.as_str(), side.as_str(), start, end);
    let ghost s1 = out@;
    push_hunks(out, file.label.as_str(), index, selected_hunks, file.source.len(), comments);
    let ghost s2 = out@;
    push_str(out, "</div></section>");
    assert(out@ =~= s0 + excerpt_head(index, file.label@, side.spec_as_str(), start, end) + hunks_html(
        file.label@,
        index,
        selected_hunks@,
        file.source@.len(),
        comments@,
        selected_hunks@.len(),
    ) + "</div></section>"@);
}

#[verifier::rlimit(30)]
#[verifier::spinoff_prover]
fn push_guided_block(
    out: &mut Vec<char>,
    id: &str,
    b: &crate::session::GuidedBlock,
    index: usize,
    comments: &Vec<Comment>,
)
    ensures
        final(out)@ == old(out)@ + guided_block_html(id@, *b, index, comments@),
{
    match b {
        crate::session::GuidedBlock::Text { html, source_start, .. } => {
            push_guided_text(out, id, html.as_str(), *source_start, index);
        },
        crate::session::GuidedBlock::Code { file, language, start, end, highlighted, .. } => {
            push_guided_code(out, index, file.as_str(), language.as_str(), *start, *end, highlighted, comments);
        },
        crate::session::GuidedBlock::Diff { file, side, start, end, selected_hunks } => {
            push_guided_diff(out, index, file, *side, *start, *end, selected_hunks, comments);
        },
    }
}

#[verifier::rlimit(30)]
#[verifier::spinoff_prover]
fn guided_body(id: &str, blocks: &Vec<crate::session::GuidedBlock>, comments: &Vec<Comment>) -> (r: Vec<char>)
    ensures
        r@ == wrap_open(" guided-review"@, id@) + guided_blocks_html(id@, blocks@, comments@, blocks@.len())
            + "</div>"@ + comment_data_html("wdyt-doc-comments"@, crate::session::comments_view(comments@)),
{
    let mut out: Vec<char> = Vec::new();
    push_wrap_open(&mut out, " guided-review", id);
    let ghost head = out@;
    let mut i: usize = 0;
    while i < blocks.len()
        invariant
            i <= blocks.len(),
            out@ == head + guided_blocks_html(id@, blocks@, comments@, i as nat),
        decreases blocks.len() - i,
    {
        push_guided_block(&mut out, id, &blocks[i], i, comments);
        i = i + 1;
    }
    push_str(&mut out, "</div>");
    push_comment_data(&mut out, "wdyt-doc-comments", comments);
    out
}

#[verifier::rlimit(30)]
#[verifier::spinoff_prover]
fn frame(src: &str, rest: &str) -> (r: Vec<char>)
    ensures
        r@ == "<div class=\"framewrap\"><iframe class=\"frame\" src=\""@ + escape_attr(src@) + rest@,
{
    let mut out = chars_of("<div class=\"framewrap\"><iframe class=\"frame\" src=\"");
    push_attr(&mut out, src);
    push_str(&mut out, rest);
    out
}

/// A session's content, as its page shows it.
#[verifier::rlimit(30)]
#[verifier::spinoff_prover]
pub fn session_body_html(session: &crate::session::Session, host: &str) -> (r: String)
    ensures
        r@ == session_body(*session, host@),
{
    let id = session.id.as_str();
    let body = match &session.content {
        crate::session::Content::Code { files } => code_body(id, files, &session.comments),
        crate::session::Content::Diff { files } => diff_body(id, files, &session.comments),
        crate::session::Content::Docs { files } => docs_body(id, files, &session.comments),
        crate::session::Content::Guided { blocks } => guided_body(id, blocks, &session.comments),
        crate::session::Content::Static { entry, .. } => {
            let src = crate::server::static_frame_src(id, entry.as_str());
            frame(src.as_str(), "\" title=\"Preview\" sandbox=\"allow-scripts allow-forms\"></iframe></div>")
        },
        crate::session::Content::Demo { port, path } => {
            let src = crate::server::demo_frame_src(host, *port, path.as_str());
            frame(src.as_str(), "\" title=\"Live demo\"></iframe></div>")
        },
    };
    proof {
        reveal_strlit("");
    }
    string_of(&body)
}

// ---------------------------------------------------------------------------
// A session's page.
// ---------------------------------------------------------------------------

/// The brief above a session's content, commentable (with its comments
/// handed to the doc-comment script) when its source lines were kept.
pub open spec fn brief_html(s: crate::session::Session) -> Option<Seq<char>> {
    match s.brief {
        Some(h) => Some(
            if s.brief_sources@.len() > 0 {
                "<section class=\"brief doc\" data-doc-file=\"brief:\" data-doc-target=\"brief\" data-session=\""@
                    + escape_attr(s.id@) + "\">"@ + h@ + "</section>"@ + comment_data_html(
                    "wdyt-brief-comments"@,
                    crate::session::comments_view(s.comments@).filter(
                        |c: CommentView| crate::server::on_brief(c),
                    ),
                )
            } else {
                "<section class=\"brief doc\">"@ + h@ + "</section>"@
            },
        ),
        None => None,
    }
}

/// What stands under the bar: the file list, then the brief; the list first
/// so that it keeps sticking.
pub open spec fn session_subheader(s: crate::session::Session) -> Option<Seq<char>> {
    let nav = match nav_items(s.content) {
        Some(items) => file_nav_html(items),
        None => None,
    };
    match (nav, brief_html(s)) {
        (Some(n), Some(g)) => Some(n + g),
        (Some(n), None) => Some(n),
        (None, g) => g,
    }
}

/// The page a session stands on: its title, note, kind, reply box and
/// origin; framed content and an embedded page marked on the body; the bar
/// hideable unless embedded; the comment scripts where lines or the brief
/// take comments.
pub open spec fn is_session_page(p: Page, s: crate::session::Session, embedded: bool) -> bool {
    let framed = s.content is Demo || s.content is Static;
    &&& p.title@ == s.title@
    &&& p.note == s.note
    &&& p.kind@ == s.content.spec_kind()
    &&& p.session_id@ == s.id@
    &&& p.reply == s.reply
    &&& crate::zellij_origin::opt_view(p.body_class) == (if framed && embedded {
        Some("framed embedded"@)
    } else if framed {
        Some("framed"@)
    } else if embedded {
        Some("embedded"@)
    } else {
        None
    })
    &&& p.hideable == !embedded
    &&& p.commentable == (s.content is Diff || s.content is Code || s.content is Docs || s.brief_sources@.len() > 0)
    &&& p.origin == s.origin
}

#[verifier::rlimit(30)]
#[verifier::spinoff_prover]
fn nav_of(c: &crate::session::Content) -> (r: Option<Vec<(String, Option<(usize, usize)>)>>)
    ensures
        match (r, nav_items(*c)) {
            (Some(v), Some(items)) => v@.map_values(|it: (String, Option<(usize, usize)>)| (it.0@, it.1)) == items,
            (None, None) => true,
            _ => false,
        },
{
    match c {
        crate::session::Content::Code { files } => {
            let mut v: Vec<(String, Option<(usize, usize)>)> = Vec::new();
            let mut i: usize = 0;
            while i < files.len()
                invariant
                    i <= files.len(),
                    v@.len() == i,
                    forall|k: int| 0 <= k < i ==> (#[trigger] v@[k]).0@ == files@[k].label@ && v@[k].1 is None,
                decreases files.len() - i,
            {
                v.push((files[i].label.clone(), None));
                i = i + 1;
            }
            assert(v@.map_values(|it: (String, Option<(usize, usize)>)| (it.0@, it.1)) =~= Seq::new(
                files@.len(),
                |i: int| (files@[i].label@, None::<(usize, usize)>),
            ));
            Some(v)
        },
        crate::session::Content::Diff { files } => {
            let mut v: Vec<(String, Option<(usize, usize)>)> = Vec::new();
            let mut i: usize = 0;
            while i < files.len()
                invariant
                    i <= files.len(),
                    v@.len() == i,
                    forall|k: int|
                        0 <= k < i ==> (#[trigger] v@[k]).0@ == files@[k].label@ && v@[k].1 == Some(
                            (files@[k].added, files@[k].removed),
                        ),
                decreases files.len() - i,
            {
                v.push((files[i].label.clone(), Some((files[i].added, files[i].removed))));
                i = i + 1;
            }
            assert(v@.map_values(|it: (String, Option<(usize, usize)>)| (it.0@, it.1)) =~= Seq::new(
                files@.len(),
                |i: int| (files@[i].label@, Some((files@[i].added, files@[i].removed))),
            ));
            Some(v)
        },
        crate::session::Content::Docs { files } => {
            let mut v: Vec<(String, Option<(usize, usize)>)> = Vec::new();
            let mut i: usize = 0;
            while i < files.len()
                invariant
                    i <= files.len(),
                    v@.len() == i,
                    forall|k: int| 0 <= k < i ==> (#[trigger] v@[k]).0@ == files@[k].label@ && v@[k].1 is None,
                decreases files.len() - i,
            {
                v.push((files[i].label.clone(), None));
                i = i + 1;
            }
            assert(v@.map_values(|it: (String, Option<(usize, usize)>)| (it.0@, it.1)) =~= Seq::new(
                files@.len(),
                |i: int| (files@[i].label@, None::<(usize, usize)>),
            ));
            Some(v)
        },
        _ => None,
    }
}

#[verifier::rlimit(30)]
#[verifier::spinoff_prover]
fn brief_of(s: &crate::session::Session) -> (r: Option<String>)
    ensures
        crate::zellij_origin::opt_view(r) == brief_html(*s),
{
    match &s.brief {
        Some(h) => {
            if s.brief_sources.len() > 0 {
                let mut out = chars_of("<section class=\"brief doc\" data-doc-file=\"brief:\" data-doc-target=\"brief\" data-session=\"");
                push_attr(&mut out, s.id.as_str());
                push_str(&mut out, "\">");
                push_str(&mut out, h.as_str());
                push_str(&mut out, "</section>");
                let on_brief = crate::server::brief_comments(&s.comments);
                push_comment_data(&mut out, "wdyt-brief-comments", &on_brief);
                Some(string_of(&out))
            } else {
                let mut out = chars_of("<section class=\"brief doc\">");
                push_str(&mut out, h.as_str());
                push_str(&mut out, "</section>");
                Some(string_of(&out))
            }
        },
        None => None,
    }
}

#[verifier::rlimit(30)]
#[verifier::spinoff_prover]
fn subheader_of(s: &crate::session::Session) -> (r: Option<String>)
    ensures
        crate::zellij_origin::opt_view(r) == session_subheader(*s),
{
    let nav = match nav_of(&s.content) {
        Some(items) => file_nav(&items),
        None => None,
    };
    let guide = brief_of(s);
    match (nav, guide) {
        (Some(n), Some(g)) => {
            let mut out = chars_of(n.as_str());
            push_str(&mut out, g.as_str());
            Some(string_of(&out))
        },
        (Some(n), None) => Some(n),
        (None, g) => g,
    }
}

/// A session's page. `host` is the name the browser reached the daemon by,
/// for framing a demo on the same machine; an `embedded` page sits in a
/// group's frame and keeps its bar.
#[verifier::rlimit(30)]
#[verifier::spinoff_prover]
pub fn session_page(
    session: &crate::session::Session,
    colors: &ThemeColors,
    embedded: bool,
    host: &str,
) -> (r: String)
    ensures
        exists|p: Page|
            #[trigger] is_session_page(p, *session, embedded) && r@ == spec_shell(
                p,
                *colors,
                session_subheader(*session),
                session_body(*session, host@),
            ),
{
    let subheader = subheader_of(session);
    let body = session_body_html(session, host);
    let framed = session.content.is_framed();
    let body_class = if framed && embedded {
        Some(string_of(&chars_of("framed embedded")))
    } else if framed {
        Some(string_of(&chars_of("framed")))
    } else if embedded {
        Some(string_of(&chars_of("embedded")))
    } else {
        None
    };
    let page = Page {
        title: session.title.clone(),
        note: copy_text(&session.note),
        kind: string_of(&chars_of(session.content.kind())),
        session_id: session.id.clone(),
        reply: copy_reply(&session.reply),
        body_class,
        hideable: !embedded,
        commentable: session.content.is_commentable() || session.brief_sources.len() > 0,
        origin: copy_origin(&session.origin),
    };
    let r = shell(&page, colors, subheader, body);
    assert(is_session_page(page, *session, embedded));
    r
}

// ---------------------------------------------------------------------------
// What the rendered rows say.
// ---------------------------------------------------------------------------

proof fn occurs_in_prefix(a: Seq<char>, b: Seq<char>, p: Seq<char>, i: int)
    requires
        crate::text::occurs_at(a, p, i),
    ensures
        crate::text::occurs_at(a + b, p, i),
{
    assert((a + b).subrange(i, i + p.len()) =~= a.subrange(i, i + p.len()));
}

proof fn occurs_at_end(a: Seq<char>, b: Seq<char>)
    ensures
        crate::text::occurs_at(a + b, b, a.len() as int),
{
    assert((a + b).subrange(a.len() as int, (a.len() + b.len()) as int) =~= b);
}

proof fn occurs_within(a: Seq<char>, b: Seq<char>, c: Seq<char>, p: Seq<char>, i: int)
    requires
        crate::text::occurs_at(b, p, i),
    ensures
        crate::text::occurs_at(a + b + c, p, a.len() + i),
{
    assert((a + b + c).subrange(a.len() + i, a.len() + i + p.len()) =~= b.subrange(i, i + p.len()));
}

proof fn occurs_head(s: Seq<char>, p: Seq<char>, q: Seq<char>, i: int)
    requires
        crate::text::occurs_at(s, p + q, i),
    ensures
        crate::text::occurs_at(s, p, i),
{
    assert(s.subrange(i, i + p.len()) =~= s.subrange(i, i + (p + q).len()).subrange(0, p.len() as int));
    assert((p + q).subrange(0, p.len() as int) =~= p);
}

proof fn diff_rows_hold_each_row(file: Seq<char>, ls: Seq<DiffLine>, cs: Seq<Comment>, k: int)
    requires
        0 <= k < ls.len(),
    ensures
        crate::text::contains(diff_rows_html(file, ls, cs), diff_row_html(file, ls[k], cs)),
    decreases ls.len(),
{
    let pre = diff_rows_html(file, ls.drop_last(), cs);
    let last = diff_row_html(file, ls.last(), cs);
    assert(diff_rows_html(file, ls, cs) == pre + last);
    if k == ls.len() - 1 {
        occurs_at_end(pre, last);
    } else {
        diff_rows_hold_each_row(file, ls.drop_last(), cs, k);
        assert(ls.drop_last()[k] == ls[k]);
        let i = choose|i: int| crate::text::occurs_at(pre, diff_row_html(file, ls[k], cs), i);
        occurs_in_prefix(pre, last, diff_row_html(file, ls[k], cs), i);
    }
}

/// Each line's number sits in its own column: the `ln old` cell shows the
/// line's old-side number and the `ln new` cell its new-side number, each
/// empty where the line has none there. The side a line is addressed on (the
/// old side for a removed line, the new side otherwise) links its number to
/// the line, when the file's name fits a link.
pub proof fn hunk_numbers_sit_on_their_sides(file: Seq<char>, l: DiffLine)
    ensures
        row_cells(file, l) == (match l.old {
            Some(o) => if l.kind == crate::session::LineKind::Removed && linkable(file) {
                "<td class=\"ln "@ + "old"@ + "\"><a href=\"#"@ + crate::fragment::spec_line_fragment(file, "old"@, o as nat)
                    + "\">"@ + decimal(o as nat) + "</a></td>"@
            } else {
                "<td class=\"ln "@ + "old"@ + "\">"@ + decimal(o as nat) + "</td>"@
            },
            None => "<td class=\"ln "@ + "old"@ + "\"></td>"@,
        }) + (match l.new {
            Some(n) => if l.kind != crate::session::LineKind::Removed && linkable(file) {
                "<td class=\"ln "@ + "new"@ + "\"><a href=\"#"@ + crate::fragment::spec_line_fragment(file, "new"@, n as nat)
                    + "\">"@ + decimal(n as nat) + "</a></td>"@
            } else {
                "<td class=\"ln "@ + "new"@ + "\">"@ + decimal(n as nat) + "</td>"@
            },
            None => "<td class=\"ln "@ + "new"@ + "\"></td>"@,
        }),
        exists|p: Seq<char>|
            row_code(file, l) == p + "\" data-side=\""@ + (if l.kind == crate::session::LineKind::Removed {
                "old"@
            } else {
                "new"@
            }) + "\">+</button><span class=\"marker\">"@ + spec_marker(l.kind) + "</span>"@ + l.html@
                + "</td></tr>"@,
{
    let old_cell = match l.old {
        Some(o) => if l.kind == crate::session::LineKind::Removed && linkable(file) {
            "<td class=\"ln "@ + "old"@ + "\"><a href=\"#"@ + crate::fragment::spec_line_fragment(file, "old"@, o as nat)
                + "\">"@ + decimal(o as nat) + "</a></td>"@
        } else {
            "<td class=\"ln "@ + "old"@ + "\">"@ + decimal(o as nat) + "</td>"@
        },
        None => "<td class=\"ln "@ + "old"@ + "\"></td>"@,
    };
    let new_cell = match l.new {
        Some(n) => if l.kind != crate::session::LineKind::Removed && linkable(file) {
            "<td class=\"ln "@ + "new"@ + "\"><a href=\"#"@ + crate::fragment::spec_line_fragment(file, "new"@, n as nat)
                + "\">"@ + decimal(n as nat) + "</a></td>"@
        } else {
            "<td class=\"ln "@ + "new"@ + "\">"@ + decimal(n as nat) + "</td>"@
        },
        None => "<td class=\"ln "@ + "new"@ + "\"></td>"@,
    };
    assert(ln_cell("old"@, file, l.old, l.kind == crate::session::LineKind::Removed) =~= old_cell);
    assert(ln_cell("new"@, file, l.new, l.kind != crate::session::LineKind::Removed) =~= new_cell);
    let side: Seq<char> = if l.kind == crate::session::LineKind::Removed {
        "old"@
    } else {
        "new"@
    };
    let p = "<td class=\"code\"><button type=\"button\" class=\"addnote\" title=\"Comment on this line, or drag to cover more\" data-file=\""@
        + escape_attr(file) + "\" data-line=\""@ + decimal(row_number(l) as nat);
    assert(row_code(file, l) =~= p + "\" data-side=\""@ + side + "\">+</button><span class=\"marker\">"@ + spec_marker(
        l.kind,
    ) + "</span>"@ + l.html@ + "</td></tr>"@);
}

/// Every line of a hunk is rendered in it: its row opening, its two number
/// cells and its code cell with the comment button, together.
pub proof fn every_hunk_line_is_rendered(
    file: Seq<char>,
    index: usize,
    hunk: Hunk,
    cs: Seq<Comment>,
    before: Option<Gap>,
    after: Option<Gap>,
    k: int,
)
    requires
        0 <= k < hunk.lines@.len(),
    ensures
        crate::text::contains(
            spec_diff_hunk(file, index, hunk, cs, before, after),
            row_open(file, hunk.lines@[k], cs) + row_cells(file, hunk.lines@[k]) + row_code(file, hunk.lines@[k]),
        ),
{
    let ls = hunk.lines@;
    let l = ls[k];
    diff_rows_hold_each_row(file, ls, cs, k);
    let row = diff_row_html(file, l, cs);
    let i = choose|i: int| crate::text::occurs_at(diff_rows_html(file, ls, cs), row, i);
    let head = "<table class=\"src diff commentable\"><tbody>"@ + (match before {
        Some(g) => gap_row_html(file, index, g, "before"@, crate::ui::spec_hunk_section(hunk.header@)),
        None => "<tr class=\"hunk\"><td class=\"ln\" colspan=\"2\"></td><td class=\"code\">"@ + escape_markup(
            hunk.header@,
        ) + "</td></tr>"@,
    });
    let tail = (match after {
        Some(g) => gap_row_html(file, index, g, "after"@, None),
        None => Seq::empty(),
    }) + "</tbody></table>"@;
    assert(spec_diff_hunk(file, index, hunk, cs, before, after) =~= head + diff_rows_html(file, ls, cs) + tail);
    occurs_within(head, diff_rows_html(file, ls, cs), tail, row, i);
    let x = row_open(file, l, cs) + row_cells(file, l) + row_code(file, l);
    assert(row =~= x + notes_row_html(hanging(crate::session::comments_view(cs), file, row_side(l.kind), row_number(l))));
    occurs_head(
        spec_diff_hunk(file, index, hunk, cs, before, after),
        x,
        notes_row_html(hanging(crate::session::comments_view(cs), file, row_side(l.kind), row_number(l))),
        head.len() + i,
    );
}

proof fn code_rows_hold_each_row(file: Seq<char>, hs: Seq<Seq<char>>, cs: Seq<Comment>, k: int)
    requires
        0 <= k < hs.len(),
    ensures
        crate::text::contains(code_rows_html(file, hs, cs), code_row_html(file, (k + 1) as usize, hs[k], cs)),
    decreases hs.len(),
{
    let pre = code_rows_html(file, hs.drop_last(), cs);
    let last = code_row_html(file, hs.len() as usize, hs.last(), cs);
    assert(code_rows_html(file, hs, cs) == pre + last);
    if k == hs.len() - 1 {
        occurs_at_end(pre, last);
    } else {
        code_rows_hold_each_row(file, hs.drop_last(), cs, k);
        assert(hs.drop_last()[k] == hs[k]);
        let row = code_row_html(file, (k + 1) as usize, hs[k], cs);
        let i = choose|i: int| crate::text::occurs_at(pre, row, i);
        occurs_in_prefix(pre, last, row, i);
    }
}

/// Every line of a code listing is rendered, numbered from 1, and its
/// comment button names the new side and that line: the only side a code
/// listing has, and the one code comments are taken on.
pub proof fn code_buttons_comment_on_the_new_side(file: Seq<char>, hs: Seq<Seq<char>>, cs: Seq<Comment>, k: int)
    requires
        0 <= k < hs.len(),
        hs.len() <= usize::MAX,
    ensures
        crate::text::contains(spec_code_file(file, hs, cs), code_row_code(file, (k + 1) as usize, hs[k])),
        exists|p: Seq<char>|
            code_row_code(file, (k + 1) as usize, hs[k]) == p + "\" data-line=\""@ + decimal((k + 1) as nat)
                + "\" data-side=\"new\">+</button>"@ + hs[k] + "</td></tr>"@,
{
    let n = (k + 1) as usize;
    let h = hs[k];
    code_rows_hold_each_row(file, hs, cs, k);
    let row = code_row_html(file, n, h, cs);
    let i = choose|i: int| crate::text::occurs_at(code_rows_html(file, hs, cs), row, i);
    let head = "<table class=\"src commentable\"><tbody>"@;
    let tail = "</tbody></table>"@;
    assert(spec_code_file(file, hs, cs) =~= head + code_rows_html(file, hs, cs) + tail);
    occurs_within(head, code_rows_html(file, hs, cs), tail, row, i);
    code_cell_inside_row(spec_code_file(file, hs, cs), file, n, h, cs, head.len() + i);
    code_cell_names_new_side(file, n, h);
}

proof fn code_cell_inside_row(s: Seq<char>, file: Seq<char>, n: usize, h: Seq<char>, cs: Seq<Comment>, j: int)
    requires
        crate::text::occurs_at(s, code_row_html(file, n, h, cs), j),
    ensures
        crate::text::contains(s, code_row_code(file, n, h)),
{
    let pre = code_row_open(file, n, cs) + code_row_number(file, n);
    let cell = code_row_code(file, n, h);
    let notes = notes_row_html(hanging(crate::session::comments_view(cs), file, "new"@, n));
    let row = code_row_html(file, n, h, cs);
    assert(row =~= pre + cell + notes);
    assert(row.subrange(pre.len() as int, (pre.len() + cell.len()) as int) =~= cell);
    assert(s.subrange(j + pre.len(), j + pre.len() + cell.len()) =~= row.subrange(
        pre.len() as int,
        (pre.len() + cell.len()) as int,
    ));
    assert(crate::text::occurs_at(s, cell, j + pre.len()));
}

proof fn code_cell_names_new_side(file: Seq<char>, n: usize, h: Seq<char>)
    ensures
        exists|p: Seq<char>|
            code_row_code(file, n, h) == p + "\" data-line=\""@ + decimal(n as nat) + "\" data-side=\"new\">+</button>"@
                + h + "</td></tr>"@,
{
    let p = "<td class=\"code\"><button type=\"button\" class=\"addnote\" title=\"Comment on this line, or drag to cover more\" data-file=\""@
        + escape_attr(file);
    assert(code_row_code(file, n, h) =~= p + "\" data-line=\""@ + decimal(n as nat) + "\" data-side=\"new\">+</button>"@
        + h + "</td></tr>"@);
}
} // verus!
