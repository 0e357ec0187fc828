//! The page's fixed parts: the row classes and markers of a review table, the
//! receipt wording, the page description, and the scripts the page carries.
//! Rendering the HTML is done around the library.

use vstd::prelude::*;

use crate::session::{Comment, CommentView, DiffLine, Hunk, LineKind, Reply, comments_view};
use crate::text::{chars_of, decimal, push_decimal, push_str, string_of};
use crate::zellij_origin::Origin;

verus! {

/// Markup that is inserted as it is, unescaped: the page's own scripts.
pub struct Raw<T>(pub T);

/// A diff line with its comment anchor resolved.
#[derive(Debug, Clone)]
pub struct Row {
    pub line: DiffLine,
    pub side: &'static str,
    pub line_no: usize,
    /// Comments that end on this line, shown beneath it.
    pub comments: Vec<Comment>,
    /// Whether a ranged comment covers this line.
    pub in_range: bool,
}

pub open spec fn spec_line_class(kind: LineKind) -> Seq<char> {
    match kind {
        LineKind::Added => "add"@,
        LineKind::Removed => "del"@,
        LineKind::Context => "ctx"@,
    }
}

/// The row class for a diff line.
pub fn line_class(kind: LineKind) -> (r: &'static str)
    ensures
        r@ == spec_line_class(kind),
{
    match kind {
        LineKind::Added => "add",
        LineKind::Removed => "del",
        LineKind::Context => "ctx",
    }
}

pub open spec fn spec_marker(kind: LineKind) -> Seq<char> {
    match kind {
        LineKind::Added => "+"@,
        LineKind::Removed => "-"@,
        LineKind::Context => " "@,
    }
}

/// The leading `+`/`-` column, kept as its own element so selecting the code
/// does not pick up a marker that was never in the file.
pub fn marker(kind: LineKind) -> (r: &'static str)
    ensures
        r@ == spec_marker(kind),
{
    match kind {
        LineKind::Added => "+",
        LineKind::Removed => "-",
        LineKind::Context => " ",
    }
}

/// The row's classes: its diff kind, plus `inrange` when a ranged comment
/// covers it.
pub fn row_class(row: &Row) -> (r: String)
    ensures
        r@ == spec_line_class(row.line.kind) + if row.in_range {
            " inrange"@
        } else {
            Seq::<char>::empty()
        },
{
    let kind = line_class(row.line.kind);
    if row.in_range {
        let mut out = chars_of(kind);
        push_str(&mut out, " inrange");
        string_of(&out)
    } else {
        kind.to_owned()
    }
}

/// How a ranged comment names what it covers, e.g. `L12–L18`; nothing for a
/// single line, which the note already sits under.
pub fn span_label(comment: &Comment) -> (r: Option<String>)
    ensures
        match comment.end_line {
            Some(end) => if end > comment.line {
                r matches Some(s) && s@ == seq!['L'] + decimal(comment.line as nat) + seq![
                    '\u{2013}',
                    'L',
                ] + decimal(end as nat)
            } else {
                r is None
            },
            None => r is None,
        },
{
    match comment.end_line {
        Some(end) => {
            if end > comment.line {
                let mut out: Vec<char> = Vec::new();
                out.push('L');
                push_decimal(&mut out, comment.line as u64);
                out.push('\u{2013}');
                out.push('L');
                push_decimal(&mut out, end as u64);
                Some(string_of(&out))
            } else {
                None
            }
        },
        None => None,
    }
}

// ---------------------------------------------------------------------------
// The rows of a hunk.
// ---------------------------------------------------------------------------

/// The side a diff line is addressed on: a removed line by its old number,
/// everything else by its new one.
pub open spec fn row_side(kind: LineKind) -> Seq<char> {
    match kind {
        LineKind::Removed => "old"@,
        _ => "new"@,
    }
}

/// The number a diff line is addressed by, or 0 when it has none there.
pub open spec fn row_number(l: DiffLine) -> usize {
    let n = match l.kind {
        LineKind::Removed => l.old,
        _ => l.new,
    };
    match n {
        Some(v) => v,
        None => 0,
    }
}

/// A comment filed against `file` on `side` by label, without an explicit
/// target.
pub open spec fn files_on(c: CommentView, file: Seq<char>, side: Seq<char>) -> bool {
    c.target is None && c.file == file && c.side.spec_as_str() == side
}

/// The comment hangs beneath line `n`: the last line it covers is `n`.
pub open spec fn hangs_on(c: CommentView, file: Seq<char>, side: Seq<char>, n: usize) -> bool {
    files_on(c, file, side) && (match c.end_line {
        Some(e) => e,
        None => c.line,
    }) == n
}

/// The comment's range covers line `n`.
pub open spec fn covers(c: CommentView, file: Seq<char>, side: Seq<char>, n: usize) -> bool {
    &&& files_on(c, file, side)
    &&& c.end_line matches Some(e) && c.line <= n <= e
}

/// The comments, in order, that hang beneath line `n`.
pub open spec fn hanging(cs: Seq<CommentView>, file: Seq<char>, side: Seq<char>, n: usize) -> Seq<
    CommentView,
> {
    cs.filter(|c: CommentView| hangs_on(c, file, side, n))
}

fn side_name(kind: LineKind) -> (r: &'static str)
    ensures
        r@ == row_side(kind),
{
    match kind {
        LineKind::Removed => "old",
        _ => "new",
    }
}

fn comment_matches(c: &Comment, file: &str, side: &str) -> (r: bool)
    ensures
        r == files_on(c@, file@, side@),
{
    if c.target.is_some() {
        return false;
    }
    let f = chars_of(c.file.as_str());
    let want = chars_of(file);
    let s = chars_of(c.side.as_str());
    let w = chars_of(side);
    crate::text::chars_eq(&f, &want) && crate::text::chars_eq(&s, &w)
}

/// The comments that hang beneath line `n`, copied, in order.
fn comments_under(file: &str, side: &str, n: usize, comments: &Vec<Comment>) -> (r: Vec<Comment>)
    ensures
        comments_view(r@) == hanging(comments_view(comments@), file@, side@, n),
{
    let ghost cs = comments_view(comments@);
    let ghost pred = |c: CommentView| hangs_on(c, file@, side@, n);
    let mut out: Vec<Comment> = Vec::new();
    let mut i: usize = 0;
    proof {
        reveal(Seq::filter);
        assert(cs.take(0).filter(pred) =~= Seq::<CommentView>::empty());
    }
    assert(comments_view(out@) =~= Seq::<CommentView>::empty());
    while i < comments.len()
        invariant
            i <= comments.len(),
            cs == comments_view(comments@),
            pred == (|c: CommentView| hangs_on(c, file@, side@, n)),
            comments_view(out@) == cs.take(i as int).filter(pred),
        decreases comments.len() - i,
    {
        let c = &comments[i];
        let last = match c.end_line {
            Some(e) => e,
            None => c.line,
        };
        let keep = comment_matches(c, file, side) && last == n;
        proof {
            reveal(Seq::filter);
            assert(cs.take(i + 1).drop_last() =~= cs.take(i as int));
            assert(cs.take(i + 1).last() == c@);
            assert(keep == pred(c@));
        }
        if keep {
            let d = c.duplicate();
            let ghost before = out@;
            out.push(d);
            assert(comments_view(out@) =~= comments_view(before).push(c@));
        }
        i = i + 1;
    }
    assert(cs.take(i as int) =~= cs);
    out
}

/// Whether some comment's range covers line `n`.
fn any_covers(file: &str, side: &str, n: usize, comments: &Vec<Comment>) -> (r: bool)
    ensures
        r == exists|k: int| 0 <= k < comments@.len() && #[trigger] covers(comments@[k]@, file@, side@, n),
{
    let mut i: usize = 0;
    while i < comments.len()
        invariant
            i <= comments.len(),
            forall|k: int| 0 <= k < i ==> !#[trigger] covers(comments@[k]@, file@, side@, n),
        decreases comments.len() - i,
    {
        let c = &comments[i];
        if comment_matches(c, file, side) {
            match c.end_line {
                Some(e) => {
                    if c.line <= n && n <= e {
                        assert(covers(comments@[i as int]@, file@, side@, n));
                        return true;
                    }
                },
                None => {},
            }
        }
        i = i + 1;
    }
    false
}

/// The rows of a hunk in `file`: each line with the side and number it is
/// addressed by, the comments that hang beneath it, and whether a ranged
/// comment covers it. Comments with an explicit target belong elsewhere.
pub fn hunk_rows(file: &str, hunk: &Hunk, comments: &Vec<Comment>) -> (r: Vec<Row>)
    ensures
        r@.len() == hunk.lines@.len(),
        forall|j: int|
            0 <= j < r@.len() ==> {
                let l = hunk.lines@[j];
                let row = #[trigger] r@[j];
                &&& row.line == l
                &&& row.side@ == row_side(l.kind)
                &&& row.line_no == row_number(l)
                &&& comments_view(row.comments@) == hanging(
                    comments_view(comments@),
                    file@,
                    row_side(l.kind),
                    row_number(l),
                )
                &&& row.in_range == exists|k: int|
                    0 <= k < comments@.len() && #[trigger] covers(
                        comments@[k]@,
                        file@,
                        row_side(l.kind),
                        row_number(l),
                    )
            },
{
    let mut rows: Vec<Row> = Vec::new();
    let mut j: usize = 0;
    while j < hunk.lines.len()
        invariant
            j <= hunk.lines.len(),
            rows@.len() == j,
            forall|m: int|
                0 <= m < j ==> {
                    let l = hunk.lines@[m];
                    let row = #[trigger] rows@[m];
                    &&& row.line == l
                    &&& row.side@ == row_side(l.kind)
                    &&& row.line_no == row_number(l)
                    &&& comments_view(row.comments@) == hanging(
                        comments_view(comments@),
                        file@,
                        row_side(l.kind),
                        row_number(l),
                    )
                    &&& row.in_range == exists|k: int|
                        0 <= k < comments@.len() && #[trigger] covers(
                            comments@[k]@,
                            file@,
                            row_side(l.kind),
                            row_number(l),
                        )
                },
        decreases hunk.lines.len() - j,
    {
        let l = &hunk.lines[j];
        let side = side_name(l.kind);
        let number = match l.kind {
            LineKind::Removed => l.old,
            _ => l.new,
        };
        let line_no = match number {
            Some(v) => v,
            None => 0,
        };
        let under = comments_under(file, side, line_no, comments);
        let in_range = any_covers(file, side, line_no, comments);
        let ghost before = rows@;
        let row = Row { line: l.duplicate(), side, line_no, comments: under, in_range };
        assert(row.line_no == row_number(hunk.lines@[j as int]));
        rows.push(row);
        proof {
            assert forall|m: int| 0 <= m < j implies #[trigger] rows@[m] == before[m] by {}
        }
        j = j + 1;
    }
    rows
}

/// A line of a code listing with the comments that hang beneath it.
#[derive(Debug, Clone)]
pub struct CodeRow {
    pub line_no: usize,
    pub html: String,
    pub comments: Vec<Comment>,
    pub in_range: bool,
}

/// The rows of a code listing in `file`: every line is addressed on the new
/// side by its 1-based number; comments hang beneath the last line they
/// cover, and a ranged comment marks the lines it covers.
pub fn code_rows(file: &str, highlighted: &Vec<String>, comments: &Vec<Comment>) -> (r: Vec<CodeRow>)
    ensures
        r@.len() == highlighted@.len(),
        forall|j: int|
            0 <= j < r@.len() ==> {
                let row = #[trigger] r@[j];
                &&& row.line_no == j + 1
                &&& row.html@ == highlighted@[j]@
                &&& comments_view(row.comments@) == hanging(
                    comments_view(comments@),
                    file@,
                    "new"@,
                    (j + 1) as usize,
                )
                &&& row.in_range == exists|k: int|
                    0 <= k < comments@.len() && #[trigger] covers(
                        comments@[k]@,
                        file@,
                        "new"@,
                        (j + 1) as usize,
                    )
            },
{
    proof {
        reveal_strlit("new");
    }
    let mut rows: Vec<CodeRow> = Vec::new();
    let mut j: usize = 0;
    while j < highlighted.len()
        invariant
            j <= highlighted.len(),
            rows@.len() == j,
            forall|m: int|
                0 <= m < j ==> {
                    let row = #[trigger] rows@[m];
                    &&& row.line_no == m + 1
                    &&& row.html@ == highlighted@[m]@
                    &&& comments_view(row.comments@) == hanging(
                        comments_view(comments@),
                        file@,
                        "new"@,
                        (m + 1) as usize,
                    )
                    &&& row.in_range == exists|k: int|
                        0 <= k < comments@.len() && #[trigger] covers(
                            comments@[k]@,
                            file@,
                            "new"@,
                            (m + 1) as usize,
                        )
                },
        decreases highlighted.len() - j,
    {
        let line_no = j + 1;
        let under = comments_under(file, "new", line_no, comments);
        let in_range = any_covers(file, "new", line_no, comments);
        let ghost before = rows@;
        rows.push(CodeRow { line_no, html: highlighted[j].clone(), comments: under, in_range });
        proof {
            assert forall|m: int| 0 <= m < j implies #[trigger] rows@[m] == before[m] by {}
        }
        j = j + 1;
    }
    rows
}

/// How a thread labels a message: its class, and who said it.
pub fn said_by(from: crate::session::Author) -> (r: (&'static str, &'static str))
    ensures
        from == crate::session::Author::Agent ==> r.0@ == "said agent"@ && r.1@ == "agent"@,
        from == crate::session::Author::User ==> r.0@ == "said user"@ && r.1@ == "you"@,
{
    match from {
        crate::session::Author::Agent => ("said agent", "agent"),
        crate::session::Author::User => ("said user", "you"),
    }
}

/// Where the last `@@` in `s` starts.
pub open spec fn last_at_pair(s: Seq<char>) -> Option<int>
    decreases s.len(),
{
    if s.len() < 2 {
        None
    } else if s[s.len() - 2] == '@' && s[s.len() - 1] == '@' {
        Some(s.len() - 2)
    } else {
        last_at_pair(s.drop_last())
    }
}

/// The section heading a hunk header carries after its closing `@@`, such
/// as the enclosing function's name; nothing when it is blank.
pub open spec fn spec_hunk_section(header: Seq<char>) -> Option<Seq<char>> {
    match last_at_pair(header) {
        Some(i) => {
            let tail = crate::text::trim(header.skip(i + 2));
            if tail.len() > 0 {
                Some(tail)
            } else {
                None
            }
        },
        None => None,
    }
}

/// The section heading of a hunk header, which the gutter does not already
/// show.
pub fn hunk_section(header: &str) -> (r: Option<String>)
    ensures
        crate::zellij_origin::opt_view(r) == spec_hunk_section(header@),
{
    let cs = chars_of(header);
    let mut n = cs.len();
    assert(cs@.take(n as int) =~= cs@);
    while n >= 2
        invariant
            n <= cs.len(),
            cs@ == header@,
            last_at_pair(header@) == last_at_pair(cs@.take(n as int)),
        decreases n,
    {
        if cs[n - 2] == '@' && cs[n - 1] == '@' {
            let tail = crate::text::slice_chars(&cs, n, cs.len());
            assert(tail@ =~= header@.skip(n as int));
            let t = crate::text::trim_chars(&tail);
            if t.len() > 0 {
                return Some(string_of(&t));
            } else {
                return None;
            }
        }
        assert(cs@.take(n as int).drop_last() =~= cs@.take(n - 1));
        n = n - 1;
    }
    None
}

/// How far a sent reply has got: an agent said it read it, an agent process
/// took it, or it is still waiting. Delivery and reading are different
/// claims, so they are different stages.
pub open spec fn spec_receipt_stage(reply: Reply) -> Seq<char> {
    if reply.ack is Some {
        "read"@
    } else if reply.delivered_at is Some {
        "delivered"@
    } else {
        "waiting"@
    }
}

pub fn receipt_stage(reply: &Reply) -> (r: &'static str)
    ensures
        r@ == spec_receipt_stage(*reply),
{
    if reply.ack.is_some() {
        "read"
    } else if reply.delivered_at.is_some() {
        "delivered"
    } else {
        "waiting"
    }
}

pub open spec fn spec_receipt_text(stage: Seq<char>) -> Seq<char> {
    if stage == "read"@ {
        "The agent read this and replied"@
    } else if stage == "delivered"@ {
        "Picked up by an agent, not yet acknowledged"@
    } else {
        "Waiting for an agent to pick this up"@
    }
}

/// What each receipt stage says, in the reader's terms: "picked up" rather
/// than "read" for a delivery, which is the honest claim.
pub fn receipt_text(stage: &str) -> (r: &'static str)
    ensures
        r@ == spec_receipt_text(stage@),
{
    let s = chars_of(stage);
    if crate::text::eq_lit(&s, "read") {
        "The agent read this and replied"
    } else if crate::text::eq_lit(&s, "delivered") {
        "Picked up by an agent, not yet acknowledged"
    } else {
        "Waiting for an agent to pick this up"
    }
}

/// Everything the page shell needs to know about the page it wraps.
#[derive(Debug, Clone)]
pub struct Page {
    pub title: String,
    /// A sentence of extra context, shown beside the title.
    pub note: Option<String>,
    /// The mode label: `code`, `diff`, `docs`, `demo`, `static`.
    pub kind: String,
    /// The session this page belongs to; empty on the index.
    pub session_id: String,
    /// The reply already sent, if any.
    pub reply: Option<Reply>,
    /// Extra `<body>` classes, e.g. `framed`.
    pub body_class: Option<String>,
    /// Whether the top bar can be collapsed away.
    pub hideable: bool,
    /// Whether the page has commentable lines, which need the comment script.
    pub commentable: bool,
    /// Where the agent that made this session is running.
    pub origin: Origin,
}

impl Page {
    /// A page with no session behind it: the index.
    pub fn index() -> (r: Self)
        ensures
            r.title@ == "Sessions"@,
            r.note is None,
            r.kind@ == "index"@,
            r.session_id@.len() == 0,
            r.reply is None,
            r.body_class is None,
            !r.hideable,
            !r.commentable,
            r.origin.cwd is None && r.origin.session is None && r.origin.tab is None
                && r.origin.pane is None,
    {
        Page {
            title: "Sessions".to_owned(),
            note: None,
            kind: "index".to_owned(),
            session_id: String::new(),
            reply: None,
            body_class: None,
            hideable: false,
            commentable: false,
            origin: Origin::default(),
        }
    }
}

/// The stylesheet up to the code card's background colour.
pub const STYLE_HEAD: &'static str = r#"
*, *::before, *::after { box-sizing: border-box; }
:root {
  /* Off-whites, warm rather than grey: paper, then a raised tone for the
     header and chips, then white for cards that should read as on top. */
  --bg: #faf9f5;
  --raised: #f0eee6;
  --surface: #ffffff;
  --fg: #1f1e1d;
  --muted: #6f6b62;
  --border: #e6e3d9;
  --border-strong: #d8d4c6;
  --accent: #c96442;
  /* From the syntax theme, so the code card and its highlighting agree. */
  --code-bg: "#;

/// The first part of the stylesheet after the code card's colours.
pub const STYLE_BODY_0: &'static str = r#";
  color-scheme: light;
}
html, body { margin: 0; padding: 0; }
body {
  background: var(--bg);
  color: var(--fg);
  font: 14px/1.6 ui-sans-serif, system-ui, -apple-system, "Segoe UI", sans-serif;
  display: flex;
  flex-direction: column;
  min-height: 100vh;
}
/* A framed page must not scroll: the iframe owns the space below the chrome and
   sizes to it. Elsewhere the body has to be free to grow past the viewport, or a
   `position: sticky` child has no distance to travel and never sticks. */
html:has(body.framed), body.framed { height: 100%; }
a { color: var(--accent); }

/* Header ------------------------------------------------------------------ */
header.bar {
  display: flex; align-items: baseline; gap: 12px;
  padding: 14px 20px;
  border-bottom: 1px solid var(--border);
  background: var(--raised);
  flex: 0 0 auto;
}
header.bar .brand {
  font-weight: 600; letter-spacing: .06em; color: var(--accent);
  font-size: 11px; text-transform: uppercase;
}
header.bar h1 { font-size: 15px; font-weight: 600; margin: 0; }
header.bar .note { color: var(--muted); font-size: 13px; }
header.bar .spacer { flex: 1; }
/* Which agent is asking: the multiplexer pane to switch to, and the directory
   the work is in. Quiet and monospaced — it is a coordinate, not a headline. */
header.bar .origin {
  display: flex; align-items: baseline; gap: 5px; min-width: 0;
  font: 11px/1.4 ui-monospace, monospace; color: var(--muted);
}
header.bar .origin .place { color: var(--fg); }
header.bar .origin .sep { opacity: .5; }
/* The path is the first thing worth dropping when the bar is tight: the pane
   name identifies the agent, and the path is usually implied by it. */
header.bar .origin .cwd {
  overflow: hidden; text-overflow: ellipsis; white-space: nowrap;
  max-width: 30ch; direction: rtl; text-align: left;
}
.kind {
  font: 11px/1 ui-monospace, monospace; text-transform: uppercase;
  padding: 4px 7px; border: 1px solid var(--border-strong); border-radius: 4px;
  background: var(--surface); color: var(--muted);
}

main { flex: 1 1 auto; min-height: 0; }
.wrap { max-width: 1100px; margin: 0 auto; padding: 24px 20px 96px; }

/* File list --------------------------------------------------------------- */
/* Sticky, because on a long diff this is the only way to jump between files: a
   jump list that has scrolled off the top is no jump list at all. Only in the
   scrolling modes — a framed page does not scroll, and `position: sticky` inside
   a flex column there would just pin it over the iframe. */
nav.files {
  display: flex; flex-wrap: wrap; gap: 6px;
  padding: 10px 20px; border-bottom: 1px solid var(--border);
  font: 12px/1 ui-monospace, monospace;
}
body:not(.framed) nav.files {
  position: sticky; top: 0; z-index: 3;
  background: var(--raised);
  /* Its own backdrop, since content scrolls underneath it. */
  box-shadow: 0 1px 0 var(--border);
}
nav.files a {
  padding: 5px 9px; border-radius: 4px; text-decoration: none;
  border: 1px solid transparent;
}
nav.files a:hover { border-color: var(--border); }
/* Active file indicator: visible on both horizontal (mobile) and vertical
   (desktop sidebar) nav so tracking works at every breakpoint. */
nav.files a.active {
  background: var(--surface); border-color: var(--border);
  color: var(--accent); font-weight: 600;
}
/* An anchored jump must not land under the sticky nav. Generous enough to clear
   it when it has wrapped to a second row on a wide diff. */
section.file, section.doc { scroll-margin-top: 92px; }

/* File sidebar (desktop) -------------------------------------------------- */
/* On wide screens with multiple files, a vertical sticky sidebar replaces the
   horizontal chip bar. The horizontal bar remains as a compact fallback on
   narrower screens, and both live inside the same `nav.files` element so
   anchor links and guided-review fragment refs keep working. */
@media (min-width: 1380px) {
  body:not(.framed):not(.nochrome) nav.files.has-sidebar {
    position: fixed; top: 56px; left: 0; bottom: 0;
    width: 200px; z-index: 4;
    display: flex; flex-direction: column; flex-wrap: nowrap;
    gap: 2px; padding: 12px 10px;
    overflow-y: auto; overflow-x: hidden;
    border-bottom: none; border-right: 1px solid var(--border);
    box-shadow: none;
  }
  body:not(.framed):not(.nochrome) nav.files.has-sidebar a {
    display: block; white-space: nowrap; overflow: hidden;
    text-overflow: ellipsis; padding: 5px 8px;
  }
  /* The main content shifts right to make room for the sidebar. */
  body:not(.framed):not(.nochrome).has-file-sidebar main {
    margin-left: 200px;
  }
  body:not(.framed):not(.nochrome).has-file-sidebar section.brief {
    margin-left: 200px;
    padding-left: max(20px, calc((100% - 200px - 1100px) / 2 + 20px));
  }
  /* Anchor offset accounts for only the filename header, not the top nav. */
  body:not(.framed):not(.nochrome).has-file-sidebar section.file,
  body:not(.framed):not(.nochrome).has-file-sidebar section.doc {
    scroll-margin-top: 8px;
  }
  body:not(.framed):not(.nochrome).has-file-sidebar section.file .filename {
    top: 0;
  }
}
/* On narrower screens and mobile the sidebar is not shown; the horizontal
   sticky bar remains as a single-row scrollable strip so it never obscures
   content even on very narrow viewports. */
@media (max-width: 1379px) {
  nav.files.has-sidebar {
    flex-wrap: nowrap;
    overflow-x: auto;
    -webkit-overflow-scrolling: touch;
    scrollbar-width: thin;
  }
  nav.files.has-sidebar a {
    white-space: nowrap; flex: 0 0 auto;
  }
  /* With a single-row strip (~45px), the filename header sticks below it and
     the file section must clear both. Derived for one row height. */
  body:not(.framed) nav.files.has-sidebar ~ main section.file .filename {
    top: 45px;
  }
  body:not(.framed) nav.files.has-sidebar ~ main section.file,
  body:not(.framed) nav.files.has-sidebar ~ main section.doc {
    scroll-margin-top: 92px;
  }
}

/* Jump-to-top ------------------------------------------------------------- */
/* An always-available button when scrolled down past the first screen, so the
   user can get back to the top without scrolling through a long diff. */
#jump-top {
  display: none;
  position: fixed; bottom: 80px; left: 20px; z-index: 2147482998;
  width: 36px; height: 36px; padding: 0;
  border: 1px solid var(--border-strong); border-radius: 999px;
  background: var(--surface); color: var(--muted);
  font: 16px/34px ui-sans-serif, system-ui, sans-serif;
  text-align: center; cursor: pointer;
  box-shadow: 0 1px 4px rgba(31,30,29,.12);
  opacity: .7; transition: opacity .15s;
}
#jump-top:hover, #jump-top:focus { opacity: 1; color: var(--fg); }
#jump-top:focus-visible { outline: 2px solid var(--accent); outline-offset: 2px; }
#jump-top.visible { display: block; }
/* On framed pages or when chrome is hidden, adjust position. */
body.framed #jump-top { display: none !important; }
@media (max-width: 600px) {
  #jump-top { left: 12px; bottom: 72px; width: 32px; height: 32px; font-size: 14px; line-height: 30px; }
}

/* Guided review ----------------------------------------------------------- */
/* The agent's tour of its own work. Measured column and prose type, because it
   is the one part of the page meant to be read rather than scanned. */
/* Left edge shared with `.wrap` below it, so the prose and the code it talks
   about line up on the same axis; the measure is bounded within that column
   rather than centred in it, which would read as a different page. */
section.brief {
  /* A flex child of `body`, so it must be told to span the row: left to itself
     it shrinks to its content and drifts off the axis of the code below. */
  align-self: stretch; flex: 0 0 auto;
  box-sizing: border-box;
  border-bottom: 1px solid var(--border);
  font: 14px/1.65 ui-sans-serif, system-ui, sans-serif;
  /* Indented to `.wrap`'s own left edge — 1100px centred, plus its 20px gutter —
     so the prose starts on the same axis as the code it talks about. */
  padding: 18px 20px 20px max(20px, calc((100% - 1100px) / 2 + 20px));
}
section.brief > * { max-width: 74ch; }
section.brief > :first-child { margin-top: 0; }
section.brief > :last-child { margin-bottom: 0; }
/* A framed page does not scroll, so an unbounded brief would push the iframe out
   of view entirely. It scrolls within itself instead. */
body.framed section.brief { max-height: 30vh; overflow-y: auto; }

/* Code -------------------------------------------------------------------- */
/* The card carries the syntax theme's own colours: the highlighting inside it
   was computed for that background, so the chrome's off-white cannot be used
   here without wrecking the contrast. */
section.file { margin: 0 0 28px; }
section.file .filename {
  display: flex; align-items: center; gap: 10px;
  font: 12px/1 ui-monospace, monospace; color: var(--muted);
  padding: 10px 12px; border: 1px solid var(--border-strong);
  border-bottom: none; border-radius: 8px 8px 0 0; background: var(--raised);
  position: sticky; top: 0; z-index: 1;
}
/* Below the sticky jump list rather than under it: both stick, so without an
   offset the file header would slide underneath the nav. Measured, not guessed —
   the nav is 45px at one row. With the chrome hidden there is no nav to clear. */
body:not(.framed) section.file .filename { top: 45px; }
body.nochrome section.file .filename { top: 0; }
section.file .filename .meta { margin-left: auto; opacity: .8; }
.codebox {
  border: 1px solid var(--border-strong); border-radius: 0 0 8px 8px;
  overflow-x: auto; background: var(--code-bg); color: var(--code-fg);
}
table.src {
  border-collapse: collapse; width: 100%;
  font: 12.5px/1.55 ui-monospace, SFMono-Regular, Menlo, Consolas, monospace;
}
table.src td { padding: 0; vertical-align: top; }
table.src td.ln {
  width: 1%; min-width: 3.5em; text-align: right;
  padding: 0 12px 0 10px; user-select: none;
  color: var(--code-muted);
  border-right: 1px solid var(--code-border);
  background: var(--code-bg);
}
/* The gutter only has anywhere to stick while the code box is panned sideways,
   and `position: sticky` is not free: two gutter cells a line is 7,200 sticky
   boxes on a 3,600-line diff, all of which the browser revisits in every
   pre-paint. Measured on Chromium 131, that costs ~13ms of main-thread work per
   keystroke in a comment box and per scrolled frame — for a gutter that is not
   moving. `panned` is put on by NAV_JS the moment a box is scrolled off zero,
   so the unpanned case, which is nearly all of them, pays nothing. */
.codebox.panned table.src td.ln { position: sticky; left: 0; }
table.src td.ln a { color: inherit; text-decoration: none; }
table.src td.code { padding: 0 14px; white-space: pre; }
table.src tr:target td { background: var(--code-gutter); }
table.src tr:hover td.code { background: color-mix(in srgb, var(--code-fg) 6%, transparent); }

/* Diff -------------------------------------------------------------------- */
/* Added and removed lines are tinted by mixing into the code card's own
   background, so one rule works against every syntax theme. */
table.src.diff td.ln { min-width: 3em; }
table.src.diff tr.add td { background: color-mix(in srgb, #3f7d58 16%, var(--code-bg)); }
table.src.diff tr.del td { background: color-mix(in srgb, #b3452c 16%, var(--code-bg)); }
table.src.diff tr.hunk td {
  background: var(--code-gutter); color: var(--code-muted);
  padding: 3px 14px; white-space: pre; user-select: none;
}
table.src.diff .marker { user-select: none; opacity: .65; }
/* A run of lines the patch left out, and the way to get them. The row reads as a
   seam rather than as code, because what matters about it is that something is
   missing here. Its controls are painted by EXPAND_JS. */
table.src.diff tr.gap td {
  background: var(--code-gutter); color: var(--code-muted);
  padding: 3px 14px; white-space: pre; user-select: none;
}
"#;

/// The second part of the stylesheet after the code card's colours.
pub const STYLE_BODY_1: &'static str = r#"table.src.diff tr.gap .expanders { display: inline-flex; gap: 4px; align-items: center; }
table.src.diff tr.gap button {
  font: 11px/1 ui-monospace, SFMono-Regular, Menlo, monospace;
  color: var(--code-fg);
  background: color-mix(in srgb, var(--code-fg) 8%, transparent);
  border: 1px solid var(--code-border); border-radius: 5px;
  padding: 3px 7px; cursor: pointer;
}
table.src.diff tr.gap button:hover, table.src.diff tr.gap button:focus-visible {
  background: var(--accent); border-color: var(--accent); color: #fff;
}
table.src.diff tr.gap button[disabled] { opacity: .5; cursor: default; }
/* The one part of the `@@` header worth keeping: which function the hunk is in. */
table.src.diff tr.gap .section { margin-left: 10px; opacity: .75; }
table.src.diff tr.gap .msg { margin-left: 10px; color: #e08a7a; }
/* Comment affordances are shared by the diff and the plain-code listing: both
   carry `commentable`, so one set of rules drives the `+` button, the inline
   note box, and the range highlight in either mode. The diff-only tints above
   stay scoped to `.diff`. */
/* The comment affordance sits in the code cell's left padding so it cannot
   shift the code, which would make the listing jump on hover. */
table.src.commentable td.code { position: relative; padding-left: 22px; }
table.src.commentable .addnote {
  position: absolute; left: 1px; top: 1px;
  width: 17px; height: 17px; padding: 0; line-height: 15px;
  border: none; border-radius: 4px; cursor: pointer;
  background: var(--accent); color: #fff; font: 600 13px/15px ui-sans-serif, sans-serif;
  opacity: 0; transition: opacity .1s;
}
table.src.commentable tr:hover .addnote, table.src.commentable .addnote:focus { opacity: 1; }
/* Comments break out of the code card's monospace world: they are prose. Inset
   as a card rather than a full-bleed band, so the listing still reads as one
   continuous block with a note tucked into it. */
table.src.commentable tr.notes td.code {
  white-space: normal; padding: 6px 14px 6px 22px;
  background: var(--code-gutter);
  font: 13px/1.55 ui-sans-serif, system-ui, sans-serif;
}
table.src.commentable .note {
  background: var(--surface); color: var(--fg);
  border: 1px solid var(--border-strong); border-left: 2px solid var(--accent);
  border-radius: 0 8px 8px 0; padding: 7px 12px; max-width: 620px;
}
table.src.commentable .note { margin: 4px 0; }
table.src.commentable .note .who {
  display: block; font-size: 10.5px; text-transform: uppercase;
  letter-spacing: .07em; color: var(--muted);
}
/* A small link to copy the comment's URL: discoverable on hover, stays quiet. */
table.src.commentable .note .permalink {
  float: right; text-decoration: none; color: var(--border-strong);
  font: 11px/1 ui-monospace, monospace; padding: 2px 4px; border-radius: 3px;
  opacity: 0; transition: opacity .12s;
}
table.src.commentable .note:hover .permalink,
table.src.commentable .note .permalink:focus,
table.src.commentable .note .permalink:focus-visible { opacity: 1; }
table.src.commentable .note .permalink:hover { color: var(--accent); background: var(--bg); }
/* Which lines a note covers, when it is more than the one directly above it. */
table.src.commentable .note .who .span {
  margin-left: 6px; text-transform: none; letter-spacing: 0;
  font-family: ui-monospace, monospace; opacity: .85;
}
/* Rows a comment's range covers: while dragging, and once saved.
   Marked with a bar down the gutter rather than a background tint. Tinting fights
   the diff's own colours — an accent-tinted row reads as a deleted one — so the
   row background is left to mean add/remove and nothing else. */
table.src.commentable tr.inrange td.code, table.src.commentable tr.selecting td.code {
  box-shadow: inset 3px 0 0 var(--accent);
}
/* Mid-drag the whole span also lifts slightly, since nothing is committed yet and
   the feedback has to be unmistakable. */
table.src.commentable tr.selecting td {
  background: color-mix(in srgb, var(--accent) 10%, var(--code-bg));
}
/* A drag over code would otherwise select text and fight the range. */
table.src.commentable tr.selecting { user-select: none; }
/* A discussion under a comment: the agent's answers and the reader's follow-ups.
   Indented under the note they belong to and marked by who said them, since the
   whole point is that two parties are talking. */
.note .said {
  margin: 6px 0 0; padding: 5px 9px;
  border-left: 2px solid var(--border-strong);
  background: color-mix(in srgb, var(--fg) 3%, transparent);
  border-radius: 0 6px 6px 0;
}
.note .said.agent { border-left-color: var(--accent); }
.note .said .who {
  display: block; font-size: 10.5px; text-transform: uppercase;
  letter-spacing: .07em; color: var(--muted);
}
.note .said.agent .who { color: var(--accent); }
/* The receipt and the reply control, painted by THREAD_JS. */
.note .threadfoot {
  display: flex; align-items: center; gap: 8px;
  margin-top: 7px; font-size: 11.5px; color: var(--muted);
}
.note .threadfoot .receipt { display: inline-flex; align-items: center; gap: 5px; }
.note .threadfoot .dot {
  width: 7px; height: 7px; border-radius: 50%; background: var(--border-strong);
}
.note .threadfoot .waiting .dot {
  background: var(--border-strong); animation: wdyt-pulse 1.8s ease-in-out infinite;
}
.note .threadfoot .delivered .dot {
  background: #b8860b; animation: wdyt-pulse 1.8s ease-in-out infinite;
}
@media (prefers-reduced-motion: reduce) {
  .note .threadfoot .waiting .dot, .note .threadfoot .delivered .dot { animation: none; }
}
.note .threadfoot button {
  font: 11.5px/1 ui-sans-serif, system-ui, sans-serif;
  margin-left: auto; padding: 4px 9px; border-radius: 6px; cursor: pointer;
  border: 1px solid var(--border-strong); background: var(--bg); color: var(--fg);
}
.note .threadfoot button:hover { border-color: var(--accent); color: var(--accent); }

/* The pending editor floats over the listing instead of being a row inside it.
   A `<tr>` in the diff table means every character typed dirties a table that
   holds the whole file, and the browser answers by re-laying-out and repainting
   all of it: measured on Chromium 131 at 40ms of main-thread work per keystroke
   on a 3,600-line diff, against 12ms for the same box outside the table. So it
   is positioned in document coordinates by COMMENT_JS, below the line it is
   about — covering the lines after it, which are the ones already read. The
   shadow says it is above the code rather than in it. */
.notebox {
  position: absolute; z-index: 6;
  display: flex; flex-direction: column; gap: 6px;
  max-width: 680px;
  background: var(--surface); color: var(--fg);
  border: 1px solid var(--border-strong); border-left: 2px solid var(--accent);
  border-radius: 0 8px 8px 0; padding: 7px 12px;
  box-shadow: 0 1px 2px rgba(31,30,29,.1), 0 10px 28px rgba(31,30,29,.22);
  font: 13px/1.55 ui-sans-serif, system-ui, sans-serif;
}
/* What the box is about, when it is more than the line above it. */
.notebox .about {
  font-size: 10.5px; text-transform: uppercase; letter-spacing: .07em;
  color: var(--muted);
}
.notebox textarea {
  width: 100%; min-height: 62px; resize: vertical;
  background: var(--bg); color: var(--fg);
  border: 1px solid var(--border-strong); border-radius: 8px; padding: 7px 9px;
  font: 13px/1.5 ui-sans-serif, system-ui, sans-serif;
}
.notebox textarea:focus {
  outline: none; border-color: var(--accent);
  box-shadow: 0 0 0 3px color-mix(in srgb, var(--accent) 18%, transparent);
}
.notebox .row { display: flex; gap: 6px; align-items: center; }
.notebox .msg { color: #b3452c; font-size: 12px; margin-right: auto; }
.notebox button {
  font: 12.5px/1 ui-sans-serif, system-ui, sans-serif;
  padding: 6px 11px; border-radius: 7px; cursor: pointer;
  border: 1px solid var(--border-strong); background: var(--bg); color: var(--fg);
}
.notebox button.primary {
  background: var(--accent); border-color: var(--accent); color: #fff; font-weight: 600;
}
/* Keyboard shortcut hint in comment editors: visible but unobtrusive. */
.kb-hint {
  font: 11px/1 ui-sans-serif, system-ui, sans-serif;
  color: var(--muted); margin-right: auto;
}
.kb-hint abbr {
  text-decoration: none; border: none;
  font: inherit;
}
.doc .doc-notebox .kb-hint { margin-right: auto; }
.added { color: #3f7d58; }
.removed { color: #b3452c; }
nav.files .added, nav.files .removed { margin-left: 4px; }

/* Deep-link highlights ---------------------------------------------------- */
/* A line targeted by a URL fragment (via :target or the JS-applied class). The
   whole row is tinted the accent, GitHub-style, so a hand-written deep link
   lands somewhere unmistakable even in a large diff; the class form is used by
   the fragment script for ranges and for hashchange without a reload. The mix
   is derived from the code card's own background, so one rule reads correctly
   against every syntax theme, light or dark. */
table.src tr:target td,
table.src tr.sel-highlight td {
  background: color-mix(in srgb, var(--accent) 30%, var(--code-bg));
}
/* A solid accent bar down the gutter so the eye finds the first line of the
   span at once, and the number itself shifts to the accent. `inset` on td.ln
   only, matching the ranged-comment marker so the two read as one language. */
table.src tr:target td.ln,
table.src tr.sel-highlight td.ln {
  color: var(--accent); font-weight: 600;
  box-shadow: inset 3px 0 0 var(--accent);
}
/* A linked comment pulses briefly so the eye finds it among a wall of notes. */
.note.sel-highlight {
  animation: wdyt-flash 1.6s ease-out;
}
@keyframes wdyt-flash {
  0% { background: color-mix(in srgb, var(--accent) 22%, var(--surface)); }
  100% { background: var(--surface); }
}
@media (prefers-reduced-motion: reduce) {
  .note.sel-highlight { animation: none; }
}

/* Docs -------------------------------------------------------------------- */
.doc { font-size: 15px; }
.doc h1, .doc h2, .doc h3 { line-height: 1.25; margin: 1.6em 0 .6em; }
.doc h1 { font-size: 1.9em; }
.doc h2 {
  font-size: 1.45em; padding-bottom: .3em; border-bottom: 1px solid var(--border);
}
.doc h3 { font-size: 1.15em; }
.doc p, .doc ul, .doc ol, .doc blockquote, .doc table { margin: 0 0 1em; }
.doc code {
  font: .875em/1.5 ui-monospace, monospace;
  background: var(--raised); padding: .15em .4em; border-radius: 4px;
}
/* Fenced blocks come out of the same syntect theme as `wdyt code`, so they
   get the code card's colours rather than the page's. */
.doc pre {
  background: var(--code-bg); color: var(--code-fg);
  border: 1px solid var(--border-strong);
  border-radius: 8px; padding: 14px 16px; overflow-x: auto;
}
.doc pre code { background: none; padding: 0; }
.doc blockquote {
  border-left: 3px solid var(--border-strong); margin-left: 0;
  padding-left: 1em; color: var(--muted);
}
.doc table { border-collapse: collapse; }
.doc th, .doc td {
  border: 1px solid var(--border-strong); padding: 7px 12px; text-align: left;
}
.doc th { background: var(--raised); }
.doc img { max-width: 100%; }
.doc hr { border: none; border-top: 1px solid var(--border); margin: 2em 0; }

/* GitHub-style `> [!NOTE]` callouts, which comrak emits as .markdown-alert.
   Each keeps its conventional hue rather than the accent: the accent is
   terracotta, which a note styled in it would read as a warning. */
.doc .markdown-alert {
  --alert: #3b6ea8;
  border-left: 3px solid var(--alert); border-radius: 0 8px 8px 0;
  padding: 2px 16px; margin: 0 0 1em;
  background: color-mix(in srgb, var(--alert) 7%, var(--surface));
}
.doc .markdown-alert p { margin: .7em 0; }
.doc .markdown-alert-title {
  font-weight: 600; color: var(--alert);
  text-transform: uppercase; font-size: .82em; letter-spacing: .04em;
}
.doc .markdown-alert-tip { --alert: #3f7d58; }
.doc .markdown-alert-warning { --alert: #b07d18; }
.doc .markdown-alert-caution { --alert: #b3452c; }
.doc .markdown-alert-important { --alert: #7a5bb0; }
/* Heading anchors: comrak emits an empty <a class="anchor">, shown on hover. */
"#;

/// The third part of the stylesheet after the code card's colours.
pub const STYLE_BODY_2: &'static str = r#".doc a.anchor { text-decoration: none; opacity: 0; margin-left: .3em; }
/* Escaped as \0023 rather than a literal hash in quotes, which would
   terminate this raw string. */
.doc a.anchor::after { content: '\0023'; }
.doc h1:hover a.anchor, .doc h2:hover a.anchor, .doc h3:hover a.anchor { opacity: .5; }

/* Doc comments ------------------------------------------------------------ */
/* The `+` button on a commentable markdown block. Positioned inside the element
   it annotates, at the left margin, hidden until hover. Mirrors the code/diff
   affordance visually. */
.doc .doc-addnote {
  position: absolute; left: -24px; top: 2px;
  width: 18px; height: 18px; padding: 0; line-height: 16px;
  border: none; border-radius: 4px; cursor: pointer;
  background: var(--accent); color: #fff; font: 600 13px/16px ui-sans-serif, sans-serif;
  opacity: 0; transition: opacity .1s;
  z-index: 1;
}
.doc [data-sourcepos]:hover > .doc-addnote, .doc .doc-addnote:focus { opacity: 1; }
/* The note box that appears when the user clicks `+`. */
.doc .doc-notebox {
  background: var(--surface); color: var(--fg);
  border: 1px solid var(--border-strong); border-left: 2px solid var(--accent);
  border-radius: 0 8px 8px 0; padding: 10px 12px; margin: 6px 0; max-width: 620px;
}
.doc .doc-notebox textarea {
  width: 100%; min-height: 62px; resize: vertical;
  background: var(--bg); color: var(--fg);
  border: 1px solid var(--border-strong); border-radius: 8px; padding: 7px 9px;
  font: 13px/1.5 ui-sans-serif, system-ui, sans-serif;
}
.doc .doc-notebox textarea:focus {
  outline: none; border-color: var(--accent);
  box-shadow: 0 0 0 3px color-mix(in srgb, var(--accent) 18%, transparent);
}
.doc .doc-notebox .row { display: flex; gap: 6px; align-items: center; margin-top: 6px; }
.doc .doc-notebox .msg { color: #b3452c; font-size: 12px; margin-right: auto; }
.doc .doc-notebox button {
  font: 12.5px/1 ui-sans-serif, system-ui, sans-serif;
  padding: 6px 11px; border-radius: 7px; cursor: pointer;
  border: 1px solid var(--border-strong); background: var(--bg); color: var(--fg);
}
.doc .doc-notebox button.primary {
  background: var(--accent); border-color: var(--accent); color: #fff; font-weight: 600;
}
/* Saved comment notes on markdown blocks, reusing the same card style. */
.doc .doc-notes {
  margin: 6px 0;
}
.doc .doc-notes .note {
  background: var(--surface); color: var(--fg);
  border: 1px solid var(--border-strong); border-left: 2px solid var(--accent);
  border-radius: 0 8px 8px 0; padding: 7px 12px; max-width: 620px;
  margin: 4px 0;
}
.doc .doc-notes .note .who {
  display: block; font-size: 10.5px; text-transform: uppercase;
  letter-spacing: .07em; color: var(--muted);
}
.doc .doc-notes .note .who .span {
  margin-left: 6px; text-transform: none; letter-spacing: 0;
  font-family: ui-monospace, monospace; opacity: .85;
}
.doc .doc-notes .note .permalink {
  float: right; text-decoration: none; color: var(--border-strong);
  font: 11px/1 ui-monospace, monospace; padding: 2px 4px; border-radius: 3px;
  opacity: 0; transition: opacity .12s;
}
.doc .doc-notes .note:hover .permalink,
.doc .doc-notes .note .permalink:focus,
.doc .doc-notes .note .permalink:focus-visible { opacity: 1; }
.doc .doc-notes .note .permalink:hover { color: var(--accent); background: var(--bg); }
/* Deep-linked comment flash in doc notes. */
.doc .doc-notes .note.sel-highlight {
  animation: wdyt-flash 1.6s ease-out;
}

/* Framed content ---------------------------------------------------------- */
/* Both `dir` and `demo` hand the viewport to an iframe: the page itself must
   not scroll, and the frame must fill only the space below the chrome. */
.frame { width: 100%; height: 100%; border: 0; display: block; background: #fff; }
.framewrap { position: absolute; inset: 0; }
body.framed { overflow: hidden; }
body.framed main { position: relative; }

/* Chrome collapse --------------------------------------------------------- */
/* On a framed app the bar is 50 pixels of someone else's screen real estate,
   and reviewing a layout sometimes means seeing it at the size it will really
   have. Hiding it leaves a small pill to bring it back, because a page with no
   affordance at all is a page you have to reload to escape. */
#chrome-toggle {
  font: 11px/1 ui-sans-serif, system-ui, sans-serif;
  padding: 5px 9px; border-radius: 6px; cursor: pointer;
  border: 1px solid var(--border-strong); background: var(--surface);
  color: var(--muted);
  /* The bar is a flex row, so a long title can squeeze this to one word per
     line. It is a two-word label: it should stay on one. */
  white-space: nowrap; flex: none;
}
#chrome-toggle:hover { background: var(--bg); color: var(--fg); }
body.nochrome header.bar, body.nochrome nav.files { display: none; }
#chrome-show {
  display: none;
  position: fixed; top: 0; left: 50%; transform: translateX(-50%);
  z-index: 2147483000;
  font: 11px/1 ui-sans-serif, system-ui, sans-serif;
  padding: 4px 12px 5px; border-radius: 0 0 8px 8px; cursor: pointer;
  border: 1px solid var(--border-strong); border-top: none;
  background: var(--surface); color: var(--muted);
  /* Mostly out of the way until the pointer finds it. */
  opacity: .35; transition: opacity .15s;
}
#chrome-show:hover { opacity: 1; color: var(--fg); }
body.nochrome #chrome-show { display: block; }

/* Reply ------------------------------------------------------------------- */
/* Fixed and floating: on a demo it must not reflow the page being reviewed.
   Draggable, because the corner it defaults to is often where the framed app
   keeps its own controls. `left`/`top` are set by the drag handler, which is
   why `right`/`bottom` are the initial position rather than the only one. */
#reply {
  position: fixed; right: 20px; bottom: 20px; z-index: 2147483000;
  font: 13px/1.5 ui-sans-serif, system-ui, sans-serif;
}
#reply.moved { right: auto; bottom: auto; }
#reply.dragging { opacity: .82; }
/* Slightly recessive until hovered, so it reads as chrome over someone else's
   app rather than part of it. Dragging is what actually resolves a collision. */
#reply:not(.open) #toggle { opacity: .88; transition: opacity .15s; }
#reply:not(.open):hover #toggle { opacity: 1; }
#reply .grip {
  cursor: grab; user-select: none; color: var(--border-strong);
  /* Padded rather than sized, so it is easy to grab on a trackpad. */
  padding: 2px 6px 2px 0; font-size: 14px; line-height: 1;
}
#reply .grip:hover { color: var(--muted); }
#reply.dragging .grip { cursor: grabbing; }
/* Added for the duration of a drag: a cross-origin iframe would otherwise
   capture the pointer as soon as it crossed into it, stalling the drag. */
#reply-shield {
  position: fixed; inset: 0; z-index: 2147482999; cursor: grabbing;
}
#reply .panel {
  display: none; flex-direction: column; gap: 8px;
  width: min(380px, calc(100vw - 40px));
  padding: 12px; border-radius: 12px;
  background: var(--surface); color: var(--fg);
  border: 1px solid var(--border-strong);
  /* A soft shadow rather than a hard one: it floats over someone else's UI. */
  box-shadow: 0 1px 2px rgba(31,30,29,.06), 0 12px 32px rgba(31,30,29,.16);
}
#reply.open .panel { display: flex; }
/* The form is the panel's only child in the unreplied state, so it carries the
   same column layout rather than letting block margins decide the spacing. */
#reply form { display: flex; flex-direction: column; gap: 8px; }
#reply.open #toggle { display: none; }
#reply .head {
  display: flex; align-items: center; gap: 6px;
  color: var(--muted); font-size: 11px;
  text-transform: uppercase; letter-spacing: .06em;
}
#reply textarea {
  width: 100%; min-height: 84px; resize: vertical;
  background: var(--bg); color: var(--fg);
  border: 1px solid var(--border-strong); border-radius: 8px;
  padding: 9px 10px; font: 13px/1.5 ui-sans-serif, system-ui, sans-serif;
}
#reply textarea:focus {
  outline: none; border-color: var(--accent);
  box-shadow: 0 0 0 3px color-mix(in srgb, var(--accent) 18%, transparent);
}
#reply .row { display: flex; align-items: center; gap: 8px; }
#reply .hint { color: var(--muted); font-size: 11.5px; margin-right: auto; }
#reply button {
  font: 13px/1 ui-sans-serif, system-ui, sans-serif;
  padding: 8px 13px; border-radius: 8px; cursor: pointer;
  border: 1px solid var(--border-strong); background: var(--bg); color: var(--fg);
}
#reply button:hover { background: var(--raised); }
#reply button.primary {
  background: var(--accent); border-color: var(--accent);
  color: #fff; font-weight: 600;
}
#reply button.primary:hover { background: #b5573a; }
#reply button:disabled { opacity: .55; cursor: default; }
/* Scoped `#reply #toggle` rather than `#toggle`: the generic `#reply button`
   above is an id plus a type selector, so it outranks a lone id and would win. */
#reply #toggle {
  display: flex; align-items: center; gap: 7px;
  padding: 10px 16px; border-radius: 999px; cursor: pointer;
  background: var(--accent); color: #fff; font-weight: 600;
  border: 1px solid transparent;
  box-shadow: 0 1px 2px rgba(31,30,29,.1), 0 8px 22px rgba(31,30,29,.22);
}
#reply #toggle:hover { background: #b5573a; }
#reply #toggle.done {
  background: var(--surface); color: var(--muted); font-weight: 500;
  border-color: var(--border-strong);
}
#reply #toggle.done:hover { background: var(--raised); }
#reply .row .spacer { flex: 1; }
#reply .sent { color: var(--muted); }
#reply .sent b { color: var(--fg); font-weight: 600; }
/* Empty until something fails, so it must take no space until then. */
#reply .error { color: #b3452c; font-size: 12px; margin: 0; }
#reply .error:empty { display: none; }

/* Read receipt ------------------------------------------------------------ */
/* Sending a reply into a daemon is an act of faith otherwise: the agent may be
   waiting, or may have exited hours ago. The receipt says which — in three
   states, because "the bytes left the daemon" and "a model read them" are
   different claims and conflating them hides a dead agent. */
#reply .receipt {
  display: flex; align-items: center; gap: 6px;
  color: var(--muted); font-size: 11.5px; margin: 0;
}
#reply .receipt .dot {
  width: 7px; height: 7px; border-radius: 999px; flex: 0 0 auto;
  background: var(--border-strong);
}
/* Outstanding: a slow pulse, so a glance tells you it has not moved. */
#reply .receipt.waiting .dot {
  background: var(--accent); animation: wdyt-pulse 1.8s ease-in-out infinite;
}
/* Picked up but unacknowledged: amber, and still pulsing. This is where an agent
   that died on a credentials prompt sits, so it must not look like success. */
#reply .receipt.delivered .dot {
  background: #b8860b; animation: wdyt-pulse 1.8s ease-in-out infinite;
}
#reply .receipt.delivered { color: #8a6508; }
#reply .receipt.read .dot { background: #3f7d58; }
#reply .receipt.read { color: #3f7d58; }
/* What the agent said it is doing: the only evidence a model was really there. */
#reply .acknote {
  margin: 0; padding: 6px 9px;
  background: var(--surface); border: 1px solid var(--border-strong);
  border-left: 2px solid #3f7d58; border-radius: 0 6px 6px 0;
  font-size: 12px; color: var(--fg); white-space: pre-wrap;
}
#reply .acknote:empty { display: none; }
@keyframes wdyt-pulse {
  0%, 100% { opacity: 1; }
  50% { opacity: .25; }
}
@media (prefers-reduced-motion: reduce) {
  #reply .receipt.waiting .dot, #reply .receipt.delivered .dot { animation: none; }
}
/* Mirrored onto the pill, so the receipt is visible without opening the panel. */
#reply #toggle.read {
  background: var(--surface); color: #3f7d58; font-weight: 600;
  border-color: color-mix(in srgb, #3f7d58 45%, var(--border-strong));
}
"#;


/// The page's stylesheet. The chrome is a fixed palette; only the code
/// card's five `--code-*` colours come from the syntax theme.
pub fn stylesheet(colors: &crate::render::ThemeColors) -> (r: String)
    ensures
        r@ == STYLE_HEAD@ + colors.background@ + ";\n  --code-fg: "@ + colors.foreground@ + ";\n  --code-gutter: "@
            + colors.gutter@ + ";\n  --code-border: "@ + colors.border@ + ";\n  --code-muted: "@ + colors.muted@
            + STYLE_BODY_0@ + STYLE_BODY_1@ + STYLE_BODY_2@,
{
    let mut out = chars_of(STYLE_HEAD);
    push_str(&mut out, colors.background.as_str());
    push_str(&mut out, ";\n  --code-fg: ");
    push_str(&mut out, colors.foreground.as_str());
    push_str(&mut out, ";\n  --code-gutter: ");
    push_str(&mut out, colors.gutter.as_str());
    push_str(&mut out, ";\n  --code-border: ");
    push_str(&mut out, colors.border.as_str());
    push_str(&mut out, ";\n  --code-muted: ");
    push_str(&mut out, colors.muted.as_str());
    push_str(&mut out, STYLE_BODY_0);
    push_str(&mut out, STYLE_BODY_1);
    push_str(&mut out, STYLE_BODY_2);
    string_of(&out)
}

/// The reply widget: posts the reply as JSON and polls the status route for the receipt.
pub const REPLY_JS: &'static str = r#"
(function () {
  var root = document.getElementById('reply');
  if (!root) return;
  var toggle = document.getElementById('toggle');
  var form = root.querySelector('form');
  var box = root.querySelector('textarea');
  var send = root.querySelector('button.primary');
  var error = root.querySelector('.error');
  var closeBtn = root.querySelector('button.close');
  if (!toggle) return;

  function open() {
    root.classList.add('open');
    // The panel is much taller than the pill, so a widget dragged near the
    // bottom would open partly off screen.
    reclamp();
    // A session that already has a reply shows the sent text and has no box.
    if (box) box.focus();
  }
  function close() { root.classList.remove('open'); }

  // Set by a drag that started on the pill: the mouseup that ends the drag is
  // still followed by a click on the toggle, which would open the panel the
  // user was only trying to move.
  var justDragged = false;

  toggle.addEventListener('click', function () {
    if (justDragged) { justDragged = false; return; }
    open();
  });
  if (closeBtn) closeBtn.addEventListener('click', close);

  // Escape closes the panel, in every state.
  document.addEventListener('keydown', function (e) {
    if (e.key === 'Escape' && root.classList.contains('open')) close();
  });

  // --- Dragging ------------------------------------------------------------
  // The default corner is often where the framed app keeps its own controls,
  // so the widget can be moved out of the way. The position is remembered per
  // origin, since the same app tends to be reviewed repeatedly.
  var KEY = 'wdyt.reply.pos';

  function place(x, y) {
    // Clamp into view so it cannot be dragged somewhere unreachable.
    var rect = root.getBoundingClientRect();
    var maxX = Math.max(0, window.innerWidth - rect.width);
    var maxY = Math.max(0, window.innerHeight - rect.height);
    root.classList.add('moved');
    root.style.left = Math.min(Math.max(0, x), maxX) + 'px';
    root.style.top = Math.min(Math.max(0, y), maxY) + 'px';
  }

  try {
    var saved = JSON.parse(localStorage.getItem(KEY) || 'null');
    if (saved && typeof saved.x === 'number' && typeof saved.y === 'number') {
      place(saved.x, saved.y);
    }
  } catch (e) { /* private mode, or corrupt value: keep the default corner */ }

  // Keep it on screen after the panel opens (it is much taller than the pill)
  // and after the window is resized.
  function reclamp() {
    if (!root.classList.contains('moved')) return;
    var rect = root.getBoundingClientRect();
    place(rect.left, rect.top);
  }
  window.addEventListener('resize', reclamp);

  function startDrag(e) {
    // Left button only.
    if (e.button !== 0) return;
    var from = root.getBoundingClientRect();
    var dx = e.clientX - from.left;
    var dy = e.clientY - from.top;
    root.classList.add('dragging');

    // A framed demo is a cross-origin iframe: once the pointer crosses into it
    // the events go to the frame's document, not this one, and the drag stops
    // dead. A transparent shield over the whole viewport keeps them here.
    var shield = document.createElement('div');
    shield.id = 'reply-shield';
    document.body.appendChild(shield);

    function move(ev) { place(ev.clientX - dx, ev.clientY - dy); }
    function done() {
      root.classList.remove('dragging');
      shield.remove();
      document.removeEventListener('mousemove', move);
      document.removeEventListener('mouseup', done);
      try {
        var at = root.getBoundingClientRect();
        localStorage.setItem(KEY, JSON.stringify({ x: at.left, y: at.top }));
      } catch (e2) { /* not persisting is fine */ }
    }
    document.addEventListener('mousemove', move);
    document.addEventListener('mouseup', done);
    e.preventDefault();
  }

  // The open panel drags by its grip; the collapsed pill drags from anywhere on
  // itself, since a small pill is an awkward thing to put a separate handle on.
  var grip = root.querySelector('.grip');
  if (grip) grip.addEventListener('mousedown', startDrag);

  toggle.addEventListener('mousedown', function (e) {
    // A drag only begins once the pointer has actually moved a few pixels, so
    // that a plain click still opens the panel.
    var sx = e.clientX, sy = e.clientY, started = false;
    function maybe(ev) {
      if (started) return;
      if (Math.abs(ev.clientX - sx) + Math.abs(ev.clientY - sy) > 4) {
        started = true;
        // The click that follows this drag's mouseup must not open the panel.
        justDragged = true;
        document.removeEventListener('mousemove', maybe);
        startDrag(e);
      }
    }
    function stop() {
      document.removeEventListener('mousemove', maybe);
      document.removeEventListener('mouseup', stop);
    }
    document.addEventListener('mousemove', maybe);
    document.addEventListener('mouseup', stop);
  });

  // --- Read receipt --------------------------------------------------------
  // A reply sits in the daemon until an agent collects it, which may be
  // immediately or hours later. Polling the status endpoint — which never marks
  // anything itself — turns that into something visible.
  //
  // Three stages, because collection and reading are different events: an agent
  // can pick a reply up and then die before a model ever sees it.
  var session = root.getAttribute('data-session');

  var RECEIPT_TEXT = {
    read: 'The agent read this and replied',
    delivered: 'Picked up by an agent, not yet acknowledged',
    waiting: 'Waiting for an agent to pick this up'
  };

  function receiptEl() { return root.querySelector('.receipt'); }

  function showReceipt(stage, note) {
    var el = receiptEl();
    if (!el) return;
    el.className = 'receipt ' + stage;
    el.querySelector('.text').textContent = RECEIPT_TEXT[stage];
    if (stage === 'read') toggle.classList.add('read');

    // The agent's own note about what it is doing, inserted after the receipt.
    if (!note) return;
    var panel = el.parentNode;
    var slot = panel.querySelector('.acknote');
    if (!slot) {
      slot = document.createElement('p');
      slot.className = 'acknote';
      el.insertAdjacentElement('afterend', slot);
    }
    slot.textContent = note;
  }

  function watch() {
    if (!session) return;
    var stop = false;
    function poll() {
      if (stop) return;
      fetch('/api/sessions/' + session + '/status')
        .then(function (res) { return res.ok ? res.json() : null; })
        .then(function (s) {
          if (!s || !s.replied) return;
          var stage = s.ack ? 'read' : (s.delivered ? 'delivered' : 'waiting');
          showReceipt(stage, s.ack && s.ack.note);
          // An ack is terminal: there is nothing further to learn. Delivery is
          // not — the interesting question is whether an ack ever follows.
          if (s.ack) stop = true;
        })
        .catch(function () { /* daemon restarted or gone: keep trying */ })
        .then(function () { if (!stop) setTimeout(poll, 3000); });
    }
    poll();
  }

  // A page loaded after a reply was already sent starts watching immediately;
  // the server has rendered the receipt in whichever state it was in.
  if (receiptEl()) watch();

  // The rest is sending, which only applies while the form is still there.
  if (!form || !box || !send || !error) return;

  // Cmd/Ctrl+Enter sends without reaching for a mouse.
  box.addEventListener('keydown', function (e) {
    if ((e.metaKey || e.ctrlKey) && e.key === 'Enter') form.requestSubmit();
  });

  form.addEventListener('submit', function (e) {
    e.preventDefault();
    var text = box.value.trim();
    if (!text) { box.focus(); return; }

    send.disabled = true;
    error.textContent = '';
    fetch(form.action, {
      method: 'POST',
      headers: { 'Content-Type': 'application/json' },
      body: JSON.stringify({ text: text })
    }).then(function (res) {
      return res.json().then(function (body) { return { ok: res.ok, body: body }; });
    }).then(function (r) {
      if (!r.ok || !r.body.accepted) {
        throw new Error(r.body && r.body.message ? r.body.message : 'could not send');
      }
      // Replace the form with the sent text: this is a single reply, so
      // there is nothing left to type into.
      var panel = root.querySelector('.panel');
      panel.innerHTML = '';
      var p = document.createElement('p');
      p.className = 'sent';
      p.style.margin = '0';
      var label = document.createElement('b');
      label.textContent = 'Sent to the agent';
      p.appendChild(label);
      p.appendChild(document.createElement('br'));
      p.appendChild(document.createTextNode(r.body.text));
      panel.appendChild(p);

      // Same element the server renders, so `showReceipt` works either way.
      var receipt = document.createElement('p');
      receipt.className = 'receipt waiting';
      var dot = document.createElement('span');
      dot.className = 'dot';
      var text = document.createElement('span');
      text.className = 'text';
      text.textContent = RECEIPT_TEXT.waiting;
      receipt.appendChild(dot);
      receipt.appendChild(text);
      panel.appendChild(receipt);

      // Same shape as the server renders for an already-replied session, so
      // the panel can still be dismissed and reopened.
      var row = document.createElement('div');
      row.className = 'row';
      var spacer = document.createElement('span');
      spacer.className = 'spacer';
      var dismiss = document.createElement('button');
      dismiss.type = 'button';
      dismiss.className = 'close';
      dismiss.textContent = 'Close';
      dismiss.addEventListener('click', close);
      row.appendChild(spacer);
      row.appendChild(dismiss);
      panel.appendChild(row);

      toggle.textContent = 'Reply sent';
      toggle.className = 'done';
      // Start watching for the agent to pick it up.
      watch();
    }).catch(function (err) {
      error.textContent = String(err.message || err);
      send.disabled = false;
    });
  });
})();
"#;

/// Collapsing and restoring the top bar, remembered across reloads.
pub const CHROME_JS: &'static str = r#"
(function () {
  var hide = document.getElementById('chrome-toggle');
  var show = document.getElementById('chrome-show');
  if (!hide || !show) return;
  var KEY = 'wdyt.chrome.hidden';

  function apply(hidden) {
    document.body.classList.toggle('nochrome', hidden);
    try { localStorage.setItem(KEY, hidden ? '1' : '0'); } catch (e) {}
  }

  try { if (localStorage.getItem(KEY) === '1') apply(true); } catch (e) {}

  hide.addEventListener('click', function () { apply(true); });
  show.addEventListener('click', function () { apply(false); });

  // A keyboard escape hatch, since the show pill is deliberately faint.
  document.addEventListener('keydown', function (e) {
    if (e.key !== '.' || e.metaKey || e.ctrlKey || e.altKey) return;
    var t = e.target;
    if (t && (t.tagName === 'TEXTAREA' || t.tagName === 'INPUT')) return;
    apply(!document.body.classList.contains('nochrome'));
  });
})();
"#;

/// The file navigation: the active-link tracker and the jump to the top.
pub const NAV_JS: &'static str = r##"
(function () {
  // --- Sticky gutters, only while panned -----------------------------------
  // The line-number gutter is `position: sticky` so it survives panning a long
  // line sideways, but two sticky cells per line is thousands of sticky boxes the
  // browser revisits in every pre-paint — for a gutter that, unpanned, has
  // nowhere to go. The class turns the rule on for the box being panned only.
  var boxes = document.querySelectorAll('.codebox');
  for (var bi = 0; bi < boxes.length; bi++) {
    (function (codebox) {
      codebox.addEventListener('scroll', function () {
        var panned = codebox.scrollLeft > 0;
        // Only on the transition: toggling every event would re-invalidate the
        // gutter's style on every frame of a pan.
        if (panned !== codebox.classList.contains('panned')) {
          codebox.classList.toggle('panned', panned);
        }
      }, { passive: true });
    })(boxes[bi]);
  }

  // --- Jump to top ---------------------------------------------------------
  var btn = document.getElementById('jump-top');
  if (btn) {
    var threshold = 300;
    var ticking = false;
    function checkScroll() {
      ticking = false;
      btn.classList.toggle('visible', window.scrollY > threshold);
    }
    window.addEventListener('scroll', function () {
      if (!ticking) { ticking = true; requestAnimationFrame(checkScroll); }
    }, { passive: true });
    btn.addEventListener('click', function () {
      var prefersReduced = window.matchMedia('(prefers-reduced-motion: reduce)').matches;
      window.scrollTo({ top: 0, behavior: prefersReduced ? 'auto' : 'smooth' });
    });
    checkScroll();
  }

  // --- Sidebar active tracking ---------------------------------------------
  var nav = document.querySelector('nav.files.has-sidebar');
  if (!nav) return;

  // Add the body class so CSS can shift the main content.
  document.body.classList.add('has-file-sidebar');

  var links = nav.querySelectorAll('a[href^="#"]');
  if (!links.length) return;

  // Map section ids to their nav links.
  var sections = [];
  for (var i = 0; i < links.length; i++) {
    var href = links[i].getAttribute('href');
    if (!href || href.length < 2) continue;
    var target = document.getElementById(href.slice(1));
    if (target) sections.push({ el: target, link: links[i] });
  }
  if (!sections.length) return;

  var current = null;
  var observer = new IntersectionObserver(function (entries) {
    // Find the topmost visible section.
    var visible = null;
    for (var j = 0; j < entries.length; j++) {
      if (entries[j].isIntersecting) {
        if (!visible || entries[j].boundingClientRect.top < visible.boundingClientRect.top) {
          visible = entries[j];
        }
      }
    }
    if (visible) {
      var id = visible.target.id;
      if (id !== current) {
        current = id;
        for (var k = 0; k < sections.length; k++) {
          sections[k].link.classList.toggle('active', sections[k].el.id === id);
        }
      }
    }
  }, { rootMargin: '-10% 0px -70% 0px', threshold: 0 });

  for (var si = 0; si < sections.length; si++) {
    observer.observe(sections[si].el);
  }
})();
"##;

/// Line comments on code and diff tables: the `+` buttons, drags over ranges, and the floating editor.
pub const COMMENT_JS: &'static str = r#"
(function () {
  var root = document.querySelector('[data-comments]');
  if (!root) return;
  var session = root.getAttribute('data-session');
  var open = null;
  // A drag in progress: the `+` it started on, and the row it is currently over.
  var drag = null;

  // --- Helpers for safe integer and range validation -------------------------
  function safeLineNo(n) {
    var v = Number(n);
    return Number.isFinite(v) && v > 0 && v <= Number.MAX_SAFE_INTEGER && v === Math.floor(v) ? v : null;
  }

  function close() {
    if (open) { open.remove(); open = null; }
    clearPreview();
  }

  function clearPreview() {
    var marked = root.querySelectorAll('tr.selecting');
    for (var i = 0; i < marked.length; i++) marked[i].classList.remove('selecting');
  }

  // Every commentable row on one side of one file, in document order.
  // Uses attribute comparison on actual DOM elements rather than string
  // interpolation into selectors, which is unsafe for paths with quotes.
  //
  // Memoised, because the scan is over every `+` in the page — thousands of them
  // on a real diff — and a drag would otherwise repeat it on every pointermove.
  // Safe to cache for the session: `.addnote` buttons are rendered once by the
  // server and never added or removed, only note rows are.
  var siblingCache = Object.create(null);
  function siblings(button) {
    var file = button.getAttribute('data-file');
    var side = button.getAttribute('data-side');
    var key = side + '\u0000' + file;
    if (siblingCache[key]) return siblingCache[key];
    var all = root.querySelectorAll('.addnote');
    var rows = [];
    for (var i = 0; i < all.length; i++) {
      if (all[i].getAttribute('data-file') === file &&
          all[i].getAttribute('data-side') === side) {
        rows.push(all[i]);
      }
    }
    siblingCache[key] = rows;
    return rows;
  }

  // Revealed context brings `+` buttons the memo has never seen, so it must not
  // outlive a reveal. Announced by EXPAND_JS rather than watched for, since a
  // MutationObserver over a whole diff is a poor way to learn one fact.
  root.addEventListener('wdyt:revealed', function () {
    siblingCache = Object.create(null);
  });

  // Highlight what a range would cover while the pointer is still down.
  function preview(from, to) {
    clearPreview();
    var lo = safeLineNo(from.getAttribute('data-line'));
    var hi = safeLineNo(to.getAttribute('data-line'));
    if (lo == null || hi == null) return;
    if (lo > hi) { var t = lo; lo = hi; hi = t; }
    mark(from, lo, hi, 'selecting');
  }

  // Mark every rendered row a range covers. Iterates actual rendered buttons
  // rather than a numeric span, so a hostile huge range cannot cause unbounded
  // work.
  function mark(from, lo, hi, cls) {
    var buttons = siblings(from);
    for (var i = 0; i < buttons.length; i++) {
      var n = safeLineNo(buttons[i].getAttribute('data-line'));
      if (n != null && n >= lo && n <= hi) buttons[i].closest('tr').classList.add(cls);
    }
  }

  // A range is selected by pressing on one `+` and releasing on another. Pointer
  // events rather than mouse ones, so a trackpad drag and a touch both work.
  root.addEventListener('pointerdown', function (e) {
    var button = e.target.closest ? e.target.closest('.addnote') : null;
    if (!button || e.button !== 0) return;
    drag = { from: button, moved: false };
  });

  root.addEventListener('pointermove', function (e) {
    if (!drag) return;
    var over = e.target.closest ? e.target.closest('tr') : null;
    if (!over) return;
    var button = over.querySelector('.addnote');
    // Only within the same file and side: a range across a file boundary has no
    // meaning, and the server would reject it anyway.
    if (!button
        || button.getAttribute('data-file') !== drag.from.getAttribute('data-file')
        || button.getAttribute('data-side') !== drag.from.getAttribute('data-side')) return;
    // Still over the row the last move already drew: redrawing it would retint
    // the same rows and repaint the table for nothing, several times a second.
    if (button === drag.to) return;
    if (button !== drag.from) drag.moved = true;
    drag.to = button;
    if (drag.moved) preview(drag.from, button);
  });

  document.addEventListener('pointerup', function () {
    if (!drag) return;
    var from = drag.from;
    var to = drag.moved && drag.to ? drag.to : from;
    drag = null;
    clearPreview();
    openBox(from, to);
  });

  function noteRow(anchor) {
    // Comments on a line live in one `tr.notes` immediately after it, so a
    // second comment joins the first instead of starting a new block.
    var next = anchor.nextElementSibling;
    if (next && next.classList.contains('notes')) return next;
    var row = document.createElement('tr');
    row.className = 'notes';
    row.innerHTML = '<td class="ln" colspan="2"></td><td class="code"></td>';
    anchor.parentNode.insertBefore(row, next);
    return row;
  }

  function render(comment, into) {
    var note = document.createElement('div');
    note.className = 'note';
    // Stable anchor so the fragment script can scroll to it.
    if (comment.id != null) note.id = 'comment-' + comment.id;
    // Marks it as the head of a discussion, which is what THREAD_JS looks for:
    // the comment just made can be answered without reloading the page.
    if (comment.id != null) note.setAttribute('data-thread', comment.id);
    var who = document.createElement('span');
    who.className = 'who';
    who.textContent = 'you';
    // Same shape the server renders, so a reload looks identical.
    if (comment.end_line && comment.end_line > comment.line) {
      var span = document.createElement('span');
      span.className = 'span';
      span.textContent = 'L' + comment.line + '\u2013L' + comment.end_line;
      who.appendChild(span);
    }
    note.appendChild(who);
    // Discoverable permalink.
    if (comment.id != null) {
      var plink = document.createElement('a');
      plink.className = 'permalink';
      plink.href = '#comment-' + comment.id;
      plink.title = 'Link to this comment';
      plink.textContent = '#';
      note.appendChild(plink);
    }
    note.appendChild(document.createTextNode(comment.text));
    into.appendChild(note);
  }

  // Base64url encode (no padding) for building sel- fragments.
  function b64encode(s) {
    return btoa(unescape(encodeURIComponent(s)))
      .replace(/\+/g, '-').replace(/\//g, '_').replace(/=+$/, '');
  }

  function selFragment(path, side, start, end) {
    var enc = b64encode(path);
    if (end && end !== start) return 'sel-' + enc + '-' + side + '-' + start + '-' + end;
    return 'sel-' + enc + '-' + side + '-' + start;
  }

  // The editor floats over the listing instead of being a row inside it: a `<tr>`
  // in the diff table means every keystroke dirties a table holding the whole
  // file, which the browser answers by re-laying-out and repainting all of it
  // (measured: 40ms a character on a 3,600-line diff, 12ms for the same box
  // outside the table). Placed in document coordinates rather than fixed ones, so
  // it travels with the code as the page scrolls without a scroll handler.
  function place(box, row) {
    var code = row.querySelector('td.code') || row;
    var r = code.getBoundingClientRect();
    box.style.left = (r.left + window.scrollX + 20) + 'px';
    box.style.top = (r.bottom + window.scrollY + 2) + 'px';
    box.style.width = Math.max(280, Math.min(660, r.width - 40)) + 'px';
  }

  // A resize changes the width the box was measured against.
  window.addEventListener('resize', function () {
    if (open && open.anchorRow) place(open, open.anchorRow);
  });

  function openBox(from, to) {
    // The box hangs below the last line of the range, so the whole passage it is
    // about stays visible above it.
    var lo = safeLineNo(from.getAttribute('data-line'));
    var hi = safeLineNo(to.getAttribute('data-line'));
    if (lo == null || hi == null) return;
    if (lo > hi) { var t = lo; lo = hi; hi = t; }
    var last = hi === Number(from.getAttribute('data-line')) ? from : to;
    var line = last.closest('tr');

    // Pressing the same line twice closes the box rather than opening a second.
    var reopen = !open || open.anchorRow !== line;
    close();
    if (!reopen) return;

    // Update the URL fragment to the selection so the range is copyable.
    var filePath = from.getAttribute('data-file');
    var side = from.getAttribute('data-side');
    var frag = selFragment(filePath, side, lo, hi);
    history.replaceState(null, '', '#' + frag);

    var span = hi > lo ? ' (L' + lo + '\u2013L' + hi + ')' : '';
    var label = hi > lo ? 'Comment on lines ' + lo + ' to ' + hi : 'Comment on this line';
    var mac = navigator.platform && navigator.platform.indexOf('Mac') > -1;
    var chord = mac ? 'Cmd' : 'Ctrl';
    var box = document.createElement('div');
    box.className = 'notebox';
    box.innerHTML =
      (hi > lo ? '<span class="about">Lines ' + lo + '\u2013' + hi + '</span>' : '') +
      '<textarea aria-label="' + label + '"></textarea>' +
      '<div class="row"><span class="msg"></span>' +
      '<kbd class="kb-hint" aria-label="Keyboard shortcuts: ' + chord +
      '+Enter to send, Escape to cancel">' +
      '<abbr title="' + chord + '+Enter">' + (mac ? '\u2318+Enter' : 'Ctrl+Enter') +
      '</abbr> send \u00B7 <abbr title="Escape">Esc</abbr> cancel</kbd>' +
      '<button type="button" class="cancel">Cancel</button>' +
      '<button type="button" class="primary">Comment</button>' +
      '</div>';
    // The row it is about, for repositioning and for where the saved note goes.
    box.anchorRow = line;
    document.body.appendChild(box);
    place(box, line);
    open = box;

    // Keep the covered rows marked while the box is open, so it is unambiguous
    // what a multi-line comment is about.
    if (hi > lo) mark(from, lo, hi, 'selecting');

    var textbox = box.querySelector('textarea');
    var submit = box.querySelector('button.primary');
    var msg = box.querySelector('.msg');
    textbox.placeholder =
      (hi > lo ? 'Comment on these lines' : 'Comment on this line') + span + '\u2026';
    textbox.focus();

    // A box opened on the last visible line would hang below the fold. It is in
    // document coordinates, so scrolling brings it and the code up together.
    var below = box.getBoundingClientRect().bottom - (window.innerHeight - 12);
    if (below > 0) window.scrollBy(0, below);

    box.querySelector('button.cancel').addEventListener('click', close);
    textbox.addEventListener('keydown', function (ev) {
      if (ev.key === 'Escape') { close(); return; }
      if ((ev.metaKey || ev.ctrlKey) && ev.key === 'Enter') submit.click();
    });

    submit.addEventListener('click', function () {
      var text = textbox.value.trim();
      if (!text) { textbox.focus(); return; }
      submit.disabled = true;
      msg.textContent = '';
      fetch('/s/' + session + '/comments', {
        method: 'POST',
        headers: { 'Content-Type': 'application/json' },
        body: JSON.stringify({
          file: from.getAttribute('data-file'),
          line: lo,
          end_line: hi,
          side: from.getAttribute('data-side'),
          text: text
        })
      }).then(function (res) {
        if (!res.ok) throw new Error('could not save the comment');
        return res.json();
      }).then(function (comment) {
        // The editor gives way to the saved comment, under the line it is about.
        close();
        // The rows the comment covers keep their mark, now permanently.
        if (hi > lo) mark(from, lo, hi, 'inrange');
        render(comment, noteRow(line).querySelector('td.code'));
        // A comment is the head of a discussion: the thread script paints its
        // receipt and reply control, and should not wait for its next poll to
        // notice a thread the reader is looking at right now.
        root.dispatchEvent(new CustomEvent('wdyt:commented'));
        // Update the URL to point at the new comment for deep-linking.
        if (comment.id != null) {
          history.replaceState(null, '', '#comment-' + comment.id);
        }
      }).catch(function (err) {
        msg.textContent = String(err.message || err);
        submit.disabled = false;
      });
    });
  }
})();
"#;

/// Revealing the lines a diff leaves out between its hunks.
pub const EXPAND_JS: &'static str = r##"
(function () {
  var root = document.querySelector('[data-comments]');
  if (!root) return;
  var session = root.getAttribute('data-session');
  // About a screenful, and what a reader means by "a bit more"; the whole gap
  // is one click away for when it is not.
  var STEP = 20;
  // A gap can be thousands of lines long. One click inserts at most this many
  // rows, and the daemon caps the request as well.
  var MAX_AT_ONCE = 1000;

  function range(band) {
    var from = parseInt(band.getAttribute('data-from'), 10);
    var to = parseInt(band.getAttribute('data-to'), 10);
    if (!Number.isFinite(from) || !Number.isFinite(to) || from < 1 || to < from) return null;
    return { from: from, to: to, count: to - from + 1 };
  }

  function control(take, label, title) {
    var button = document.createElement('button');
    button.type = 'button';
    button.className = 'expand';
    button.setAttribute('data-take', take);
    button.textContent = label;
    button.title = title;
    return button;
  }

  function paint(band) {
    var cell = band.querySelector('td.code');
    if (!cell) return;
    // The `@@` line's section heading, which the server put here and which
    // outlives every reveal.
    var section = cell.querySelector('.section');
    cell.textContent = '';
    var left = range(band);
    if (!left) { if (section) cell.appendChild(section); return; }
    var group = document.createElement('span');
    group.className = 'expanders';
    // At the end of a file there is nothing below the band, so growing upward
    // from below it would leave the revealed lines stranded under a gap.
    var trailing = band.getAttribute('data-place') === 'after';
    if (left.count > STEP) {
      group.appendChild(control('head', '\u2193 ' + STEP,
        'Show ' + STEP + ' lines from line ' + left.from));
    }
    group.appendChild(control('all',
      '\u22EF ' + left.count + (left.count === 1 ? ' line' : ' lines'),
      'Show all the hidden lines, ' + left.from + ' to ' + left.to));
    if (left.count > STEP && !trailing) {
      group.appendChild(control('tail', '\u2191 ' + STEP,
        'Show ' + STEP + ' lines up to line ' + left.to));
    }
    cell.appendChild(group);
    if (section) cell.appendChild(section);
  }

  // A revealed line looks exactly like a context line the patch did include,
  // because that is what it is: same columns, same comment affordance.
  function contextRow(line, file) {
    var row = document.createElement('tr');
    row.className = 'ctx';
    var old = document.createElement('td');
    old.className = 'ln old';
    if (line.old != null) old.textContent = line.old;
    var current = document.createElement('td');
    current.className = 'ln new';
    current.textContent = line.new;
    var code = document.createElement('td');
    code.className = 'code';
    var add = document.createElement('button');
    add.type = 'button';
    add.className = 'addnote';
    add.title = 'Comment on this line, or drag to cover more';
    add.setAttribute('data-file', file);
    add.setAttribute('data-line', line.new);
    add.setAttribute('data-side', 'new');
    add.textContent = '+';
    code.appendChild(add);
    var marker = document.createElement('span');
    marker.className = 'marker';
    marker.textContent = ' ';
    code.appendChild(marker);
    var text = document.createElement('span');
    // Highlighted by the daemon, from the same syntect pass the diff came from.
    text.innerHTML = line.html;
    code.appendChild(text);
    row.appendChild(old);
    row.appendChild(current);
    row.appendChild(code);
    return row;
  }

  function reveal(band, take) {
    var left = range(band);
    if (!left) return;
    var from = left.from;
    var to = left.to;
    if (take === 'head') to = Math.min(to, from + STEP - 1);
    else if (take === 'tail') from = Math.max(from, to - STEP + 1);
    else to = Math.min(to, from + MAX_AT_ONCE - 1);

    var buttons = band.querySelectorAll('button');
    for (var i = 0; i < buttons.length; i++) buttons[i].disabled = true;

    // Every revealed row lands above this one, whichever end was taken, so it is
    // the thing to keep still: inserting lines above the fold would otherwise
    // carry off whatever the reader was looking at.
    var anchor = band.nextElementSibling || band.previousElementSibling || band;
    var wasAt = anchor.getBoundingClientRect().top;

    fetch('/s/' + session + '/context?file=' + encodeURIComponent(band.getAttribute('data-index')) +
          '&from=' + from + '&to=' + to)
      .then(function (res) {
        if (!res.ok) throw new Error('could not load those lines');
        return res.json();
      })
      .then(function (data) {
        var rows = document.createDocumentFragment();
        for (var i = 0; i < data.lines.length; i++) {
          rows.appendChild(contextRow(data.lines[i], data.file));
        }
        // The band stays inside what is still hidden: lines taken from the top go
        // above it, lines taken from the bottom go below.
        if (take === 'tail') {
          band.parentNode.insertBefore(rows, band.nextSibling);
          band.setAttribute('data-to', from - 1);
        } else {
          band.parentNode.insertBefore(rows, band);
          band.setAttribute('data-from', to + 1);
        }
        if (range(band)) paint(band); else band.remove();
        // The comment script memoises the `+` buttons a drag can run between, and
        // there are new ones now.
        root.dispatchEvent(new CustomEvent('wdyt:revealed'));
        window.scrollBy(0, anchor.getBoundingClientRect().top - wasAt);
      })
      .catch(function (err) {
        paint(band);
        var cell = band.querySelector('td.code');
        if (!cell) return;
        var msg = document.createElement('span');
        msg.className = 'msg';
        msg.textContent = String(err.message || err);
        cell.appendChild(msg);
      });
  }

  root.addEventListener('click', function (e) {
    var button = e.target.closest ? e.target.closest('.expand') : null;
    if (!button) return;
    var band = button.closest('tr.gap');
    if (band) reveal(band, button.getAttribute('data-take'));
  });

  var bands = root.querySelectorAll('tr.gap');
  for (var i = 0; i < bands.length; i++) paint(bands[i]);
})();
"##;

/// The discussion under each comment: the messages, the receipt, and the reply control.
pub const THREAD_JS: &'static str = r##"
(function () {
  var root = document.querySelector('[data-comments]');
  if (!root) return;
  var session = root.getAttribute('data-session');
  // Often enough that an answer feels like an answer, rarely enough that a page
  // left open all afternoon is not a load on the daemon.
  var EVERY = 3000;
  var timer = null;
  // The reply box, if one is open. One at a time, like the comment editor.
  var box = null;

  function notes() { return root.querySelectorAll('.note[data-thread]'); }

  function foot(note) {
    var found = note.querySelector('.threadfoot');
    if (!found) {
      found = document.createElement('div');
      found.className = 'threadfoot';
      note.appendChild(found);
    }
    return found;
  }

  // What the reader is owed. Null when the agent has spoken last; otherwise
  // whether anything has picked the question up yet.
  function pending(thread) {
    var replies = thread.replies || [];
    var last = replies.length ? replies[replies.length - 1] : null;
    if (last) {
      if (last.from !== 'user') return null;
      return { delivered: !!last.delivered_at };
    }
    return { delivered: !!thread.delivered_at };
  }

  function said(message) {
    var div = document.createElement('div');
    div.className = 'said ' + (message.from === 'agent' ? 'agent' : 'user');
    div.setAttribute('data-message', message.id);
    var who = document.createElement('span');
    who.className = 'who';
    who.textContent = message.from === 'agent' ? 'agent' : 'you';
    div.appendChild(who);
    div.appendChild(document.createTextNode(message.text));
    return div;
  }

  // Whatever this note has not shown yet, in order, above the foot.
  function catchUp(note, thread) {
    var known = {};
    var shown = note.querySelectorAll('[data-message]');
    for (var i = 0; i < shown.length; i++) known[shown[i].getAttribute('data-message')] = true;
    var replies = thread.replies || [];
    var mark = foot(note);
    var added = 0;
    for (var j = 0; j < replies.length; j++) {
      if (known[String(replies[j].id)]) continue;
      note.insertBefore(said(replies[j]), mark);
      added++;
    }
    return added;
  }

  // The three states the session's own receipt uses, per thread: nobody has this
  // yet, an agent has it, the agent has answered — and the answer is the message
  // above, which is why an answered thread says nothing here.
  //
  // Repainted only when it would say something different. A poll that rebuilds
  // the foot of every thread dirties the table it sits in, and the whole diff is
  // relaid out and repainted for a receipt that has not changed — several times a
  // minute, for as long as the page is open.
  function paint(note, thread) {
    var owed = pending(thread);
    var state = !owed ? 'answered' : owed.delivered ? 'delivered' : 'waiting';
    if (note.getAttribute('data-state') === state) return;
    note.setAttribute('data-state', state);
    var mark = foot(note);
    mark.textContent = '';
    if (owed) {
      var receipt = document.createElement('span');
      receipt.className = 'receipt ' + (owed.delivered ? 'delivered' : 'waiting');
      var dot = document.createElement('span');
      dot.className = 'dot';
      receipt.appendChild(dot);
      receipt.appendChild(document.createTextNode(
        owed.delivered ? 'picked up by an agent' : 'waiting for an agent'));
      mark.appendChild(receipt);
    }
    var reply = document.createElement('button');
    reply.type = 'button';
    reply.className = 'threadreply';
    reply.textContent = 'Reply';
    reply.title = 'Say something else about this line';
    mark.appendChild(reply);
  }

  function close() {
    if (box) { box.remove(); box = null; }
  }

  // Anchored under the note, in document coordinates, and outside the table for
  // the same reason the comment editor is: typing must not relayout the diff.
  function openReply(note) {
    var already = box && box.forNote === note;
    close();
    if (already) return;
    var thread = note.getAttribute('data-thread');
    var rect = note.getBoundingClientRect();
    box = document.createElement('div');
    box.className = 'notebox';
    box.forNote = note;
    box.innerHTML =
      '<textarea aria-label="Reply in this discussion"></textarea>' +
      '<div class="row"><span class="msg"></span>' +
      '<button type="button" class="cancel">Cancel</button>' +
      '<button type="button" class="primary">Send</button>' +
      '</div>';
    box.style.left = (rect.left + window.scrollX) + 'px';
    box.style.top = (rect.bottom + window.scrollY + 4) + 'px';
    box.style.width = Math.max(280, Math.min(620, rect.width)) + 'px';
    document.body.appendChild(box);
    var text = box.querySelector('textarea');
    var send = box.querySelector('button.primary');
    var msg = box.querySelector('.msg');
    text.placeholder = 'Reply\u2026';
    text.focus();
    var below = box.getBoundingClientRect().bottom - (window.innerHeight - 12);
    if (below > 0) window.scrollBy(0, below);

    box.querySelector('button.cancel').addEventListener('click', close);
    text.addEventListener('keydown', function (e) {
      if (e.key === 'Escape') { close(); return; }
      if ((e.metaKey || e.ctrlKey) && e.key === 'Enter') send.click();
    });
    send.addEventListener('click', function () {
      var body = text.value.trim();
      if (!body) { text.focus(); return; }
      send.disabled = true;
      msg.textContent = '';
      fetch('/s/' + session + '/comments/' + encodeURIComponent(thread) + '/messages', {
        method: 'POST',
        headers: { 'Content-Type': 'application/json' },
        body: JSON.stringify({ text: body })
      }).then(function (res) {
        if (!res.ok) throw new Error('could not send that');
        return res.json();
      }).then(function (message) {
        close();
        note.insertBefore(said(message), foot(note));
        // Said by the reader, so the thread is waiting on an agent again.
        paint(note, { replies: [message] });
        refresh();
      }).catch(function (err) {
        msg.textContent = String(err.message || err);
        send.disabled = false;
      });
    });
  }

  root.addEventListener('click', function (e) {
    var button = e.target.closest ? e.target.closest('.threadreply') : null;
    if (!button) return;
    var note = button.closest('.note[data-thread]');
    if (note) openReply(note);
  });

  function refresh() {
    var live = notes();
    // Nothing to hear about yet: a page with no comments on it is not waiting for
    // anything, and the request would be an empty answer either way.
    if (!live.length) return Promise.resolve();
    return fetch('/s/' + session + '/threads')
      .then(function (res) { return res.ok ? res.json() : null; })
      .then(function (data) {
        if (!data || !data.threads) return;
        var byId = {};
        for (var i = 0; i < data.threads.length; i++) byId[String(data.threads[i].id)] = data.threads[i];
        var current = notes();
        for (var j = 0; j < current.length; j++) {
          var thread = byId[current[j].getAttribute('data-thread')];
          if (!thread) continue;
          catchUp(current[j], thread);
          paint(current[j], thread);
        }
      })
      .catch(function () { /* a daemon restart is not worth a broken page */ });
  }

  function start() { if (!timer) timer = setInterval(refresh, EVERY); }
  function stop() { if (timer) { clearInterval(timer); timer = null; } }

  document.addEventListener('visibilitychange', function () {
    if (document.visibilityState === 'visible') { refresh(); start(); } else { stop(); }
  });

  // A comment just made is a thread just started.
  root.addEventListener('wdyt:commented', function () { refresh(); });

  // Paint what the server already rendered, then keep it current.
  refresh();
  start();
})();
"##;

/// Following `sel-`, `c-` and file-line fragments to the lines they name.
pub const FRAGMENT_JS: &'static str = r##"
(function () {
  // Respect reduced motion preference for scrolling.
  var scrollBehavior = window.matchMedia('(prefers-reduced-motion: reduce)').matches
    ? 'auto' : 'smooth';

  // Base64url decode (no padding).
  function b64decode(s) {
    // Restore padding for atob.
    var pad = (4 - s.length % 4) % 4;
    var b64 = s.replace(/-/g, '+').replace(/_/g, '/') + '===='.slice(0, pad);
    try { return decodeURIComponent(escape(atob(b64))); }
    catch (e) { return null; }
  }

  // Base64url encode (no padding).
  function b64encode(s) {
    return btoa(unescape(encodeURIComponent(s)))
      .replace(/\+/g, '-').replace(/\//g, '_').replace(/=+$/, '');
  }

  // Build a sel fragment for a line or range.
  function selFragment(path, side, start, end) {
    var enc = b64encode(path);
    if (end && end !== start) return 'sel-' + enc + '-' + side + '-' + start + '-' + end;
    return 'sel-' + enc + '-' + side + '-' + start;
  }

  // Safe positive integer check: must be finite, positive, and within safe range.
  function safeInt(n) {
    return Number.isFinite(n) && n > 0 && n <= Number.MAX_SAFE_INTEGER && n === Math.floor(n);
  }

  // Mirror of the Rust `file_anchor`: 'f-' then every ASCII-alphanumeric char
  // lowercased, everything else a dash. Because the path is lowercased, it can
  // never contain a capital 'L', which is what lets a trailing '-L<n>' be told
  // apart from the dashes inside a path.
  function fileAnchor(label) {
    var out = 'f-';
    for (var i = 0; i < label.length; i++) {
      var ch = label[i];
      out += /[A-Za-z0-9]/.test(ch) ? ch.toLowerCase() : '-';
    }
    return out;
  }

  // Parse a hand-written GitHub-style file-line anchor:
  //   f-<path>-L<start>            single line
  //   f-<path>-L<start>-L<end>     range
  // Returns {anchor, start, end} or null. Parsed from the RIGHT on the capital
  // 'L' markers so dashes in <path> are never mistaken for a delimiter, the same
  // disambiguation parseSel uses for sel- fragments.
  function parseFileLine(frag) {
    if (frag.length > 8192 || frag.indexOf('f-') !== 0) return null;
    // Greedy `.*` peels the LAST -L<digits>: the end line, or the single line.
    var tail = frag.match(/^(.*)-L(\d+)$/);
    if (!tail) return null;
    var end = parseInt(tail[2], 10);
    if (!safeInt(end)) return null;
    var head = tail[1];
    var start = end;
    var prefix = head;
    // A second -L<digits> immediately before it makes this a range.
    var lead = head.match(/^(.*)-L(\d+)$/);
    if (lead) {
      start = parseInt(lead[2], 10);
      if (!safeInt(start)) return null;
      prefix = lead[1];
    }
    if (prefix.indexOf('f-') !== 0) return null;
    return { anchor: prefix, start: Math.min(start, end), end: Math.max(start, end) };
  }

  // Parse a sel fragment. Returns {path, side, start, end} or null.
  function parseSel(frag) {
    if (frag.indexOf('sel-') !== 0) return null;
    // Reject oversized fragments to prevent unbounded work.
    if (frag.length > 8192) return null;
    var rest = frag.slice(4);
    // Split from right: last 2 or 3 segments are side + line(s).
    var parts = rest.split('-');
    if (parts.length < 3) return null;
    // Try range first (last is end, second-last is start, third-last is side).
    var last = parts[parts.length - 1];
    var secondLast = parts[parts.length - 2];
    var thirdLast = parts[parts.length - 3];
    // Check if last two are numbers and third-last is side.
    if (/^\d+$/.test(last) && /^\d+$/.test(secondLast) &&
        (thirdLast === 'old' || thirdLast === 'new')) {
      var encodedPath = parts.slice(0, parts.length - 3).join('-');
      if (!encodedPath || encodedPath.length > 4096) return null;
      var path = b64decode(encodedPath);
      if (!path) return null;
      var start = parseInt(secondLast, 10);
      var end = parseInt(last, 10);
      if (!safeInt(start) || !safeInt(end)) return null;
      return { path: path, side: thirdLast, start: Math.min(start, end), end: Math.max(start, end) };
    }
    // Single line: last is line, second-last is side.
    if (/^\d+$/.test(last) && (secondLast === 'old' || secondLast === 'new')) {
      var encodedPath2 = parts.slice(0, parts.length - 2).join('-');
      if (!encodedPath2 || encodedPath2.length > 4096) return null;
      var path2 = b64decode(encodedPath2);
      if (!path2) return null;
      var line = parseInt(last, 10);
      if (!safeInt(line)) return null;
      return { path: path2, side: secondLast, start: line, end: line };
    }
    return null;
  }

  function clearHighlights() {
    // Only clear highlights within code/diff areas (under [data-comments]),
    // never doc/brief highlights which are owned by the doc comment script.
    var root = document.querySelector('[data-comments]');
    if (!root) return;
    var els = root.querySelectorAll('.sel-highlight');
    for (var i = 0; i < els.length; i++) els[i].classList.remove('sel-highlight');
    // Also clear any comment highlight (comment-* anchors live in code/diff).
    var commentEls = document.querySelectorAll('.wdyt-comment.sel-highlight');
    for (var j = 0; j < commentEls.length; j++) commentEls[j].classList.remove('sel-highlight');
  }

  function highlightComment(id) {
    var el = document.getElementById('comment-' + id);
    if (!el) return false;
    clearHighlights();
    el.classList.add('sel-highlight');
    el.scrollIntoView({ block: 'center', behavior: scrollBehavior });
    return true;
  }

  function highlightSelection(sel) {
    // Find matching rows by iterating actual rendered addnote buttons rather
    // than a numeric range, so a hostile huge range cannot cause unbounded work.
    var root = document.querySelector('[data-comments]');
    if (!root) return false;
    var buttons = root.querySelectorAll('.addnote');
    var found = false;
    for (var i = 0; i < buttons.length; i++) {
      var btn = buttons[i];
      if (btn.getAttribute('data-file') !== sel.path) continue;
      if (btn.getAttribute('data-side') !== sel.side) continue;
      var n = parseInt(btn.getAttribute('data-line'), 10);
      if (n >= sel.start && n <= sel.end) {
        var row = btn.closest('tr');
        if (row) {
          if (!found) clearHighlights();
          row.classList.add('sel-highlight');
          if (!found) {
            row.scrollIntoView({ block: 'center', behavior: scrollBehavior });
            found = true;
          }
        }
      }
    }
    return found;
  }

  // Highlight a hand-written file-line anchor (`f-<path>-L<start>[-L<end>]`).
  // The parsed anchor is lossy, so it is matched by recomputing fileAnchor for
  // each rendered line's own data-file. Only the `new` side has real line
  // numbers a reader would hand-write against, matching GitHub's blob scheme.
  function highlightFileLine(fl) {
    var root = document.querySelector('[data-comments]');
    if (!root) return false;
    var buttons = root.querySelectorAll('.addnote');
    var found = false;
    for (var i = 0; i < buttons.length; i++) {
      var btn = buttons[i];
      if (btn.getAttribute('data-side') !== 'new') continue;
      if (fileAnchor(btn.getAttribute('data-file')) !== fl.anchor) continue;
      var n = parseInt(btn.getAttribute('data-line'), 10);
      if (n >= fl.start && n <= fl.end) {
        var row = btn.closest('tr');
        if (row) {
          if (!found) clearHighlights();
          row.classList.add('sel-highlight');
          if (!found) {
            // A hand-written deep link jumps instantly: smooth scrolling a long
            // diff to a line the reader named is slow, not a courtesy. (Reduced
            // motion already forces 'auto'; this makes the fast path universal.)
            row.scrollIntoView({ block: 'center', behavior: 'auto' });
            found = true;
          }
        }
      }
    }
    return found;
  }

  function handleFragment() {
    var hash = location.hash.slice(1);
    if (!hash) return;
    // Comment anchor.
    if (hash.indexOf('comment-') === 0) {
      var id = hash.slice(8);
      if (/^\d+$/.test(id)) {
        highlightComment(id);
        return;
      }
    }
    // Selection anchor.
    var sel = parseSel(hash);
    if (sel) {
      highlightSelection(sel);
      return;
    }
    // Hand-written GitHub-style file-line anchor (f-<path>-L<start>[-L<end>]).
    var fl = parseFileLine(hash);
    if (fl && highlightFileLine(fl)) {
      return;
    }
    // Otherwise fall through to native anchor handling (f-* and headings).
    // Do NOT clear code/diff highlights here: falling through means this
    // script does not own the fragment, so it should not disturb existing state.
  }

  // On load.
  if (location.hash) {
    // Defer slightly so the browser's own scroll has settled.
    setTimeout(handleFragment, 50);
  }
  // On hashchange (clicking a line-number link, back/forward, manual edit).
  window.addEventListener('hashchange', handleFragment);

  // Intercept clicks on line-number links in code mode to set a sel fragment
  // instead of the simple #L<n> that only works for single-file sessions.
  var root = document.querySelector('[data-comments]');
  if (root) {
    root.addEventListener('click', function (e) {
      var link = e.target.closest ? e.target.closest('td.ln a[href^="#"]') : null;
      if (!link) return;
      // Find the associated addnote button on this row to get file/side/line.
      var row = link.closest('tr');
      if (!row) return;
      var btn = row.querySelector('.addnote');
      if (!btn) return;
      e.preventDefault();
      var path = btn.getAttribute('data-file');
      var side = btn.getAttribute('data-side');
      var line = btn.getAttribute('data-line');
      var frag = selFragment(path, side, parseInt(line, 10));
      history.replaceState(null, '', '#' + frag);
      clearHighlights();
      row.classList.add('sel-highlight');
    });
  }
})();
"##;

/// Comments on rendered Markdown, addressed by source line.
pub const DOC_COMMENT_JS: &'static str = r##"
(function () {
  var docRoots = document.querySelectorAll('[data-doc-file]');
  if (!docRoots.length) return;

  // Load comments from hidden DOM elements (server-rendered, escaped).
  function loadComments(containerId) {
    var container = document.getElementById(containerId);
    if (!container) return [];
    var items = container.querySelectorAll('.wdyt-comment-data');
    var result = [];
    for (var i = 0; i < items.length; i++) {
      var el = items[i];
      var endLine = el.getAttribute('data-comment-end-line');
      result.push({
        id: parseInt(el.getAttribute('data-comment-id'), 10) || null,
        target: el.getAttribute('data-comment-target') || '',
        file: el.getAttribute('data-comment-file') || '',
        line: parseInt(el.getAttribute('data-comment-line'), 10) || 0,
        end_line: endLine ? parseInt(endLine, 10) : null,
        side: el.getAttribute('data-comment-side') || 'new',
        snippet: el.getAttribute('data-comment-snippet') || '',
        text: el.textContent || ''
      });
    }
    return result;
  }

  // Find the session id from the element's own data-session, or a sibling with
  // data-session. This allows the brief (which does NOT carry data-comments) to
  // find the session without stealing the COMMENT_JS root.
  function findSession(root) {
    if (root.getAttribute && root.getAttribute('data-session')) {
      return root.getAttribute('data-session');
    }
    var wrap = document.querySelector('[data-session]');
    return wrap ? wrap.getAttribute('data-session') : null;
  }

  // Parse data-sourcepos="startLine:startCol-endLine:endCol"
  function parseSourcepos(sp) {
    if (!sp) return null;
    var m = sp.match(/^(\d+):(\d+)-(\d+):(\d+)$/);
    if (!m) return null;
    return { startLine: parseInt(m[1], 10), endLine: parseInt(m[3], 10) };
  }

  function safeLineNo(n) {
    return Number.isFinite(n) && n > 0 && n <= Number.MAX_SAFE_INTEGER && n === Math.floor(n) ? n : null;
  }

  // Base64url encode (no padding).
  function b64encode(s) {
    return btoa(unescape(encodeURIComponent(s)))
      .replace(/\+/g, '-').replace(/\//g, '_').replace(/=+$/, '');
  }

  // Use the explicit target (data-doc-target) for fragment encoding, not
  // the display label. This ensures duplicate labels deep-link uniquely.
  function selFragment(docTarget, side, start, end) {
    var enc = b64encode(docTarget);
    if (end && end !== start) return 'sel-' + enc + '-' + side + '-' + start + '-' + end;
    return 'sel-' + enc + '-' + side + '-' + start;
  }

  for (var ri = 0; ri < docRoots.length; ri++) {
    (function (root) {
      var docFile = root.getAttribute('data-doc-file');
      var docTarget = root.getAttribute('data-doc-target') || docFile;
      var session = findSession(root);
      if (!session) return;

      // Only operate on DIRECT children with data-sourcepos (top-level blocks).
      // This prevents inserting affordances into nested table cells, list items,
      // etc. which would break semantics.
      var blocks = [];
      var children = root.children;
      for (var ci = 0; ci < children.length; ci++) {
        if (children[ci].getAttribute && children[ci].getAttribute('data-sourcepos')) {
          blocks.push(children[ci]);
        }
      }
      if (!blocks.length) return;

      // Existing comments for this doc root, loaded from hidden DOM elements.
      var existing = [];
      if (docTarget === 'brief') {
        existing = loadComments('wdyt-brief-comments');
      } else {
        // Filter by target if available, otherwise by file.
        var all = loadComments('wdyt-doc-comments');
        existing = all.filter(function (c) {
          if (c.target) return c.target === docTarget;
          return c.file === docFile;
        });
      }

      var openBox = null;

      function closeBox() {
        if (openBox) { openBox.remove(); openBox = null; }
      }

      function noteContainer(block) {
        // Comments live in a div immediately after the block element.
        var next = block.nextElementSibling;
        if (next && next.classList.contains('doc-notes')) return next;
        var div = document.createElement('div');
        div.className = 'doc-notes';
        block.parentNode.insertBefore(div, block.nextSibling);
        return div;
      }

      function renderNote(comment, container) {
        var note = document.createElement('div');
        note.className = 'note';
        if (comment.id != null) note.id = 'comment-' + comment.id;
        // The head of a discussion, so THREAD_JS can hang the exchange under a
        // markdown comment as it does under one on a line.
        if (comment.id != null) note.setAttribute('data-thread', comment.id);
        var who = document.createElement('span');
        who.className = 'who';
        who.textContent = 'you';
        if (comment.end_line && comment.end_line > comment.line) {
          var span = document.createElement('span');
          span.className = 'span';
          span.textContent = 'L' + comment.line + '\u2013L' + comment.end_line;
          who.appendChild(span);
        }
        note.appendChild(who);
        if (comment.id != null) {
          var plink = document.createElement('a');
          plink.className = 'permalink';
          plink.href = '#comment-' + comment.id;
          plink.title = 'Link to this comment';
          plink.textContent = '#';
          note.appendChild(plink);
        }
        note.appendChild(document.createTextNode(comment.text));
        container.appendChild(note);
      }

      // Build a map of exact source range -> block for deterministic hydration.
      var rangeToBlock = {};
      for (var i = 0; i < blocks.length; i++) {
        var sp = parseSourcepos(blocks[i].getAttribute('data-sourcepos'));
        if (sp && safeLineNo(sp.startLine) && safeLineNo(sp.endLine)) {
          rangeToBlock[sp.startLine + ':' + sp.endLine] = blocks[i];
        }
      }

      // Hydrate only an exact target+range match. A stale or legacy comment is
      // never relocated onto a different markdown block.
      for (var eci = 0; eci < existing.length; eci++) {
        var c = existing[eci];
        var commentEnd = c.end_line || c.line;
        var targetBlock = rangeToBlock[c.line + ':' + commentEnd] || null;
        if (targetBlock) {
          renderNote(c, noteContainer(targetBlock));
        }
      }

      for (var i = 0; i < blocks.length; i++) {
        (function (block) {
          var sp = parseSourcepos(block.getAttribute('data-sourcepos'));
          if (!sp) return;
          var startLine = safeLineNo(sp.startLine);
          var endLine = safeLineNo(sp.endLine);
          if (!startLine) return;

          // Make the block a positioned ancestor for the button.
          block.style.position = 'relative';

          var btn = document.createElement('button');
          btn.type = 'button';
          btn.className = 'doc-addnote';
          btn.title = 'Comment on this block';
          btn.textContent = '+';
          btn.setAttribute('data-start', startLine);
          btn.setAttribute('data-end', endLine || startLine);
          btn.setAttribute('data-doc-file', docFile);
          btn.setAttribute('data-doc-target', docTarget);
          block.insertBefore(btn, block.firstChild);

          btn.addEventListener('click', function (e) {
            e.stopPropagation();
            var lo = startLine;
            var hi = endLine || startLine;

            // Toggle: clicking the same block closes the box.
            var reopen = !openBox || openBox._block !== block;
            closeBox();
            if (!reopen) return;

            // Update URL fragment using explicit target for unique deep-links.
            var frag = selFragment(docTarget, 'new', lo, hi);
            history.replaceState(null, '', '#' + frag);

            var box = document.createElement('div');
            box.className = 'doc-notebox';
            box._block = block;
            var label = hi > lo ? 'Comment on lines ' + lo + ' to ' + hi : 'Comment on this block';
            var isMac = navigator.platform && navigator.platform.indexOf('Mac') > -1;
            var modKey = isMac ? 'Cmd' : 'Ctrl';
            box.innerHTML =
              '<textarea aria-label="' + label + '" placeholder="' + label + '\u2026"></textarea>' +
              '<div class="row"><span class="msg"></span>' +
              '<kbd class="kb-hint" aria-label="Keyboard shortcuts: ' + modKey + '+Enter to send, Escape to cancel">' +
              '<abbr title="' + modKey + '+Enter">' + (isMac ? '\u2318+Enter' : 'Ctrl+Enter') + '</abbr> send \u00B7 <abbr title="Escape">Esc</abbr> cancel</kbd>' +
              '<button type="button" class="cancel">Cancel</button>' +
              '<button type="button" class="primary">Comment</button>' +
              '</div>';
            block.parentNode.insertBefore(box, block.nextSibling);
            openBox = box;

            var textarea = box.querySelector('textarea');
            var submitBtn = box.querySelector('.primary');
            var msg = box.querySelector('.msg');
            textarea.focus();

            box.querySelector('.cancel').addEventListener('click', closeBox);
            textarea.addEventListener('keydown', function (ev) {
              if (ev.key === 'Escape') { closeBox(); return; }
              if ((ev.metaKey || ev.ctrlKey) && ev.key === 'Enter') submitBtn.click();
            });

            submitBtn.addEventListener('click', function () {
              var text = textarea.value.trim();
              if (!text) { textarea.focus(); return; }
              submitBtn.disabled = true;
              msg.textContent = '';
              fetch('/s/' + session + '/comments', {
                method: 'POST',
                headers: { 'Content-Type': 'application/json' },
                body: JSON.stringify({
                  file: docFile,
                  target: docTarget,
                  line: lo,
                  end_line: hi,
                  side: 'new',
                  text: text
                })
              }).then(function (res) {
                if (!res.ok) throw new Error('could not save the comment');
                return res.json();
              }).then(function (comment) {
                closeBox();
                renderNote(comment, noteContainer(block));
                // Same announcement the line-comment script makes: a new thread
                // for THREAD_JS to hang the discussion under.
                var hook = document.querySelector('[data-comments]');
                if (hook) hook.dispatchEvent(new CustomEvent('wdyt:commented'));
                if (comment.id != null) {
                  history.replaceState(null, '', '#comment-' + comment.id);
                }
              }).catch(function (err) {
                msg.textContent = String(err.message || err);
                submitBtn.disabled = false;
              });
            });
          });
        })(blocks[i]);
      }
    })(docRoots[ri]);
  }

  // Mirror of the Rust `file_anchor` (see FRAGMENT_JS for the rationale).
  function fileAnchor(label) {
    var out = 'f-';
    for (var i = 0; i < label.length; i++) {
      var ch = label[i];
      out += /[A-Za-z0-9]/.test(ch) ? ch.toLowerCase() : '-';
    }
    return out;
  }

  // Parse a hand-written GitHub-style file-line anchor, from the right on the
  // capital-L markers so dashes in the path are never a delimiter.
  function parseFileLine(frag) {
    if (frag.length > 8192 || frag.indexOf('f-') !== 0) return null;
    var tail = frag.match(/^(.*)-L(\d+)$/);
    if (!tail) return null;
    var end = parseInt(tail[2], 10);
    if (!safeLineNo(end)) return null;
    var start = end;
    var prefix = tail[1];
    var lead = tail[1].match(/^(.*)-L(\d+)$/);
    if (lead) {
      start = parseInt(lead[2], 10);
      if (!safeLineNo(start)) return null;
      prefix = lead[1];
    }
    if (prefix.indexOf('f-') !== 0) return null;
    return { anchor: prefix, start: Math.min(start, end), end: Math.max(start, end) };
  }

  // Resolve a file-line anchor within docs: find the doc whose label matches and
  // scroll to the first rendered block whose source range overlaps the span.
  // Markdown has no per-line addressing, so the covering block is the closest
  // faithful target; a span matching no block simply falls through.
  function handleDocFileLine(fl) {
    for (var ri = 0; ri < docRoots.length; ri++) {
      var root = docRoots[ri];
      var docFile = root.getAttribute('data-doc-file');
      // The brief has no source path a reader would link to by file anchor.
      if (!docFile || docFile === 'brief:') continue;
      if (fileAnchor(docFile) !== fl.anchor) continue;
      var children = root.children;
      for (var ci = 0; ci < children.length; ci++) {
        var child = children[ci];
        var sp = parseSourcepos(child.getAttribute ? child.getAttribute('data-sourcepos') : null);
        if (!sp) continue;
        // Overlap between the block's source span and the requested one.
        if (sp.startLine <= fl.end && sp.endLine >= fl.start) {
          // Instant jump for a hand-written deep link (see FRAGMENT_JS).
          child.scrollIntoView({ block: 'center', behavior: 'auto' });
          child.classList.add('sel-highlight');
          setTimeout(function (el) { return function () { el.classList.remove('sel-highlight'); }; }(child), 2000);
          return true;
        }
      }
    }
    return false;
  }

  // Handle doc/brief #sel links: resolve, scroll, and highlight on load/hashchange.
  // Uses data-doc-target (explicit target) for resolution, not display label.
  function handleDocFragment() {
    var hash = location.hash.slice(1);
    if (!hash) return;
    // Hand-written file-line anchor (f-<path>-L<start>[-L<end>]) → covering block.
    if (hash.indexOf('sel-') !== 0) {
      var fl = parseFileLine(hash);
      if (fl) handleDocFileLine(fl);
      return;
    }
    // Try to find a matching doc-addnote button in a doc root.
    for (var ri2 = 0; ri2 < docRoots.length; ri2++) {
      var root = docRoots[ri2];
      var docTarget = root.getAttribute('data-doc-target') || root.getAttribute('data-doc-file');
      var children = root.children;
      for (var ci2 = 0; ci2 < children.length; ci2++) {
        var child = children[ci2];
        var sp = parseSourcepos(child.getAttribute ? child.getAttribute('data-sourcepos') : null);
        if (!sp) continue;
        var btn = child.querySelector('.doc-addnote');
        if (!btn) continue;
        var start = parseInt(btn.getAttribute('data-start'), 10);
        var end = parseInt(btn.getAttribute('data-end'), 10);
        // Build what our fragment would be for this block and compare using target.
        var expected = selFragment(docTarget, 'new', start, end);
        if (expected === hash) {
          // Respect reduced motion preference.
          var motion = window.matchMedia('(prefers-reduced-motion: reduce)');
          var behavior = motion.matches ? 'auto' : 'smooth';
          child.scrollIntoView({ block: 'center', behavior: behavior });
          child.classList.add('sel-highlight');
          setTimeout(function () { child.classList.remove('sel-highlight'); }, 2000);
          return;
        }
      }
    }
  }

  if (location.hash) setTimeout(handleDocFragment, 80);
  window.addEventListener('hashchange', handleDocFragment);
})();
"##;

} // verus!
