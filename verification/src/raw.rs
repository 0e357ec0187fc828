//! What a session's raw view and its hidden diff lines are made of: the
//! patch or HTML a `raw` request returns, and the lines a context expansion
//! hands back.

use vstd::prelude::*;

use crate::server::{demo_frame_src, static_frame_src, strip_slashes, ContextLine, ContextLines};
use crate::session::{
    CodeFile, Comment, CommentView, Content, DiffFile, DiffLine, DocFile, GuidedBlock, Hunk, Side,
    comments_view, strings_view,
};
use crate::text::{chars_of, escape_markup, join, push_chars, push_str, string_of};
use crate::ui::spec_marker;

verus! {

/// What a `raw` request answers with.
#[derive(Debug, Clone)]
pub enum RawBody {
    /// A redirect to where the content really lives.
    Redirect(String),
    /// An HTML page.
    Html(String),
    /// Plain text: the patch of a diff.
    Text(String),
}

/// `s`, escaped for HTML when `escape` is set.
pub open spec fn maybe_escaped(s: Seq<char>, escape: bool) -> Seq<char> {
    if escape {
        escape_markup(s)
    } else {
        s
    }
}

/// The lines of a hunk as a patch writes them: marker, text, newline.
pub open spec fn patch_lines(ls: Seq<DiffLine>, escape: bool) -> Seq<char>
    decreases ls.len(),
{
    if ls.len() == 0 {
        Seq::empty()
    } else {
        patch_lines(ls.drop_last(), escape) + spec_marker(ls.last().kind) + maybe_escaped(
            ls.last().text@,
            escape,
        ) + seq!['\n']
    }
}

/// Hunks as a patch writes them: the header line, then the lines.
pub open spec fn patch_hunks(hs: Seq<Hunk>, escape: bool) -> Seq<char>
    decreases hs.len(),
{
    if hs.len() == 0 {
        Seq::empty()
    } else {
        patch_hunks(hs.drop_last(), escape) + maybe_escaped(hs.last().header@, escape) + seq!['\n']
            + patch_lines(hs.last().lines@, escape)
    }
}

/// A diff's files as one patch, each under `--- a/` and `+++ b/` headers.
pub open spec fn patch_files(fs: Seq<DiffFile>) -> Seq<char>
    decreases fs.len(),
{
    if fs.len() == 0 {
        Seq::empty()
    } else {
        let f = fs.last();
        patch_files(fs.drop_last()) + "--- a/"@ + f.label@ + "\n+++ b/"@ + f.label@ + seq!['\n']
            + patch_hunks(f.hunks@, false)
    }
}

/// Code files as one page: each file's highlighted table under its label.
pub open spec fn code_pages(fs: Seq<CodeFile>) -> Seq<char>
    decreases fs.len(),
{
    if fs.len() == 0 {
        Seq::empty()
    } else {
        code_pages(fs.drop_last()) + "<h2>"@ + escape_markup(fs.last().label@) + "</h2>"@
            + fs.last().html@
    }
}

/// Docs as one page: their rendered HTML, one after the other.
pub open spec fn doc_pages(fs: Seq<DocFile>) -> Seq<char>
    decreases fs.len(),
{
    if fs.len() == 0 {
        Seq::empty()
    } else {
        doc_pages(fs.drop_last()) + fs.last().html@
    }
}

/// One block of a guide as plain HTML: prose as rendered, code and patch
/// excerpts as preformatted text.
pub open spec fn block_html(b: GuidedBlock) -> Seq<char> {
    match b {
        GuidedBlock::Text { html, .. } => html@,
        GuidedBlock::Code { highlighted, .. } => "<pre><code>"@ + join(
            strings_view(highlighted@),
            seq!['\n'],
        ) + "</code></pre>"@,
        GuidedBlock::Diff { selected_hunks, .. } => "<pre><code>"@ + patch_hunks(
            selected_hunks@,
            true,
        ) + "</code></pre>"@,
    }
}

/// A guide as one page.
pub open spec fn guided_page(bs: Seq<GuidedBlock>) -> Seq<char>
    decreases bs.len(),
{
    if bs.len() == 0 {
        Seq::empty()
    } else {
        guided_page(bs.drop_last()) + block_html(bs.last())
    }
}

/// What the raw view of a session is: a demo or a directory is redirected to
/// where it is served, a diff is its patch, and everything else is HTML.
pub open spec fn spec_raw_body(content: Content, host: Seq<char>, id: Seq<char>) -> (bool, bool, Seq<char>) {
    match content {
        Content::Demo { port, path } => (
            true,
            false,
            "http://"@ + host + seq![':'] + crate::text::decimal(port as nat) + path@,
        ),
        Content::Static { entry, .. } => (true, false, "/s/"@ + id + "/assets/"@ + strip_slashes(entry@)),
        Content::Code { files } => (false, true, code_pages(files@)),
        Content::Diff { files } => (false, false, patch_files(files@)),
        Content::Docs { files } => (false, true, doc_pages(files@)),
        Content::Guided { blocks } => (false, true, guided_page(blocks@)),
    }
}

/// The parts of a raw body: whether it redirects, whether it is HTML, and
/// the location or text.
pub open spec fn raw_parts(r: RawBody) -> (bool, bool, Seq<char>) {
    match r {
        RawBody::Redirect(to) => (true, false, to@),
        RawBody::Html(body) => (false, true, body@),
        RawBody::Text(body) => (false, false, body@),
    }
}

fn push_lines(out: &mut Vec<char>, ls: &Vec<DiffLine>, escape: bool)
    ensures
        final(out)@ == old(out)@ + patch_lines(ls@, escape),
{
    let ghost start = out@;
    let mut i: usize = 0;
    assert(ls@.take(0) =~= Seq::<DiffLine>::empty());
    while i < ls.len()
        invariant
            i <= ls.len(),
            out@ == start + patch_lines(ls@.take(i as int), escape),
        decreases ls.len() - i,
    {
        assert(ls@.take(i + 1).drop_last() =~= ls@.take(i as int));
        assert(ls@.take(i + 1).last() == ls@[i as int]);
        let l = &ls[i];
        push_str(out, crate::ui::marker(l.kind));
        if escape {
            let e = crate::text::escape_markup_exec(l.text.as_str());
            push_str(out, e.as_str());
        } else {
            push_str(out, l.text.as_str());
        }
        out.push('\n');
        assert(out@ =~= start + patch_lines(ls@.take(i + 1), escape));
        i = i + 1;
    }
    assert(ls@.take(i as int) =~= ls@);
}

fn push_hunks(out: &mut Vec<char>, hs: &Vec<Hunk>, escape: bool)
    ensures
        final(out)@ == old(out)@ + patch_hunks(hs@, escape),
{
    let ghost start = out@;
    let mut i: usize = 0;
    assert(hs@.take(0) =~= Seq::<Hunk>::empty());
    while i < hs.len()
        invariant
            i <= hs.len(),
            out@ == start + patch_hunks(hs@.take(i as int), escape),
        decreases hs.len() - i,
    {
        assert(hs@.take(i + 1).drop_last() =~= hs@.take(i as int));
        assert(hs@.take(i + 1).last() == hs@[i as int]);
        let h = &hs[i];
        if escape {
            let e = crate::text::escape_markup_exec(h.header.as_str());
            push_str(out, e.as_str());
        } else {
            push_str(out, h.header.as_str());
        }
        out.push('\n');
        push_lines(out, &h.lines, escape);
        assert(out@ =~= start + patch_hunks(hs@.take(i + 1), escape));
        i = i + 1;
    }
    assert(hs@.take(i as int) =~= hs@);
}

fn patch_of(files: &Vec<DiffFile>) -> (r: Vec<char>)
    ensures
        r@ == patch_files(files@),
{
    let mut out: Vec<char> = Vec::new();
    let mut i: usize = 0;
    assert(files@.take(0) =~= Seq::<DiffFile>::empty());
    while i < files.len()
        invariant
            i <= files.len(),
            out@ == patch_files(files@.take(i as int)),
        decreases files.len() - i,
    {
        assert(files@.take(i + 1).drop_last() =~= files@.take(i as int));
        assert(files@.take(i + 1).last() == files@[i as int]);
        let f = &files[i];
        let ghost before = out@;
        push_str(&mut out, "--- a/");
        push_str(&mut out, f.label.as_str());
        push_str(&mut out, "\n+++ b/");
        push_str(&mut out, f.label.as_str());
        out.push('\n');
        push_hunks(&mut out, &f.hunks, false);
        assert(out@ =~= patch_files(files@.take(i + 1)));
        i = i + 1;
    }
    assert(files@.take(i as int) =~= files@);
    out
}

fn code_page(files: &Vec<CodeFile>) -> (r: Vec<char>)
    ensures
        r@ == code_pages(files@),
{
    let mut out: Vec<char> = Vec::new();
    let mut i: usize = 0;
    assert(files@.take(0) =~= Seq::<CodeFile>::empty());
    while i < files.len()
        invariant
            i <= files.len(),
            out@ == code_pages(files@.take(i as int)),
        decreases files.len() - i,
    {
        assert(files@.take(i + 1).drop_last() =~= files@.take(i as int));
        assert(files@.take(i + 1).last() == files@[i as int]);
        let f = &files[i];
        push_str(&mut out, "<h2>");
        let label = crate::text::escape_markup_exec(f.label.as_str());
        push_str(&mut out, label.as_str());
        push_str(&mut out, "</h2>");
        push_str(&mut out, f.html.as_str());
        assert(out@ =~= code_pages(files@.take(i + 1)));
        i = i + 1;
    }
    assert(files@.take(i as int) =~= files@);
    out
}

fn doc_page(files: &Vec<DocFile>) -> (r: Vec<char>)
    ensures
        r@ == doc_pages(files@),
{
    let mut out: Vec<char> = Vec::new();
    let mut i: usize = 0;
    assert(files@.take(0) =~= Seq::<DocFile>::empty());
    while i < files.len()
        invariant
            i <= files.len(),
            out@ == doc_pages(files@.take(i as int)),
        decreases files.len() - i,
    {
        assert(files@.take(i + 1).drop_last() =~= files@.take(i as int));
        assert(files@.take(i + 1).last() == files@[i as int]);
        push_str(&mut out, files[i].html.as_str());
        assert(out@ =~= doc_pages(files@.take(i + 1)));
        i = i + 1;
    }
    assert(files@.take(i as int) =~= files@);
    out
}

fn guide_page(blocks: &Vec<GuidedBlock>) -> (r: Vec<char>)
    ensures
        r@ == guided_page(blocks@),
{
    let mut out: Vec<char> = Vec::new();
    let mut i: usize = 0;
    assert(blocks@.take(0) =~= Seq::<GuidedBlock>::empty());
    while i < blocks.len()
        invariant
            i <= blocks.len(),
            out@ == guided_page(blocks@.take(i as int)),
        decreases blocks.len() - i,
    {
        assert(blocks@.take(i + 1).drop_last() =~= blocks@.take(i as int));
        assert(blocks@.take(i + 1).last() == blocks@[i as int]);
        let ghost before = out@;
        match &blocks[i] {
            GuidedBlock::Text { html, .. } => {
                push_str(&mut out, html.as_str());
                assert(out@ =~= before + block_html(blocks@[i as int]));
            },
            GuidedBlock::Code { highlighted, .. } => {
                push_str(&mut out, "<pre><code>");
                let mut parts: Vec<Vec<char>> = Vec::new();
                let mut k: usize = 0;
                while k < highlighted.len()
                    invariant
                        k <= highlighted.len(),
                        parts@.len() == k,
                        forall|m: int| 0 <= m < k ==> #[trigger] parts@[m]@ == highlighted@[m]@,
                    decreases highlighted.len() - k,
                {
                    parts.push(chars_of(highlighted[k].as_str()));
                    k = k + 1;
                }
                assert(crate::text::views(parts@) =~= strings_view(highlighted@));
                let joined = crate::text::join_exec(&parts, "\n");
                proof {
                    reveal_strlit("\n");
                    assert("\n"@ =~= seq!['\n']);
                }
                assert(joined@ == join(strings_view(highlighted@), seq!['\n']));
                push_chars(&mut out, &joined);
                push_str(&mut out, "</code></pre>");
                assert(out@ =~= before + block_html(blocks@[i as int]));
            },
            GuidedBlock::Diff { selected_hunks, .. } => {
                push_str(&mut out, "<pre><code>");
                push_hunks(&mut out, selected_hunks, true);
                push_str(&mut out, "</code></pre>");
                assert(out@ =~= before + block_html(blocks@[i as int]));
            },
        }
        assert(out@ =~= before + block_html(blocks@[i as int]));
        i = i + 1;
    }
    assert(blocks@.take(i as int) =~= blocks@);
    out
}

/// The raw view of a session `id` reached on `host`.
pub fn raw_body(content: &Content, host: &str, id: &str) -> (r: RawBody)
    ensures
        raw_parts(r) == spec_raw_body(*content, host@, id@),
{
    match content {
        Content::Demo { port, path } => RawBody::Redirect(demo_frame_src(host, *port, path.as_str())),
        Content::Static { entry, .. } => RawBody::Redirect(static_frame_src(id, entry.as_str())),
        Content::Code { files } => RawBody::Html(string_of(&code_page(files))),
        Content::Diff { files } => RawBody::Text(string_of(&patch_of(files))),
        Content::Docs { files } => RawBody::Html(string_of(&doc_page(files))),
        Content::Guided { blocks } => RawBody::Html(string_of(&guide_page(blocks))),
    }
}

// ---------------------------------------------------------------------------
// Lines a patch leaves out.
// ---------------------------------------------------------------------------

/// The diff file a context request at `index` is for, with the comment
/// target its lines are filed under: a file of a diff, or the file of a
/// guided diff block; only one whose source was captured.
pub open spec fn spec_context_file(content: Content, index: usize) -> Option<(DiffFile, Option<Seq<char>>)> {
    match content {
        Content::Diff { files } => if index < files@.len() && files@[index as int].source@.len() > 0 {
            Some((files@[index as int], None))
        } else {
            None
        },
        Content::Guided { blocks } => if index < blocks@.len() {
            match blocks@[index as int] {
                GuidedBlock::Diff { file, .. } => if file.source@.len() > 0 {
                    Some((file, Some("guided:"@ + crate::text::decimal(index as nat))))
                } else {
                    None
                },
                _ => None,
            }
        } else {
            None
        },
        _ => None,
    }
}

/// Finds the diff file a context request is for; see `spec_context_file`.
pub fn context_file(content: &Content, index: usize) -> (r: Option<(DiffFile, Option<String>)>)
    ensures
        match spec_context_file(*content, index) {
            Some((f, t)) => r matches Some((g, u)) && crate::session::same_diff_file(g, f)
                && crate::zellij_origin::opt_view(u) == t,
            None => r is None,
        },
{
    match content {
        Content::Diff { files } => {
            if index < files.len() && files[index].source.len() > 0 {
                Some((files[index].duplicate(), None))
            } else {
                None
            }
        },
        Content::Guided { blocks } => {
            if index < blocks.len() {
                match &blocks[index] {
                    GuidedBlock::Diff { file, .. } => {
                        if file.source.len() > 0 {
                            let mut t = chars_of("guided:");
                            crate::text::push_decimal(&mut t, index as u64);
                            Some((file.duplicate(), Some(string_of(&t))))
                        } else {
                            None
                        }
                    },
                    _ => None,
                }
            } else {
                None
            }
        },
        _ => None,
    }
}

/// A comment on a revealed line: filed under the file's label and target,
/// on the new side, ending at line `n`.
pub open spec fn ends_at(c: CommentView, label: Seq<char>, target: Option<Seq<char>>, n: usize) -> bool {
    &&& c.file == label
    &&& c.target == target
    &&& c.side == Side::New
    &&& (match c.end_line {
        Some(e) => e,
        None => c.line,
    }) == n
}

fn comments_ending_at(label: &str, target: &Option<String>, n: usize, comments: &Vec<Comment>) -> (r: Vec<Comment>)
    ensures
        comments_view(r@) == comments_view(comments@).filter(
            |c: CommentView| ends_at(c, label@, crate::zellij_origin::opt_view(*target), n),
        ),
{
    let ghost t = crate::zellij_origin::opt_view(*target);
    let ghost cs = comments_view(comments@);
    let ghost pred = |c: CommentView| ends_at(c, label@, t, n);
    let want = chars_of(label);
    let mut out: Vec<Comment> = Vec::new();
    let mut i: usize = 0;
    proof {
        reveal(Seq::filter);
        assert(cs.take(0).filter(pred) =~= Seq::<CommentView>::empty());
    }
    assert(comments_view(out@) =~= Seq::<CommentView>::empty());
    while i < comments.len()
        invariant
            i <= comments.len(),
            want@ == label@,
            t == crate::zellij_origin::opt_view(*target),
            cs == comments_view(comments@),
            pred == (|c: CommentView| ends_at(c, label@, t, n)),
            comments_view(out@) == cs.take(i as int).filter(pred),
        decreases comments.len() - i,
    {
        let c = &comments[i];
        let last = match c.end_line {
            Some(e) => e,
            None => c.line,
        };
        let same_target = match (&c.target, target) {
            (Some(a), Some(b)) => crate::text::chars_eq(&chars_of(a.as_str()), &chars_of(b.as_str())),
            (None, None) => true,
            _ => false,
        };
        let keep = crate::text::chars_eq(&chars_of(c.file.as_str()), &want) && same_target
            && c.side == Side::New && last == n;
        proof {
            reveal(Seq::filter);
            assert(cs.take(i + 1).drop_last() =~= cs.take(i as int));
            assert(cs.take(i + 1).last() == c@);
            assert(keep == pred(c@));
        }
        if keep {
            let d = c.duplicate();
            let ghost before = out@;
            out.push(d);
            assert(comments_view(out@) =~= comments_view(before).push(c@));
        }
        i = i + 1;
    }
    assert(cs.take(i as int) =~= cs);
    out
}

/// The old-side number of new-side line `n`, shifted by `offset` when the
/// diff gives one, and only when it is not negative.
pub open spec fn old_number(n: usize, offset: Option<i64>) -> Option<usize> {
    match offset {
        Some(by) => if n + by >= 0 {
            Some((n + by) as usize)
        } else {
            None
        },
        None => None,
    }
}

/// Context line `n` of the file: its numbers, its highlighted HTML (empty
/// past what the highlighter produced), and the comments that end on it.
pub open spec fn context_line_as(
    line: ContextLine,
    n: usize,
    offset: Option<i64>,
    highlighted: Seq<Seq<char>>,
    label: Seq<char>,
    target: Option<Seq<char>>,
    comments: Seq<CommentView>,
) -> bool {
    &&& line.new == n
    &&& line.old == old_number(n, offset)
    &&& line.html@ == (if 1 <= n <= highlighted.len() {
        highlighted[n - 1]
    } else {
        Seq::empty()
    })
    &&& comments_view(line.comments@) == comments.filter(|c: CommentView| ends_at(c, label, target, n))
}

/// The lines `from..=to` of a diff file's captured source, refused when they
/// run past its end.
pub fn context_lines(
    file: &DiffFile,
    target: &Option<String>,
    comments: &Vec<Comment>,
    from: usize,
    to: usize,
    highlighted: &Vec<String>,
    offset: Option<i64>,
) -> (r: Result<ContextLines, String>)
    requires
        1 <= from <= to,
        to <= i64::MAX,
        offset matches Some(by) ==> to + by <= i64::MAX,
    ensures
        to > file.source@.len() ==> (r matches Err(e) && e@ == "beyond the end of the file"@),
        to <= file.source@.len() ==> (r matches Ok(c) && c.file@ == file.label@ && c.lines@.len() == to
            - from + 1 && forall|k: int|
            0 <= k < c.lines@.len() ==> context_line_as(
                #[trigger] c.lines@[k],
                (from + k) as usize,
                offset,
                strings_view(highlighted@),
                file.label@,
                crate::zellij_origin::opt_view(*target),
                comments_view(comments@),
            )),
{
    if to > file.source.len() {
        return Err("beyond the end of the file".to_owned());
    }
    let count = to - from + 1;
    let mut lines: Vec<ContextLine> = Vec::new();
    let mut k: usize = 0;
    while k < count
        invariant
            1 <= from <= to,
            to <= i64::MAX,
            count == to - from + 1,
            k <= count,
            to <= file.source@.len(),
            offset matches Some(by) ==> to + by <= i64::MAX,
            lines@.len() == k,
            forall|m: int|
                0 <= m < lines@.len() ==> context_line_as(
                    #[trigger] lines@[m],
                    (from + m) as usize,
                    offset,
                    strings_view(highlighted@),
                    file.label@,
                    crate::zellij_origin::opt_view(*target),
                    comments_view(comments@),
                ),
        decreases count - k,
    {
        let n = from + k;
        let old = match offset {
            Some(by) => {
                let shifted: i64 = n as i64 + by;
                if shifted >= 0 {
                    Some(shifted as usize)
                } else {
                    None
                }
            },
            None => None,
        };
        let html = if n <= highlighted.len() {
            highlighted[n - 1].clone()
        } else {
            String::new()
        };
        let under = comments_ending_at(file.label.as_str(), target, n, comments);
        let line = ContextLine { new: n, old, html, comments: under };
        let ghost before = lines@;
        lines.push(line);
        proof {
            assert forall|m: int| 0 <= m < lines@.len() implies context_line_as(
                #[trigger] lines@[m],
                (from + m) as usize,
                offset,
                strings_view(highlighted@),
                file.label@,
                crate::zellij_origin::opt_view(*target),
                comments_view(comments@),
            ) by {
                if m < before.len() {
                    assert(lines@[m] == before[m]);
                }
            }
        }
        k = k + 1;
    }
    Ok(ContextLines { file: file.label.clone(), lines })
}

} // verus!
