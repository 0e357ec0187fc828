//! What the daemon's routes decide: which lines a comment quotes, whether a
//! request is acceptable, and what the agent receives next. The HTTP plumbing
//! lives around the library; the decisions are here.

use vstd::prelude::*;

use crate::session::{
    Anchor, AnchorView, Comment, Content, DiffFile, DiffLine, GuidedBlock, Hunk, LineKind, Message, Reply,
    Session, Side, spec_side_of, strings_view,
};
use crate::store::{
    first_question, locate, take_question_outcome, take_reply_outcome, Store, StoreError,
};
use crate::text::{chars_of, join, join_lines_range, parse_bounded, starts_with, string_of};

verus! {

// ---------------------------------------------------------------------------
// Quoting lines from flat sources.
// ---------------------------------------------------------------------------

/// The lines `line..=last` (1-based) of `sources`, joined by newlines; `None`
/// unless every one of them exists.
pub open spec fn spec_lines_strict(sources: Seq<Seq<char>>, line: usize, last: nat) -> Option<
    Seq<char>,
> {
    if line == 0 || line - 1 >= sources.len() || last > sources.len() {
        None
    } else {
        Some(join(sources.subrange(line - 1, last as int), seq!['\n']))
    }
}

/// The lines `line..=last` of `sources`, where `sources[0]` is line `start`;
/// `None` unless every one of them exists.
pub open spec fn spec_lines_at(sources: Seq<Seq<char>>, start: usize, line: usize, last: nat) -> Option<
    Seq<char>,
> {
    if line < start || last < start || line - start > last - start || last - start >= sources.len() {
        None
    } else {
        Some(join(sources.subrange(line - start, last - start + 1), seq!['\n']))
    }
}

/// Looks up a snippet from a flat list of source lines (1-indexed), strictly:
/// the whole range or nothing. Shared by code files, doc files and briefs.
pub fn snippet_from_lines_strict(sources: &Vec<String>, anchor: &Anchor) -> (r: Option<String>)
    ensures
        crate::zellij_origin::opt_view(r) == spec_lines_strict(
            strings_view(sources@),
            anchor.line,
            anchor.spec_last(),
        ),
{
    if anchor.line == 0 {
        return None;
    }
    let first = anchor.line - 1;
    if first >= sources.len() {
        return None;
    }
    let last = anchor.last();
    if last > sources.len() {
        return None;
    }
    Some(join_lines_range(sources, first, last))
}

/// The strict lookup for code, docs and the brief, which have no old side:
/// an anchor on the old side quotes nothing.
pub open spec fn spec_new_lines_strict(sources: Seq<Seq<char>>, a: AnchorView) -> Option<Seq<char>> {
    if a.side == Side::New {
        spec_lines_strict(sources, a.line, a.spec_last())
    } else {
        None
    }
}

/// `snippet_from_lines_strict`, refusing the old side.
fn snippet_from_new_lines(sources: &Vec<String>, anchor: &Anchor) -> (r: Option<String>)
    ensures
        crate::zellij_origin::opt_view(r) == spec_new_lines_strict(strings_view(sources@), anchor@),
{
    if anchor.side == Side::New {
        snippet_from_lines_strict(sources, anchor)
    } else {
        None
    }
}

/// Strict source lookup where `sources[0]` has the line number `source_start`,
/// as guided text and code excerpts do.
pub fn snippet_from_lines_at(sources: &Vec<String>, source_start: usize, anchor: &Anchor) -> (r:
    Option<String>)
    ensures
        crate::zellij_origin::opt_view(r) == spec_lines_at(
            strings_view(sources@),
            source_start,
            anchor.line,
            anchor.spec_last(),
        ),
{
    if anchor.line < source_start {
        return None;
    }
    let first = anchor.line - source_start;
    let end = anchor.last();
    if end < source_start {
        return None;
    }
    let last = end - source_start;
    if first > last || last >= sources.len() {
        return None;
    }
    Some(join_lines_range(sources, first, last + 1))
}

// ---------------------------------------------------------------------------
// Quoting lines from a diff.
// ---------------------------------------------------------------------------

/// The number a line has on `side`, if it exists there.
pub open spec fn number_on(l: DiffLine, side: Side) -> Option<usize> {
    match side {
        Side::Old => l.old,
        Side::New => l.new,
    }
}

/// The lines of `ls` addressed on `side`, with their numbers, in order.
pub open spec fn addressable_lines(ls: Seq<DiffLine>, side: Side) -> Seq<(usize, Seq<char>)>
    decreases ls.len(),
{
    if ls.len() == 0 {
        Seq::empty()
    } else {
        let rest = addressable_lines(ls.drop_last(), side);
        let l = ls.last();
        if spec_side_of(l.kind) == side && number_on(l, side) is Some {
            rest.push((number_on(l, side)->0, l.text@))
        } else {
            rest
        }
    }
}

/// The lines of all hunks addressed on `side`, in order.
pub open spec fn addressable(hs: Seq<Hunk>, side: Side) -> Seq<(usize, Seq<char>)>
    decreases hs.len(),
{
    if hs.len() == 0 {
        Seq::empty()
    } else {
        addressable(hs.drop_last(), side) + addressable_lines(hs.last().lines@, side)
    }
}

/// The entries of `a` numbered within `lo..=hi`, in order.
pub open spec fn within(a: Seq<(usize, Seq<char>)>, lo: nat, hi: nat) -> Seq<(usize, Seq<char>)>
    decreases a.len(),
{
    if a.len() == 0 {
        a
    } else {
        let rest = within(a.drop_last(), lo, hi);
        if lo <= a.last().0 <= hi {
            rest.push(a.last())
        } else {
            rest
        }
    }
}

/// Whether some entry of `a` has number `n`.
pub open spec fn has_number(a: Seq<(usize, Seq<char>)>, n: nat) -> bool {
    exists|k: int| 0 <= k < a.len() && #[trigger] a[k].0 == n
}

/// The texts of `a`, in order.
pub open spec fn texts(a: Seq<(usize, Seq<char>)>) -> Seq<Seq<char>> {
    a.map_values(|e: (usize, Seq<char>)| e.1)
}

/// A diff file's snippet: the captured new-side source for a new-side anchor
/// when there is one; otherwise the addressable lines of the anchor's side,
/// which must cover the whole range without a gap.
pub open spec fn spec_snippet_from_diff(file: DiffFile, anchor: AnchorView) -> Option<Seq<char>> {
    if anchor.side == Side::New && file.source@.len() > 0 {
        spec_lines_strict(strings_view(file.source@), anchor.line, anchor.spec_last())
    } else {
        let a = addressable(file.hunks@, anchor.side);
        let last = anchor.spec_last();
        let q = within(a, anchor.line as nat, last);
        if !has_number(a, anchor.line as nat) || !has_number(a, last) || q.len() != last
            - anchor.line + 1 {
            None
        } else {
            Some(join(texts(q), seq!['\n']))
        }
    }
}

/// A new-side comment on a diff file whose source was captured quotes the
/// source itself: every covered line, `line` through the range's end, in
/// order, joined by newlines, when all of them exist; nothing when the range
/// starts at 0 or runs past the file. It is the quote a code listing of the
/// same lines gives.
pub proof fn diff_quotes_captured_source(file: DiffFile, anchor: AnchorView, last: nat)
    requires
        anchor.side == Side::New,
        file.source@.len() > 0,
        last == (match anchor.end_line {
            Some(e) => if e >= anchor.line {
                e as nat
            } else {
                anchor.line as nat
            },
            None => anchor.line as nat,
        }),
    ensures
        1 <= anchor.line && last <= file.source@.len() ==> spec_snippet_from_diff(file, anchor) == Some(
            join(strings_view(file.source@).subrange(anchor.line - 1, last as int), seq!['\n']),
        ) && strings_view(file.source@).subrange(anchor.line - 1, last as int).len() == last - anchor.line + 1,
        !(1 <= anchor.line && last <= file.source@.len()) ==> spec_snippet_from_diff(file, anchor) is None,
        spec_snippet_from_diff(file, anchor) == spec_new_lines_strict(strings_view(file.source@), anchor),
{
}

/// Looks up a snippet in a diff file, including new-side source revealed after
/// the initial page load.
pub fn snippet_from_diff_file(file: &DiffFile, anchor: &Anchor) -> (r: Option<String>)
    ensures
        crate::zellij_origin::opt_view(r) == spec_snippet_from_diff(*file, anchor@),
{
    if anchor.side == Side::New && file.source.len() > 0 {
        return snippet_from_lines_strict(&file.source, anchor);
    }
    let side = anchor.side;
    let line = anchor.line;
    let last = anchor.last();
    let ghost a = addressable(file.hunks@, side);
    // The addressable lines numbered within the range, and whether each end
    // exists at all.
    let mut quoted: Vec<String> = Vec::new();
    let ghost mut q: Seq<(usize, Seq<char>)> = Seq::empty();
    let mut has_first = false;
    let mut has_last = false;
    let mut h: usize = 0;
    while h < file.hunks.len()
        invariant
            h <= file.hunks.len(),
            side == anchor.side,
            line == anchor.line,
            last == anchor.spec_last(),
            a == addressable(file.hunks@, side),
            q == within(addressable(file.hunks@.take(h as int), side), line as nat, last as nat),
            strings_view(quoted@) == texts(q),
            has_first == has_number(addressable(file.hunks@.take(h as int), side), line as nat),
            has_last == has_number(addressable(file.hunks@.take(h as int), side), last as nat),
        decreases file.hunks.len() - h,
    {
        let ghost before = addressable(file.hunks@.take(h as int), side);
        assert(file.hunks@.take(h + 1).drop_last() =~= file.hunks@.take(h as int));
        let lines = &file.hunks[h].lines;
        let mut j: usize = 0;
        while j < lines.len()
            invariant
                j <= lines.len(),
                lines@ == file.hunks@[h as int].lines@,
                line == anchor.line,
                last == anchor.spec_last(),
                q == within(before + addressable_lines(lines@.take(j as int), side), line as nat, last as nat),
                strings_view(quoted@) == texts(q),
                has_first == has_number(before + addressable_lines(lines@.take(j as int), side), line as nat),
                has_last == has_number(before + addressable_lines(lines@.take(j as int), side), last as nat),
            decreases lines.len() - j,
        {
            let l = &lines[j];
            let ghost prev = before + addressable_lines(lines@.take(j as int), side);
            assert(lines@.take(j + 1).drop_last() =~= lines@.take(j as int));
            assert(lines@.take(j + 1).last() == *l);
            let on = match l.kind {
                LineKind::Removed => side == Side::Old,
                _ => side == Side::New,
            };
            let number = match side {
                Side::Old => l.old,
                Side::New => l.new,
            };
            if on {
                if let Some(n) = number {
                    let ghost e = (n, l.text@);
                    assert(before + addressable_lines(lines@.take(j + 1), side) =~= prev.push(e));
                    proof {
                        assert forall|x: nat| #[trigger] has_number(prev.push(e), x) == (has_number(prev, x) || x == n) by {
                            if has_number(prev.push(e), x) && x != n {
                                let k = choose|k: int| 0 <= k < prev.push(e).len() && #[trigger] prev.push(e)[k].0 == x;
                                assert(prev[k].0 == x);
                            }
                            if has_number(prev, x) {
                                let k = choose|k: int| 0 <= k < prev.len() && #[trigger] prev[k].0 == x;
                                assert(prev.push(e)[k].0 == x);
                            }
                            if x == n {
                                assert(prev.push(e)[prev.len() as int].0 == x);
                            }
                        }
                    }
                    if n == line {
                        has_first = true;
                    }
                    if n == last {
                        has_last = true;
                    }
                    if line <= n && n <= last {
                        let ghost q0 = q;
                        let ghost v0 = quoted@;
                        quoted.push(l.text.clone());
                        proof {
                            q = q.push(e);
                            assert(strings_view(quoted@) =~= strings_view(v0).push(l.text@));
                            assert(texts(q) =~= texts(q0).push(e.1));
                        }
                    }
                    assert(prev.push(e).drop_last() =~= prev);
                } else {
                    assert(before + addressable_lines(lines@.take(j + 1), side) =~= prev);
                }
            } else {
                assert(before + addressable_lines(lines@.take(j + 1), side) =~= prev);
            }
            j = j + 1;
        }
        assert(lines@.take(j as int) =~= lines@);
        h = h + 1;
    }
    assert(file.hunks@.take(h as int) =~= file.hunks@);
    if !has_first || !has_last {
        return None;
    }
    if quoted.len() == 0 || quoted.len() - 1 != last - line {
        return None;
    }
    let mut parts: Vec<Vec<char>> = Vec::new();
    let mut k: usize = 0;
    while k < quoted.len()
        invariant
            k <= quoted.len(),
            parts@.len() == k,
            forall|m: int| 0 <= m < k ==> #[trigger] parts@[m]@ == quoted@[m]@,
        decreases quoted.len() - k,
    {
        parts.push(chars_of(quoted[k].as_str()));
        k = k + 1;
    }
    assert(crate::text::views(parts@) =~= strings_view(quoted@));
    let joined = crate::text::join_exec(&parts, "\n");
    proof {
        reveal_strlit("\n");
        assert("\n"@ =~= seq!['\n']);
    }
    Some(string_of(&joined))
}

// ---------------------------------------------------------------------------
// Resolving what a comment is about.
// ---------------------------------------------------------------------------

/// The block index of a `guided:<n>` target: digits only, no sign.
pub open spec fn spec_guided_block_index(target: Seq<char>) -> Option<usize> {
    if !starts_with(target, "guided:"@) {
        None
    } else {
        let v = target.skip(7);
        if v.len() == 0 || !crate::text::all_digits(v) {
            None
        } else {
            match parse_bounded(v, usize::MAX as nat) {
                Some(n) => Some(n as usize),
                None => None,
            }
        }
    }
}

/// The index of a `guided:<n>` comment target.
pub fn guided_block_index(target: &str) -> (r: Option<usize>)
    ensures
        r == spec_guided_block_index(target@),
{
    proof {
        reveal_strlit("guided:");
    }
    let t = chars_of(target);
    if !crate::text::starts_with_lit(&t, "guided:") {
        return None;
    }
    let n = t.len();
    if n == 7 {
        return None;
    }
    let mut i: usize = 7;
    while i < n
        invariant
            7 <= i <= n,
            n == t.len(),
            t@ == target@,
            starts_with(t@, "guided:"@),
            "guided:"@.len() == 7,
            forall|k: int| 7 <= k < i ==> #[trigger] crate::text::is_digit(t@[k]),
        decreases n - i,
    {
        if !crate::text::is_digit_exec(t[i]) {
            assert(!crate::text::all_digits(t@.skip(7))) by {
                assert(t@.skip(7)[i - 7] == t@[i as int]);
            }
            return None;
        }
        i = i + 1;
    }
    assert(crate::text::all_digits(t@.skip(7))) by {
        assert forall|k: int| 0 <= k < t@.skip(7).len() implies #[trigger] crate::text::is_digit(
            t@.skip(7)[k],
        ) by {
            assert(t@.skip(7)[k] == t@[k + 7]);
        }
    }
    assert(t@.subrange(7, n as int) =~= t@.skip(7));
    crate::text::parse_usize_range(&t, 7, n)
}

/// The index of the first of `ls` equal to `x`.
pub open spec fn first_index(ls: Seq<Seq<char>>, x: Seq<char>) -> Option<int>
    decreases ls.len(),
{
    if ls.len() == 0 {
        None
    } else {
        match first_index(ls.drop_last(), x) {
            Some(i) => Some(i),
            None => if ls.last() == x {
                Some(ls.len() - 1)
            } else {
                None
            },
        }
    }
}

/// How many of `ls` equal `x`.
pub open spec fn count_equal(ls: Seq<Seq<char>>, x: Seq<char>) -> nat
    decreases ls.len(),
{
    if ls.len() == 0 {
        0
    } else {
        count_equal(ls.drop_last(), x) + if ls.last() == x {
            1nat
        } else {
            0nat
        }
    }
}

proof fn lemma_first_index_sticks(ls: Seq<Seq<char>>, x: Seq<char>, j: int)
    requires
        0 <= j <= ls.len(),
        first_index(ls.take(j), x) is Some,
    ensures
        first_index(ls, x) == first_index(ls.take(j), x),
    decreases ls.len() - j,
{
    if j < ls.len() {
        assert(ls.take(j + 1).drop_last() =~= ls.take(j));
        lemma_first_index_sticks(ls, x, j + 1);
    } else {
        assert(ls.take(j) =~= ls);
    }
}

pub proof fn lemma_first_index_bounds(ls: Seq<Seq<char>>, x: Seq<char>)
    ensures
        first_index(ls, x) matches Some(i) ==> 0 <= i < ls.len() && ls[i] == x,
    decreases ls.len(),
{
    if ls.len() > 0 {
        lemma_first_index_bounds(ls.drop_last(), x);
    }
}

/// No first position means no position at all.
pub proof fn lemma_first_index_none(ls: Seq<Seq<char>>, x: Seq<char>)
    ensures
        first_index(ls, x) is None <==> !ls.contains(x),
    decreases ls.len(),
{
    if ls.len() > 0 {
        let init = ls.drop_last();
        lemma_first_index_none(init, x);
        if init.contains(x) {
            let k = choose|k: int| 0 <= k < init.len() && init[k] == x;
            assert(ls[k] == x);
        }
        if ls.contains(x) {
            let k = choose|k: int| 0 <= k < ls.len() && ls[k] == x;
            if k < init.len() {
                assert(init[k] == x);
            }
        }
        if ls.last() == x {
            assert(ls[ls.len() - 1] == x);
        }
    }
}

/// The first of `labels` equal to `x`, and how many are.
fn label_lookup(labels: &Vec<String>, x: &String) -> (r: (Option<usize>, usize))
    ensures
        match r.0 {
            Some(i) => first_index(strings_view(labels@), x@) == Some(i as int),
            None => first_index(strings_view(labels@), x@) is None,
        },
        r.1 == count_equal(strings_view(labels@), x@),
{
    let ghost ls = strings_view(labels@);
    let mut first: Option<usize> = None;
    let mut count: usize = 0;
    let mut i: usize = 0;
    while i < labels.len()
        invariant
            i <= labels.len(),
            ls == strings_view(labels@),
            count <= i,
            count == count_equal(ls.take(i as int), x@),
            match first {
                Some(k) => first_index(ls.take(i as int), x@) == Some(k as int),
                None => first_index(ls.take(i as int), x@) is None,
            },
        decreases labels.len() - i,
    {
        assert(ls.take(i + 1).drop_last() =~= ls.take(i as int));
        assert(ls.take(i + 1).last() == labels@[i as int]@);
        if labels[i] == *x {
            count = count + 1;
            if first.is_none() {
                first = Some(i);
            }
        }
        i = i + 1;
    }
    assert(ls.take(i as int) =~= ls);
    (first, count)
}

pub open spec fn code_labels(files: Seq<crate::session::CodeFile>) -> Seq<Seq<char>> {
    files.map_values(|f: crate::session::CodeFile| f.label@)
}

pub open spec fn doc_labels(files: Seq<crate::session::DocFile>) -> Seq<Seq<char>> {
    files.map_values(|f: crate::session::DocFile| f.label@)
}

pub open spec fn diff_labels(files: Seq<DiffFile>) -> Seq<Seq<char>> {
    files.map_values(|f: DiffFile| f.label@)
}

/// The labels of the content's files, for looking one up.
pub(crate) fn content_labels(content: &Content) -> (r: Vec<String>)
    ensures
        match content {
            Content::Code { files } => strings_view(r@) == code_labels(files@),
            Content::Docs { files } => strings_view(r@) == doc_labels(files@),
            Content::Diff { files } => strings_view(r@) == diff_labels(files@),
            _ => r@.len() == 0,
        },
{
    let mut out: Vec<String> = Vec::new();
    match content {
        Content::Code { files } => {
            let mut i: usize = 0;
            while i < files.len()
                invariant
                    i <= files.len(),
                    out@.len() == i,
                    forall|k: int| 0 <= k < i ==> #[trigger] out@[k]@ == files@[k].label@,
                decreases files.len() - i,
            {
                out.push(files[i].label.clone());
                i = i + 1;
            }
            assert(strings_view(out@) =~= code_labels(files@));
        },
        Content::Docs { files } => {
            let mut i: usize = 0;
            while i < files.len()
                invariant
                    i <= files.len(),
                    out@.len() == i,
                    forall|k: int| 0 <= k < i ==> #[trigger] out@[k]@ == files@[k].label@,
                decreases files.len() - i,
            {
                out.push(files[i].label.clone());
                i = i + 1;
            }
            assert(strings_view(out@) =~= doc_labels(files@));
        },
        Content::Diff { files } => {
            let mut i: usize = 0;
            while i < files.len()
                invariant
                    i <= files.len(),
                    out@.len() == i,
                    forall|k: int| 0 <= k < i ==> #[trigger] out@[k]@ == files@[k].label@,
                decreases files.len() - i,
            {
                out.push(files[i].label.clone());
                i = i + 1;
            }
            assert(strings_view(out@) =~= diff_labels(files@));
        },
        _ => {},
    }
    out
}

/// The snippet a comment with an explicit target quotes.
pub open spec fn spec_snippet_targeted(s: Session, a: AnchorView, t: Seq<char>) -> Option<Seq<char>> {
    let last = a.spec_last();
    if t == "brief"@ {
        spec_new_lines_strict(strings_view(s.brief_sources@), a)
    } else if starts_with(t, "doc:"@) {
        match parse_bounded(t.skip(4), usize::MAX as nat) {
            None => None,
            Some(idx) => match s.content {
                Content::Docs { files } => if idx < files@.len() {
                    spec_new_lines_strict(strings_view(files@[idx as int].sources@), a)
                } else {
                    None
                },
                _ => None,
            },
        }
    } else if starts_with(t, "guided:"@) {
        match spec_guided_block_index(t) {
            None => None,
            Some(idx) => match s.content {
                Content::Guided { blocks } => if idx < blocks@.len() {
                    match blocks@[idx as int] {
                        GuidedBlock::Text { source_start, sources, .. } => if a.side == Side::New {
                            spec_lines_at(strings_view(sources@), source_start, a.line, last)
                        } else {
                            None
                        },
                        GuidedBlock::Code { start, sources, .. } => if a.side == Side::New {
                            spec_lines_at(strings_view(sources@), start, a.line, last)
                        } else {
                            None
                        },
                        GuidedBlock::Diff { file, .. } => spec_snippet_from_diff(file, a),
                    }
                } else {
                    None
                },
                _ => None,
            },
        }
    } else {
        None
    }
}

/// Whether a legacy `brief:` anchor means the brief: the session has one, and
/// no file of the content has that label (a docs file with it is ambiguous and
/// refused outright).
pub open spec fn legacy_brief(s: Session, a: AnchorView) -> bool {
    a.file == "brief:"@ && s.brief_sources@.len() > 0 && match s.content {
        Content::Docs { files } => first_index(doc_labels(files@), a.file) is None,
        Content::Code { files } => first_index(code_labels(files@), a.file) is None,
        Content::Diff { files } => first_index(diff_labels(files@), a.file) is None,
        _ => true,
    }
}

/// The snippet a comment without an explicit target quotes, found by its
/// file label.
pub open spec fn spec_snippet_legacy(s: Session, a: AnchorView) -> Option<Seq<char>> {
    let last = a.spec_last();
    if a.file == "brief:"@ && s.brief_sources@.len() > 0 && (s.content matches Content::Docs {
        files,
    } && first_index(doc_labels(files@), a.file) is Some) {
        None
    } else if legacy_brief(s, a) {
        spec_new_lines_strict(strings_view(s.brief_sources@), a)
    } else {
        match s.content {
            Content::Code { files } => match first_index(code_labels(files@), a.file) {
                Some(i) => spec_new_lines_strict(strings_view(files@[i].sources@), a),
                None => None,
            },
            Content::Docs { files } => if count_equal(doc_labels(files@), a.file) != 1 {
                None
            } else {
                match first_index(doc_labels(files@), a.file) {
                    Some(i) => spec_new_lines_strict(strings_view(files@[i].sources@), a),
                    None => None,
                }
            },
            Content::Diff { files } => match first_index(diff_labels(files@), a.file) {
                Some(i) => spec_snippet_from_diff(files@[i], a),
                None => None,
            },
            _ => None,
        }
    }
}

/// The text of the lines a comment anchors to: by its explicit target when it
/// has one (`brief`, `doc:<n>`, `guided:<n>`), else by its file label.
pub open spec fn spec_snippet_for(s: Session, a: AnchorView) -> Option<Seq<char>> {
    match a.target {
        Some(t) => spec_snippet_targeted(s, a, t),
        None => spec_snippet_legacy(s, a),
    }
}

/// The text of the lines a comment anchors to, if they all exist.
///
/// Code, docs and the brief quote their stored source strictly: the whole
/// range or nothing, and never for the old side, which they do not have. A docs label shared by two files is ambiguous without an
/// explicit `doc:<n>` target and quotes nothing.
pub fn snippet_for(session: &Session, anchor: &Anchor) -> (r: Option<String>)
    ensures
        crate::zellij_origin::opt_view(r) == spec_snippet_for(*session, anchor@),
{
    proof {
        reveal_strlit("brief");
        reveal_strlit("doc:");
        reveal_strlit("guided:");
    }
    match &anchor.target {
        Some(target) => {
            let t = chars_of(target.as_str());
            if crate::text::eq_lit(&t, "brief") {
                return snippet_from_new_lines(&session.brief_sources, anchor);
            }
            if crate::text::starts_with_lit(&t, "doc:") {
                assert(t@.subrange(4, t@.len() as int) =~= t@.skip(4));
                let idx = match crate::text::parse_usize_range(&t, 4, t.len()) {
                    Some(i) => i,
                    None => {
                        return None;
                    },
                };
                return match &session.content {
                    Content::Docs { files } => if idx < files.len() {
                        snippet_from_new_lines(&files[idx].sources, anchor)
                    } else {
                        None
                    },
                    _ => None,
                };
            }
            if crate::text::starts_with_lit(&t, "guided:") {
                let idx = match guided_block_index(target.as_str()) {
                    Some(i) => i,
                    None => {
                        return None;
                    },
                };
                return match &session.content {
                    Content::Guided { blocks } => if idx < blocks.len() {
                        match &blocks[idx] {
                            GuidedBlock::Text { source_start, sources, .. } => if anchor.side
                                == Side::New {
                                snippet_from_lines_at(sources, *source_start, anchor)
                            } else {
                                None
                            },
                            GuidedBlock::Code { start, sources, .. } => if anchor.side == Side::New {
                                snippet_from_lines_at(sources, *start, anchor)
                            } else {
                                None
                            },
                            GuidedBlock::Diff { file, .. } => snippet_from_diff_file(file, anchor),
                        }
                    } else {
                        None
                    },
                    _ => None,
                };
            }
            None
        },
        None => {
            let labels = content_labels(&session.content);
            let (first, count) = label_lookup(&labels, &anchor.file);
            proof {
                lemma_first_index_bounds(strings_view(labels@), anchor.file@);
            }
            let f = chars_of(anchor.file.as_str());
            let is_brief = crate::text::eq_lit(&f, "brief:") && session.brief_sources.len() > 0;
            if is_brief {
                match &session.content {
                    Content::Docs { .. } => {
                        if first.is_some() {
                            return None;
                        }
                        return snippet_from_new_lines(&session.brief_sources, anchor);
                    },
                    Content::Code { .. } | Content::Diff { .. } => {
                        if first.is_none() {
                            return snippet_from_new_lines(&session.brief_sources, anchor);
                        }
                    },
                    _ => {
                        return snippet_from_new_lines(&session.brief_sources, anchor);
                    },
                }
            }
            match &session.content {
                Content::Code { files } => match first {
                    Some(i) => snippet_from_new_lines(&files[i].sources, anchor),
                    None => None,
                },
                Content::Docs { files } => {
                    if count != 1 {
                        return None;
                    }
                    match first {
                        Some(i) => snippet_from_new_lines(&files[i].sources, anchor),
                        None => None,
                    }
                },
                Content::Diff { files } => match first {
                    Some(i) => snippet_from_diff_file(&files[i], anchor),
                    None => None,
                },
                _ => None,
            }
        },
    }
}

// ---------------------------------------------------------------------------
// Validating what the page sends.
// ---------------------------------------------------------------------------

/// The longest reply, comment or thread message accepted, in bytes.
pub const MAX_REPLY_BYTES: usize = 16384;

/// The most lines one comment may cover.
pub const MAX_COMMENT_LINES: usize = 500;

/// The most lines one context expansion may ask for.
pub const MAX_CONTEXT_LINES: usize = 2000;

/// What a piece of submitted text becomes: trimmed, and refused when empty or
/// longer than `MAX_REPLY_BYTES` bytes.
pub open spec fn spec_bounded_text(text: Seq<char>, empty: Seq<char>, too_long: Seq<char>) -> Result<
    Seq<char>,
    Seq<char>,
> {
    let t = crate::text::trim(text);
    if t.len() == 0 {
        Err(empty)
    } else if vstd::utf8::encode_utf8(t).len() > MAX_REPLY_BYTES {
        Err(too_long)
    } else {
        Ok(t)
    }
}

/// Trims submitted text and checks it is neither empty nor too long, with the
/// error messages the route gives for each.
pub fn bounded_text(text: &str, empty: &str, too_long: &str) -> (r: Result<String, String>)
    ensures
        match r {
            Ok(t) => spec_bounded_text(text@, empty@, too_long@) == Ok::<Seq<char>, Seq<char>>(t@),
            Err(e) => spec_bounded_text(text@, empty@, too_long@) == Err::<Seq<char>, Seq<char>>(e@),
        },
{
    let cs = chars_of(text);
    let t = crate::text::trim_chars(&cs);
    if t.len() == 0 {
        return Err(empty.to_owned());
    }
    if crate::text::utf8_len_exceeds(&t, MAX_REPLY_BYTES) {
        return Err(too_long.to_owned());
    }
    Ok(string_of(&t))
}

/// Checks a request for the lines `from..=to` of a file: 1-based, in order,
/// and at most `MAX_CONTEXT_LINES` of them.
pub fn check_context_range(from: usize, to: usize) -> (r: Result<(), String>)
    ensures
        r is Ok <==> (from >= 1 && to >= from && to - from + 1 <= MAX_CONTEXT_LINES),
        r matches Err(e) ==> e@ == (if from == 0 || to < from {
            "from must be >= 1 and to must be >= from"@
        } else {
            "too many lines requested"@
        }),
{
    if from == 0 || to < from {
        return Err("from must be >= 1 and to must be >= from".to_owned());
    }
    if to - from >= MAX_CONTEXT_LINES {
        return Err("too many lines requested".to_owned());
    }
    Ok(())
}

/// A comment as the page posts it.
#[derive(Debug, Clone)]
pub struct CommentInput {
    pub file: String,
    /// Explicit comment target identity: `brief`, `doc:<n>`, `guided:<n>`.
    pub target: Option<String>,
    pub line: usize,
    /// The last line of a dragged range; absent for a single line.
    pub end_line: Option<usize>,
    pub side: String,
    pub text: String,
}

/// What an explicit target names: the label to file the comment under, and
/// whether only the new side may be commented on.
pub open spec fn spec_resolve_target(s: Session, t: Seq<char>) -> Option<(Seq<char>, bool)> {
    if t == "brief"@ && s.brief_sources@.len() > 0 {
        Some(("brief:"@, true))
    } else if starts_with(t, "doc:"@) {
        match parse_bounded(t.skip(4), usize::MAX as nat) {
            None => None,
            Some(idx) => match s.content {
                Content::Docs { files } => if idx < files@.len() {
                    Some((files@[idx as int].label@, true))
                } else {
                    None
                },
                _ => None,
            },
        }
    } else if starts_with(t, "guided:"@) {
        match spec_guided_block_index(t) {
            None => None,
            Some(idx) => match s.content {
                Content::Guided { blocks } => if idx < blocks@.len() {
                    match blocks@[idx as int] {
                        GuidedBlock::Text { .. } => Some(("guided:"@, true)),
                        GuidedBlock::Code { file, .. } => Some((file@, true)),
                        GuidedBlock::Diff { file, .. } => Some((file.label@, false)),
                    }
                } else {
                    None
                },
                _ => None,
            },
        }
    } else {
        None
    }
}

/// Resolves an explicit comment target against the session. The label stored
/// with the comment comes from the session, never from the request.
pub fn resolve_target(session: &Session, target: &str) -> (r: Option<(String, bool)>)
    ensures
        match r {
            Some((f, n)) => spec_resolve_target(*session, target@) == Some((f@, n)),
            None => spec_resolve_target(*session, target@) is None,
        },
{
    proof {
        reveal_strlit("brief");
        reveal_strlit("doc:");
        reveal_strlit("guided:");
    }
    let t = chars_of(target);
    if crate::text::eq_lit(&t, "brief") && session.brief_sources.len() > 0 {
        return Some(("brief:".to_owned(), true));
    }
    if crate::text::starts_with_lit(&t, "doc:") {
        assert(t@.subrange(4, t@.len() as int) =~= t@.skip(4));
        let idx = match crate::text::parse_usize_range(&t, 4, t.len()) {
            Some(i) => i,
            None => {
                return None;
            },
        };
        return match &session.content {
            Content::Docs { files } => if idx < files.len() {
                Some((files[idx].label.clone(), true))
            } else {
                None
            },
            _ => None,
        };
    }
    if crate::text::starts_with_lit(&t, "guided:") {
        let idx = match guided_block_index(target) {
            Some(i) => i,
            None => {
                return None;
            },
        };
        return match &session.content {
            Content::Guided { blocks } => if idx < blocks.len() {
                match &blocks[idx] {
                    GuidedBlock::Text { .. } => Some(("guided:".to_owned(), true)),
                    GuidedBlock::Code { file, .. } => Some((file.clone(), true)),
                    GuidedBlock::Diff { file, .. } => Some((file.label.clone(), false)),
                }
            } else {
                None
            },
            _ => None,
        };
    }
    None
}

/// The anchor a validated comment input describes, as values: the range's
/// ends put in order.
pub open spec fn input_anchor(file: Seq<char>, target: Option<Seq<char>>, line: usize, end_line: Option<usize>, side: Side) -> AnchorView {
    match end_line {
        Some(end) => AnchorView {
            file,
            target,
            line: if line <= end {
                line
            } else {
                end
            },
            end_line: Some(
                if line <= end {
                    end
                } else {
                    line
                },
            ),
            side,
        },
        None => AnchorView { file, target, line, end_line: None, side },
    }
}

/// Whether only the new side may be commented on: code, docs and the brief
/// have no old side.
pub open spec fn requires_new_side(s: Session, input: CommentInput, explicit_new: bool, file: Seq<char>) -> bool {
    explicit_new || (input.target matches Some(t) && (t@ == "brief"@ || starts_with(t@, "doc:"@)))
        || file == "brief:"@ || s.content is Docs || s.content is Code
}

/// What the comment route makes of an input against the session: the anchor,
/// the quoted snippet and the trimmed text, or the first problem found.
pub open spec fn comment_prepared(s: Session, input: CommentInput, r: Result<(Anchor, String, String), String>) -> bool {
    let side = if input.side@ == "old"@ {
        Some(Side::Old)
    } else if input.side@ == "new"@ {
        Some(Side::New)
    } else {
        None
    };
    match spec_bounded_text(input.text@, "comment must not be empty"@, "comment is too long"@) {
        Err(e) => r matches Err(x) && x@ == e,
        Ok(text) => match side {
            None => r matches Err(x) && x@ == "side must be old or new"@,
            Some(side) => {
                let resolved = match input.target {
                    Some(t) => spec_resolve_target(s, t@),
                    None => Some((input.file@, false)),
                };
                match resolved {
                    None => r matches Err(x) && x@ == "unknown comment target"@,
                    Some((file, explicit_new)) => if input.line == 0 {
                        r matches Err(x) && x@ == "line must be >= 1"@
                    } else if input.end_line == Some(0usize) {
                        r matches Err(x) && x@ == "end_line must be >= 1"@
                    } else if requires_new_side(s, input, explicit_new, file) && side != Side::New {
                        r matches Err(x) && x@ == "side must be new for code/docs/brief comments"@
                    } else {
                        let a = input_anchor(file, crate::zellij_origin::opt_view(input.target), input.line, input.end_line, side);
                        if a.spec_last() - a.line + 1 > MAX_COMMENT_LINES {
                            r matches Err(x) && x@ == "comment covers too many lines"@
                        } else {
                            match spec_snippet_for(s, a) {
                                None => r matches Err(x) && x@ == "no such line in this session"@,
                                Some(snippet) => r matches Ok((anchor, q, t)) && anchor@ == a && q@ == snippet && t@ == text,
                            }
                        }
                    },
                }
            },
        },
    }
}

/// Validates a comment from the page against its session and quotes the lines
/// it covers from the session's own content: the page is never trusted to say
/// what a line said, and an anchor that matches no line is an error.
pub fn prepare_comment(session: &Session, input: CommentInput) -> (r: Result<(Anchor, String, String), String>)
    ensures
        comment_prepared(*session, input, r),
{
    proof {
        reveal_strlit("brief");
        reveal_strlit("doc:");
        reveal_strlit("old");
        reveal_strlit("new");
    }
    let ghost g = input;
    let text = match bounded_text(input.text.as_str(), "comment must not be empty", "comment is too long") {
        Ok(t) => t,
        Err(e) => {
            return Err(e);
        },
    };
    let side = match Side::parse(input.side.as_str()) {
        Some(s) => s,
        None => {
            return Err("side must be old or new".to_owned());
        },
    };
    let CommentInput { file, target, line, end_line, .. } = input;
    let (file, explicit_new) = match &target {
        Some(t) => match resolve_target(session, t.as_str()) {
            Some(x) => x,
            None => {
                return Err("unknown comment target".to_owned());
            },
        },
        None => (file, false),
    };
    if line == 0 {
        return Err("line must be >= 1".to_owned());
    }
    if end_line == Some(0usize) {
        return Err("end_line must be >= 1".to_owned());
    }
    let fc = chars_of(file.as_str());
    let target_new = match &target {
        Some(t) => {
            let tc = chars_of(t.as_str());
            crate::text::eq_lit(&tc, "brief") || crate::text::starts_with_lit(&tc, "doc:")
        },
        None => false,
    };
    let content_new = match &session.content {
        Content::Docs { .. } | Content::Code { .. } => true,
        _ => false,
    };
    let needs_new = explicit_new || target_new || crate::text::eq_lit(&fc, "brief:") || content_new;
    if needs_new && side != Side::New {
        return Err("side must be new for code/docs/brief comments".to_owned());
    }
    let ghost f0 = file@;
    let mut anchor = match end_line {
        Some(end) => Anchor::range(file, line, end, side),
        None => Anchor::line(file, line, side),
    };
    anchor.target = target;
    assert(anchor@ == input_anchor(f0, crate::zellij_origin::opt_view(g.target), g.line, g.end_line, side));
    if anchor.span() > MAX_COMMENT_LINES {
        return Err("comment covers too many lines".to_owned());
    }
    let snippet = match snippet_for(session, &anchor) {
        Some(s) => s,
        None => {
            return Err("no such line in this session".to_owned());
        },
    };
    Ok((anchor, snippet, text))
}

// ---------------------------------------------------------------------------
// Escaping and anchors.
// ---------------------------------------------------------------------------

/// Escapes `&`, `<` and `>` for HTML.
pub fn escape_html(text: &str) -> (r: String)
    ensures
        r@ == crate::text::escape_markup(text@),
{
    crate::text::escape_markup_exec(text)
}

/// `json` with every `</` written `<\/`, so it cannot close a script element.
pub open spec fn spec_escape_json_for_script(json: Seq<char>) -> Seq<char>
    decreases json.len(),
{
    if json.len() == 0 {
        json
    } else if json.len() >= 2 && json[0] == '<' && json[1] == '/' {
        seq!['<', '\\', '/'] + spec_escape_json_for_script(json.skip(2))
    } else {
        seq![json[0]] + spec_escape_json_for_script(json.drop_first())
    }
}

/// Escapes a JSON string for embedding inside a `<script>` block: `</` becomes
/// `<\/`, which means the same in a JSON string and cannot end the element.
pub fn escape_json_for_script(json: &str) -> (r: String)
    ensures
        r@ == spec_escape_json_for_script(json@),
{
    let cs = chars_of(json);
    let mut out: Vec<char> = Vec::new();
    let mut i: usize = 0;
    assert(cs@.skip(0) =~= cs@);
    while i < cs.len()
        invariant
            i <= cs.len(),
            spec_escape_json_for_script(cs@) == out@ + spec_escape_json_for_script(cs@.skip(i as int)),
        decreases cs.len() - i,
    {
        let ghost rest = cs@.skip(i as int);
        if i + 1 < cs.len() && cs[i] == '<' && cs[i + 1] == '/' {
            out.push('<');
            out.push('\\');
            out.push('/');
            assert(rest.skip(2) =~= cs@.skip(i + 2));
            assert(out@ =~= out@.subrange(0, out@.len() - 3) + seq!['<', '\\', '/']);
            i = i + 2;
        } else {
            out.push(cs[i]);
            assert(rest.drop_first() =~= cs@.skip(i + 1));
            i = i + 1;
        }
    }
    assert(cs@.skip(i as int) =~= Seq::<char>::empty());
    string_of(&out)
}

/// A stable, URL-safe anchor for a file label: the shared `file_anchor`.
pub fn anchor(label: &str) -> (r: String)
    ensures
        r@ == crate::spec_file_anchor(label@),
{
    crate::file_anchor(label)
}

/// The marker the CLI looks for when scanning the port range for a daemon.
pub const HEALTH_MARKER: &'static str = "wdyt-daemon";

/// Protocol version for client-daemon compatibility, raised when the API
/// changes in a way an old daemon would silently mishandle.
pub const PROTOCOL_VERSION: u32 = 3;

// ---------------------------------------------------------------------------
// The control API's values.
// ---------------------------------------------------------------------------

/// What the CLI sends to create a session in the running daemon.
#[derive(Debug, Clone)]
pub struct CreateSession {
    pub title: String,
    pub note: Option<String>,
    pub content: Content,
    /// Where the creating agent is running, which the daemon cannot see.
    pub origin: Option<crate::zellij_origin::Origin>,
    /// The theme the content was highlighted with, when not the default.
    pub theme: Option<String>,
    /// A guided tour of the work as rendered HTML.
    pub brief: Option<String>,
    /// Per-line source text of the brief markdown.
    pub brief_sources: Vec<String>,
}

impl CreateSession {
    /// The two things a session cannot do without; the rest is optional.
    pub fn new(title: String, content: Content) -> (r: Self)
        ensures
            r.title == title,
            r.content == content,
            r.note is None,
            r.origin is None,
            r.theme is None,
            r.brief is None,
            r.brief_sources@.len() == 0,
    {
        CreateSession {
            title,
            content,
            note: None,
            origin: None,
            theme: None,
            brief: None,
            brief_sources: Vec::new(),
        }
    }

    /// The session the store creates from this request; a missing origin is
    /// an empty one.
    pub fn into_new_session(self) -> (r: crate::session::NewSession)
        ensures
            r.title == self.title,
            r.content == self.content,
            r.note == self.note,
            r.theme == self.theme,
            r.brief == self.brief,
            r.brief_sources == self.brief_sources,
            match self.origin {
                Some(o) => r.origin == o,
                None => r.origin.cwd is None && r.origin.session is None && r.origin.tab is None
                    && r.origin.pane is None,
            },
    {
        let origin = match self.origin {
            Some(o) => o,
            None => crate::zellij_origin::Origin::default(),
        };
        crate::session::NewSession {
            title: self.title,
            content: self.content,
            note: self.note,
            origin,
            theme: self.theme,
            brief: self.brief,
            brief_sources: self.brief_sources,
        }
    }
}

/// The labels of the content's files, which must make distinct anchors.
pub open spec fn content_label_seq(c: Content) -> Seq<Seq<char>> {
    match c {
        Content::Code { files } => code_labels(files@),
        Content::Docs { files } => doc_labels(files@),
        Content::Diff { files } => diff_labels(files@),
        _ => Seq::empty(),
    }
}

/// Checks a create request: the content's file labels must make distinct
/// file anchors, or page navigation would break. The error names the first
/// colliding pair.
pub fn check_create(input: &CreateSession) -> (r: Result<(), String>)
    ensures
        r is Ok <==> forall|i: int, j: int|
            !#[trigger] crate::anchors_collide(content_label_seq(input.content), i, j),
        r matches Err(m) ==> exists|i: int, j: int|
            #[trigger] crate::first_collision(content_label_seq(input.content), i, j) && m@
                == crate::collision_message(
                content_label_seq(input.content)[i],
                content_label_seq(input.content)[j],
            ),
{
    let labels = content_labels(&input.content);
    assert(strings_view(labels@) == content_label_seq(input.content));
    if labels.len() == 0 {
        proof {
            assert forall|i: int, j: int| !#[trigger] crate::anchors_collide(strings_view(labels@), i, j) by {}
        }
        return Ok(());
    }
    let r = crate::validate_file_anchors(labels.as_slice());
    assert(crate::label_views(labels@) =~= strings_view(labels@));
    r
}

#[derive(Debug, Clone)]
pub struct CreatedSession {
    pub id: String,
}

/// The answer to a long-poll for a reply.
#[derive(Debug, Clone)]
pub struct AwaitedReply {
    pub replied: bool,
    pub reply: Option<Reply>,
}

/// What an agent sends to say it has actually read the reply.
#[derive(Debug, Clone)]
pub struct AckInput {
    /// What the agent is doing about the reply.
    pub note: String,
}

#[derive(Debug, Clone)]
pub struct Acked {
    pub acked: bool,
}

/// Checks an acknowledgement's note: trimmed, and not empty.
pub fn ack_note(note: &str) -> (r: Result<String, String>)
    ensures
        match r {
            Ok(t) => t@ == crate::text::trim(note@) && t@.len() > 0,
            Err(e) => crate::text::trim(note@).len() == 0 && e@
                == "an ack needs a note saying what you are doing"@,
        },
{
    let t = crate::text::trim_chars(&chars_of(note));
    if t.len() == 0 {
        return Err("an ack needs a note saying what you are doing".to_owned());
    }
    Ok(string_of(&t))
}

/// How far a reply has got, for the page's own polling. Never marks anything
/// delivered.
#[derive(Debug, Clone)]
pub struct ReplyStatus {
    pub replied: bool,
    /// The reply has left the daemon for an agent process.
    pub delivered: bool,
    /// An agent has said it read the reply, and what it is doing about it.
    pub ack: Option<crate::session::Ack>,
    /// Comment count, so the page can reconcile after a reconnect.
    pub comments: usize,
}

/// A session's reply status.
pub fn reply_status(session: &Session) -> (r: ReplyStatus)
    ensures
        r.replied == session.reply is Some,
        r.delivered == (session.reply matches Some(rep) && rep.delivered_at is Some),
        r.comments == session.comments@.len(),
        match session.reply {
            Some(rep) => match rep.ack {
                Some(a) => r.ack matches Some(b) && b@ == a@,
                None => r.ack is None,
            },
            None => r.ack is None,
        },
{
    let (delivered, ack) = match &session.reply {
        Some(rep) => (
            rep.delivered_at.is_some(),
            match &rep.ack {
                Some(a) => Some(a.duplicate()),
                None => None,
            },
        ),
        None => (false, None),
    };
    ReplyStatus {
        replied: session.reply.is_some(),
        delivered,
        ack,
        comments: session.comments.len(),
    }
}

/// The comments an agent collects after review.
#[derive(Debug, Clone)]
pub struct Comments {
    pub comments: Vec<Comment>,
}

/// A run of lines from a diffed file that the patch does not show.
#[derive(Debug, Clone)]
pub struct ContextLines {
    /// The file's display label, so the page can address comments on them.
    pub file: String,
    pub lines: Vec<ContextLine>,
}

#[derive(Debug, Clone)]
pub struct ContextLine {
    /// New-side line number.
    pub new: usize,
    /// Old-side number, when the diff gives an offset to take it from.
    pub old: Option<usize>,
    pub html: String,
    pub comments: Vec<Comment>,
}

/// Every thread in a session, for the page to poll.
#[derive(Debug, Clone)]
pub struct Threads {
    pub threads: Vec<Comment>,
}

/// The next thing the reader did, as returned by `recv`.
#[derive(Debug, Clone)]
pub struct Received {
    /// Whether anything arrived before the timeout.
    pub received: bool,
    /// The event itself, absent on timeout.
    pub event: Option<UserEvent>,
}

/// Something the reader did that an agent subscribes to with `recv`.
#[derive(Debug, Clone)]
pub enum UserEvent {
    /// The overall reply: the verdict on the whole session, and terminal.
    Reply { reply: Reply },
    /// A line comment or a follow-up on one, with its thread.
    Comment { thread: Comment, message: Message },
}

/// One session's reply, as reported by `wdyt inbox`.
#[derive(Debug, Clone)]
pub struct InboxItem {
    pub id: String,
    pub title: String,
    pub reply: Reply,
    pub comments: usize,
    pub url: String,
}

#[derive(Debug, Clone)]
pub struct Inbox {
    pub items: Vec<InboxItem>,
}

// ---------------------------------------------------------------------------
// What `recv` hands an agent.
// ---------------------------------------------------------------------------

/// What taking the next event at `now` does: line comments and follow-ups
/// first, oldest first; the reply, which is terminal, once they are drained.
pub open spec fn next_event_outcome(
    s: Seq<crate::session::SessionView>,
    id: Seq<char>,
    now: u64,
    r: Result<Option<UserEvent>, StoreError>,
    t: Seq<crate::session::SessionView>,
) -> bool {
    match r {
        Err(e) => e is UnknownSession && locate(s, id) is None && t == s,
        Ok(Some(UserEvent::Comment { thread, message })) => take_question_outcome(
            s,
            id,
            now,
            Ok(Some((thread, message))),
            t,
        ),
        Ok(Some(UserEvent::Reply { reply })) => locate(s, id) matches Some(k) && first_question(
            s[k].comments,
        ) is None && take_reply_outcome(s, id, now, Ok(Some(reply)), t),
        Ok(None) => locate(s, id) matches Some(k) && first_question(s[k].comments) is None
            && take_reply_outcome(s, id, now, Ok(None), t),
    }
}

/// Takes the next thing the reader did that no agent has seen, at `now`.
pub fn next_event_at(store: &mut Store, id: &str, now: u64) -> (r: Result<Option<UserEvent>, StoreError>)
    ensures
        final(store).time_to_live() == old(store).time_to_live(),
        next_event_outcome(old(store)@, id@, now, r, final(store)@),
{
    match store.take_question_at(id, now) {
        Err(e) => Err(e),
        Ok(Some((thread, message))) => Ok(Some(UserEvent::Comment { thread, message })),
        Ok(None) => match store.take_reply_at(id, now) {
            Err(e) => Err(e),
            Ok(Some(reply)) => Ok(Some(UserEvent::Reply { reply })),
            Ok(None) => Ok(None),
        },
    }
}

/// Takes the next event; see [`next_event_at`]. The time is read from the
/// clock.
pub fn next_event(store: &mut Store, id: &str) -> (r: Result<Option<UserEvent>, StoreError>)
    ensures
        final(store).time_to_live() == old(store).time_to_live(),
        exists|now: u64| #[trigger] next_event_outcome(old(store)@, id@, now, r, final(store)@),
{
    let (now, _) = crate::store::now_pair();
    next_event_at(store, id, now)
}

// ---------------------------------------------------------------------------
// Reading the request: host, port, query.
// ---------------------------------------------------------------------------

/// The position of the last `c` in `s`.
pub open spec fn rfind_char(s: Seq<char>, c: char) -> Option<int>
    decreases s.len(),
{
    if s.len() == 0 {
        None
    } else if s.last() == c {
        Some(s.len() - 1)
    } else {
        rfind_char(s.drop_last(), c)
    }
}

fn rfind_char_exec(s: &Vec<char>, c: char) -> (r: Option<usize>)
    ensures
        match r {
            Some(i) => rfind_char(s@, c) == Some(i as int) && i < s.len(),
            None => rfind_char(s@, c) is None,
        },
{
    let mut i = s.len();
    assert(s@.take(i as int) =~= s@);
    while i > 0
        invariant
            i <= s.len(),
            rfind_char(s@, c) == rfind_char(s@.take(i as int), c),
        decreases i,
    {
        if s[i - 1] == c {
            return Some(i - 1);
        }
        assert(s@.take(i as int).drop_last() =~= s@.take(i - 1));
        i = i - 1;
    }
    None
}

/// The port a `Host` header names, or 3000 when it names none that parses.
pub open spec fn spec_request_port(host: Option<Seq<char>>) -> u16 {
    match host {
        Some(h) => match rfind_char(h, ':') {
            Some(i) => match parse_bounded(h.skip(i + 1), 65535) {
                Some(p) => p as u16,
                None => 3000,
            },
            None => 3000,
        },
        None => 3000,
    }
}

/// The port the request came in on, from its `Host` header.
pub fn request_port(host: Option<&str>) -> (r: u16)
    ensures
        r == spec_request_port(crate::text::str_opt_view(host)),
{
    match host {
        Some(h) => {
            let cs = chars_of(h);
            match rfind_char_exec(&cs, ':') {
                Some(i) => {
                    assert(cs@.subrange(i + 1, cs@.len() as int) =~= cs@.skip(i + 1));
                    match crate::text::parse_u64_range(&cs, i + 1, cs.len()) {
                        Some(p) => if p <= 65535 {
                            p as u16
                        } else {
                            3000
                        },
                        None => 3000,
                    }
                },
                None => 3000,
            }
        },
        None => 3000,
    }
}

/// The host a `Host` header names, without its port; `localhost` without one.
pub open spec fn spec_public_host(host: Option<Seq<char>>) -> Seq<char> {
    match host {
        Some(h) => match rfind_char(h, ':') {
            Some(i) => h.take(i),
            None => h,
        },
        None => "localhost"@,
    }
}

/// The host the browser used, so framed URLs keep working when reached over a
/// forwarded port or another hostname.
pub fn public_host(host: Option<&str>) -> (r: String)
    ensures
        r@ == spec_public_host(crate::text::str_opt_view(host)),
{
    match host {
        Some(h) => {
            let cs = chars_of(h);
            match rfind_char_exec(&cs, ':') {
                Some(i) => {
                    let head = crate::text::slice_chars(&cs, 0, i);
                    assert(head@ =~= cs@.take(i as int));
                    string_of(&head)
                },
                None => h.to_owned(),
            }
        },
        None => "localhost".to_owned(),
    }
}

/// Whether `?unread=` asks for unread replies only: any value but `false`
/// and `0`.
pub fn unread_only(value: Option<&str>) -> (r: bool)
    ensures
        r == (match crate::text::str_opt_view(value) {
            Some(v) => v != "false"@ && v != "0"@,
            None => false,
        }),
{
    match value {
        Some(v) => {
            let cs = chars_of(v);
            !crate::text::eq_lit(&cs, "false") && !crate::text::eq_lit(&cs, "0")
        },
        None => false,
    }
}

/// The link to a session on the daemon.
pub open spec fn session_link(host: Seq<char>, port: u16, id: Seq<char>) -> Seq<char> {
    "http://"@ + host + seq![':'] + crate::text::decimal(port as nat) + "/s/"@ + id
}

/// The inbox: every replied session (newest first, as `Store::replied` lists
/// them), or only those whose reply no agent has acknowledged.
pub fn inbox_items(replied: Vec<(String, String, Reply, usize)>, unread: bool, host: &str, port: u16) -> (r: Inbox)
    ensures
        ({
            let kept = replied@.filter(|e: (String, String, Reply, usize)| !unread || e.2.ack is None);
            &&& r.items@.len() == kept.len()
            &&& forall|k: int| 0 <= k < kept.len() ==> {
                let item = #[trigger] r.items@[k];
                &&& item.id == kept[k].0
                &&& item.title == kept[k].1
                &&& item.reply == kept[k].2
                &&& item.comments == kept[k].3
                &&& item.url@ == session_link(host@, port, kept[k].0@)
            }
        }),
{
    let ghost pred = |e: (String, String, Reply, usize)| !unread || e.2.ack is None;
    let ghost all = replied@;
    let mut items: Vec<InboxItem> = Vec::new();
    let mut rest = replied;
    let ghost mut k: int = 0;
    reveal(Seq::filter);
    assert(all.take(0).filter(pred) =~= Seq::<(String, String, Reply, usize)>::empty());
    assert(rest@ =~= all.subrange(0, all.len() as int));
    while rest.len() > 0
        invariant
            0 <= k <= all.len(),
            rest@ == all.subrange(k, all.len() as int),
            pred == (|e: (String, String, Reply, usize)| !unread || e.2.ack is None),
            items@.len() == all.take(k).filter(pred).len(),
            forall|m: int| 0 <= m < items@.len() ==> {
                let item = #[trigger] items@[m];
                let e = all.take(k).filter(pred)[m];
                &&& item.id == e.0
                &&& item.title == e.1
                &&& item.reply == e.2
                &&& item.comments == e.3
                &&& item.url@ == session_link(host@, port, e.0@)
            },
        decreases rest.len(),
    {
        let ghost r0 = rest@;
        let e = rest.remove(0);
        assert(e == all[k]);
        assert(rest@ =~= all.subrange(k + 1, all.len() as int));
        let ghost before = all.take(k).filter(pred);
        proof {
            reveal(Seq::filter);
        }
        assert(all.take(k + 1).drop_last() =~= all.take(k));
        assert(all.take(k + 1).last() == all[k]);
        let keep = !unread || e.2.ack.is_none();
        if keep {
            let (id, title, reply, comments) = e;
            let mut url = chars_of("http://");
            crate::text::push_str(&mut url, host);
            url.push(':');
            crate::text::push_decimal(&mut url, port as u64);
            crate::text::push_str(&mut url, "/s/");
            crate::text::push_str(&mut url, id.as_str());
            items.push(InboxItem { id, title, reply, comments, url: string_of(&url) });
            assert(all.take(k + 1).filter(pred) == before.push(all[k]));
        } else {
            assert(all.take(k + 1).filter(pred) == before);
        }
        proof {
            k = k + 1;
        }
    }
    assert(all.take(k) =~= all);
    Inbox { items }
}

// ---------------------------------------------------------------------------
// Query strings.
// ---------------------------------------------------------------------------

/// The value of an ASCII hexadecimal digit.
pub open spec fn hex_value(b: u8) -> Option<u8> {
    if 48 <= b <= 57 {
        Some((b - 48) as u8)
    } else if 97 <= b <= 102 {
        Some((b - 87) as u8)
    } else if 65 <= b <= 70 {
        Some((b - 55) as u8)
    } else {
        None
    }
}

/// Percent-decoding of bytes: each `%` followed by two hexadecimal digits
/// becomes the byte they spell; every other byte is kept.
pub open spec fn percent_decoded(b: Seq<u8>) -> Seq<u8>
    decreases b.len(),
{
    if b.len() == 0 {
        b
    } else if b[0] == 37 && b.len() >= 3 && hex_value(b[1]) is Some && hex_value(b[2]) is Some {
        seq![(hex_value(b[1])->0 * 16 + hex_value(b[2])->0) as u8] + percent_decoded(b.skip(3))
    } else {
        seq![b[0]] + percent_decoded(b.drop_first())
    }
}

/// A string percent-decoded and read back as UTF-8, when the decoded bytes
/// are UTF-8.
pub open spec fn url_decoded(s: Seq<char>) -> Option<Seq<char>> {
    let pd = percent_decoded(vstd::utf8::encode_utf8(s));
    if vstd::utf8::valid_utf8(pd) {
        Some(vstd::utf8::decode_utf8(pd))
    } else {
        None
    }
}

/// `percent_encoding::percent_decode_str(s).decode_utf8()`, owned.
///
/// Trusted: the crate decodes each `%` followed by two hex digits to the byte
/// they spell, keeps every other byte, and succeeds exactly when the result is
/// UTF-8 (its source shows both steps).
#[verifier::external_body]
fn percent_decode_utf8(s: &str) -> (r: Option<String>)
    ensures
        crate::zellij_origin::opt_view(r) == url_decoded(s@),
{
    match percent_encoding::percent_decode_str(s).decode_utf8() {
        Ok(text) => Some(text.into_owned()),
        Err(_) => None,
    }
}

/// `s` with every `+` read as a space, as forms encode one.
pub open spec fn plus_as_space(s: Seq<char>) -> Seq<char> {
    s.map_values(|c: char| if c == '+' { ' ' } else { c })
}

/// The key and value of one `key=value` pair; a pair without `=` has an
/// empty value.
pub open spec fn query_pair(pair: Seq<char>) -> (Seq<char>, Seq<char>) {
    match crate::text::find(pair, seq!['=']) {
        Some(i) => (pair.take(i), pair.skip(i + 1)),
        None => (pair, Seq::empty()),
    }
}

/// The decoded value of a pair whose decoded key is `name`.
pub open spec fn query_value(pair: Seq<char>, name: Seq<char>) -> Option<Seq<char>> {
    let (k, v) = query_pair(pair);
    match url_decoded(k) {
        Some(key) => if key == name {
            url_decoded(plus_as_space(v))
        } else {
            None
        },
        None => None,
    }
}

/// The values of `name` among the pairs, in order.
pub open spec fn query_values(pairs: Seq<Seq<char>>, name: Seq<char>) -> Seq<Seq<char>>
    decreases pairs.len(),
{
    if pairs.len() == 0 {
        Seq::empty()
    } else {
        let rest = query_values(pairs.drop_last(), name);
        match query_value(pairs.last(), name) {
            Some(v) => rest.push(v),
            None => rest,
        }
    }
}

/// Every value of a repeated query parameter, in request order.
pub open spec fn spec_query_params(query: Option<Seq<char>>, name: Seq<char>) -> Seq<Seq<char>> {
    match query {
        Some(q) => query_values(crate::text::split_on(q, seq!['&']), name),
        None => Seq::empty(),
    }
}

/// Reads every value for a repeated query parameter, in request order: pairs
/// are split on `&` and `=`, keys and values percent-decoded, `+` in a value
/// read as a space.
pub fn query_params(query: Option<&str>, name: &str) -> (r: Vec<String>)
    ensures
        strings_view(r@) == spec_query_params(crate::text::str_opt_view(query), name@),
{
    let mut out: Vec<String> = Vec::new();
    let q = match query {
        Some(q) => q,
        None => {
            assert(strings_view(out@) =~= Seq::<Seq<char>>::empty());
            return out;
        },
    };
    let cs = chars_of(q);
    let mut amp: Vec<char> = Vec::new();
    amp.push('&');
    assert(amp@ =~= seq!['&']);
    let pairs = crate::text::split_exec(&cs, &amp);
    let ghost ps = crate::text::views(pairs@);
    let mut eq: Vec<char> = Vec::new();
    eq.push('=');
    assert(eq@ =~= seq!['=']);
    let name_s = name.to_owned();
    let mut i: usize = 0;
    assert(strings_view(out@) =~= query_values(ps.take(0), name@));
    while i < pairs.len()
        invariant
            i <= pairs.len(),
            ps == crate::text::views(pairs@),
            eq@ == seq!['='],
            name_s@ == name@,
            strings_view(out@) == query_values(ps.take(i as int), name@),
        decreases pairs.len() - i,
    {
        let pair = &pairs[i];
        assert(ps.take(i + 1).drop_last() =~= ps.take(i as int));
        assert(ps.take(i + 1).last() == pair@);
        let (k, v) = match crate::text::find_exec(pair, &eq, 0, pair.len()) {
            Some(j) => {
                proof {
                    crate::text::lemma_find_from_bounds(pair@.subrange(0, pair.len() as int), seq!['='], 0);
                }
                assert(pair@.subrange(0, pair.len() as int) =~= pair@);
                let k = crate::text::slice_chars(pair, 0, j);
                let v = crate::text::slice_chars(pair, j + 1, pair.len());
                assert(k@ =~= pair@.take(j as int));
                assert(v@ =~= pair@.skip(j + 1));
                (k, v)
            },
            None => {
                assert(pair@.subrange(0, pair.len() as int) =~= pair@);
                (crate::text::slice_chars(pair, 0, pair.len()), Vec::new())
            },
        };
        assert((k@, v@) == query_pair(pair@));
        let ks = string_of(&k);
        match percent_decode_utf8(ks.as_str()) {
            Some(key) => {
                if key == name_s {
                    let mut spaced: Vec<char> = Vec::new();
                    let mut m: usize = 0;
                    while m < v.len()
                        invariant
                            m <= v.len(),
                            spaced@ == plus_as_space(v@).take(m as int),
                        decreases v.len() - m,
                    {
                        let c = v[m];
                        spaced.push(if c == '+' { ' ' } else { c });
                        m = m + 1;
                        assert(spaced@ =~= plus_as_space(v@).take(m as int));
                    }
                    assert(plus_as_space(v@).take(m as int) =~= plus_as_space(v@));
                    let vs = string_of(&spaced);
                    match percent_decode_utf8(vs.as_str()) {
                        Some(value) => {
                            out.push(value);
                            assert(strings_view(out@) =~= strings_view(out@.drop_last()).push(
                                out@.last()@,
                            ));
                        },
                        None => {},
                    }
                }
            },
            None => {},
        }
        i = i + 1;
    }
    assert(ps.take(i as int) =~= ps);
    out
}

/// The first value of query parameter `name`, if it is there.
pub open spec fn first_param(query: Option<Seq<char>>, name: Seq<char>) -> Option<Seq<char>> {
    let vs = spec_query_params(query, name);
    if vs.len() > 0 {
        Some(vs[0])
    } else {
        None
    }
}

/// A number read from the first value of query parameter `name` the way
/// `str::parse` reads it, bounded by `max`; nothing when it is absent or
/// not such a number.
pub open spec fn number_param(query: Option<Seq<char>>, name: Seq<char>, max: nat) -> Option<nat> {
    match first_param(query, name) {
        Some(v) => parse_bounded(v, max),
        None => None,
    }
}

/// Reads query parameter `name` as a `u64`, such as a long-poll's
/// `timeout_secs`.
pub fn u64_param(query: Option<&str>, name: &str) -> (r: Option<u64>)
    ensures
        r == (match number_param(crate::text::str_opt_view(query), name@, u64::MAX as nat) {
            Some(v) => Some(v as u64),
            None => None,
        }),
{
    let vs = query_params(query, name);
    if vs.len() == 0 {
        return None;
    }
    let cs = chars_of(vs[0].as_str());
    assert(cs@.subrange(0, cs@.len() as int) =~= cs@);
    crate::text::parse_u64_range(&cs, 0, cs.len())
}

/// Reads query parameter `name` as a `usize`, such as a line number.
pub fn usize_param(query: Option<&str>, name: &str) -> (r: Option<usize>)
    ensures
        r == (match number_param(crate::text::str_opt_view(query), name@, usize::MAX as nat) {
            Some(v) => Some(v as usize),
            None => None,
        }),
{
    let vs = query_params(query, name);
    if vs.len() == 0 {
        return None;
    }
    let cs = chars_of(vs[0].as_str());
    assert(cs@.subrange(0, cs@.len() as int) =~= cs@);
    crate::text::parse_usize_range(&cs, 0, cs.len())
}

/// The first of `labels` equal to `x`.
pub(crate) fn label_lookup_first(labels: &Vec<String>, x: &String) -> (r: Option<usize>)
    ensures
        match r {
            Some(i) => first_index(strings_view(labels@), x@) == Some(i as int) && i < labels@.len(),
            None => first_index(strings_view(labels@), x@) is None,
        },
{
    let (first, _) = label_lookup(labels, x);
    proof {
        lemma_first_index_bounds(strings_view(labels@), x@);
    }
    first
}


// ---------------------------------------------------------------------------
// What the pages show.
// ---------------------------------------------------------------------------

/// The most sessions one grouped review shows as tabs.
pub const MAX_GROUPED_SESSIONS: usize = 12;

/// The ids in first-seen order without repeats.
pub open spec fn distinct(ids: Seq<Seq<char>>) -> Seq<Seq<char>>
    decreases ids.len(),
{
    if ids.len() == 0 {
        ids
    } else {
        let rest = distinct(ids.drop_last());
        if rest.contains(ids.last()) {
            rest
        } else {
            rest.push(ids.last())
        }
    }
}

/// `x` shows up in `ids` before `y` first does.
pub open spec fn seen_before(ids: Seq<Seq<char>>, x: Seq<char>, y: Seq<char>) -> bool {
    exists|p: int| 0 <= p < ids.len() && #[trigger] ids[p] == x && !ids.take(p).contains(y)
}

/// De-duplication keeps one of each id, drops none, adds none, and keeps
/// them in the order they first appear.
pub proof fn law_distinct_keeps_first_seen_order(ids: Seq<Seq<char>>)
    ensures
        forall|i: int, j: int|
            0 <= i < j < distinct(ids).len() ==> #[trigger] distinct(ids)[i] != #[trigger] distinct(
                ids,
            )[j],
        forall|k: int| 0 <= k < ids.len() ==> distinct(ids).contains(#[trigger] ids[k]),
        forall|i: int| 0 <= i < distinct(ids).len() ==> ids.contains(#[trigger] distinct(ids)[i]),
        forall|i: int, j: int|
            0 <= i < j < distinct(ids).len() ==> seen_before(
                ids,
                #[trigger] distinct(ids)[i],
                #[trigger] distinct(ids)[j],
            ),
    decreases ids.len(),
{
    if ids.len() > 0 {
        let pre = ids.drop_last();
        let x = ids.last();
        law_distinct_keeps_first_seen_order(pre);
        let rest = distinct(pre);
        let d = distinct(ids);
        assert forall|k: int| 0 <= k < ids.len() implies d.contains(#[trigger] ids[k]) by {
            if k < ids.len() - 1 {
                assert(pre[k] == ids[k]);
                assert(rest.contains(pre[k]));
                if !rest.contains(x) {
                    let w = choose|w: int| 0 <= w < rest.len() && rest[w] == pre[k];
                    assert(d[w] == rest[w]);
                }
            } else if !rest.contains(x) {
                assert(d[d.len() - 1] == x);
            }
        }
        assert forall|i: int| 0 <= i < d.len() implies ids.contains(#[trigger] d[i]) by {
            if i < rest.len() {
                assert(d[i] == rest[i]);
                assert(pre.contains(rest[i]));
                let w = choose|w: int| 0 <= w < pre.len() && pre[w] == rest[i];
                assert(ids[w] == pre[w]);
            } else {
                assert(ids[ids.len() - 1] == x);
            }
        }
        assert forall|i: int, j: int| 0 <= i < j < d.len() implies #[trigger] d[i] != #[trigger] d[j] by {
            if j < rest.len() {
                assert(d[i] == rest[i] && d[j] == rest[j]);
            } else {
                assert(d[j] == x && d[i] == rest[i]);
                assert(rest.contains(rest[i]));
            }
        }
        assert forall|i: int, j: int| 0 <= i < j < d.len() implies seen_before(
            ids,
            #[trigger] d[i],
            #[trigger] d[j],
        ) by {
            assert(d[i] == rest[i]);
            assert(pre.contains(rest[i]));
            if j < rest.len() {
                assert(d[j] == rest[j]);
                assert(seen_before(pre, rest[i], rest[j]));
                let p = choose|p: int| 0 <= p < pre.len() && #[trigger] pre[p] == rest[i] && !pre.take(p).contains(rest[j]);
                assert(ids.take(p) =~= pre.take(p));
                assert(ids[p] == pre[p]);
            } else {
                assert(d[j] == x);
                let p = choose|p: int| 0 <= p < pre.len() && pre[p] == rest[i];
                assert(ids[p] == pre[p]);
                assert(ids.take(p) =~= pre.take(p));
                if ids.take(p).contains(x) {
                    let q = choose|q: int| 0 <= q < ids.take(p).len() && ids.take(p)[q] == x;
                    assert(pre[q] == x);
                    assert(rest.contains(pre[q]));
                }
            }
        }
    }
}

/// The tabs a grouped review asks for with repeated `s=` parameters: every id
/// must be non-empty, repeats collapse to their first place, and at most
/// `MAX_GROUPED_SESSIONS` tabs remain.
pub open spec fn spec_grouped_ids(selected: Seq<Seq<char>>) -> Result<Seq<Seq<char>>, Seq<char>> {
    if exists|k: int| 0 <= k < selected.len() && #[trigger] selected[k].len() == 0 {
        Err("session selection contains an empty id"@)
    } else if distinct(selected).len() > MAX_GROUPED_SESSIONS {
        Err("a grouped review supports at most 12 tabs"@)
    } else {
        Ok(distinct(selected))
    }
}

/// Checks and de-duplicates the sessions of a grouped review.
pub fn grouped_ids(selected: &Vec<String>) -> (r: Result<Vec<String>, String>)
    ensures
        match r {
            Ok(v) => spec_grouped_ids(strings_view(selected@)) == Ok::<Seq<Seq<char>>, Seq<char>>(
                strings_view(v@),
            ),
            Err(e) => spec_grouped_ids(strings_view(selected@)) == Err::<Seq<Seq<char>>, Seq<char>>(
                e@,
            ),
        },
{
    let ghost all = strings_view(selected@);
    let mut out: Vec<String> = Vec::new();
    let mut i: usize = 0;
    assert(all.take(0) =~= Seq::<Seq<char>>::empty());
    assert(strings_view(out@) =~= Seq::<Seq<char>>::empty());
    while i < selected.len()
        invariant
            i <= selected.len(),
            all == strings_view(selected@),
            strings_view(out@) == distinct(all.take(i as int)),
            forall|k: int| 0 <= k < i ==> #[trigger] all[k].len() > 0,
        decreases selected.len() - i,
    {
        assert(all.take(i + 1).drop_last() =~= all.take(i as int));
        assert(all.take(i + 1).last() == all[i as int]);
        if chars_of(selected[i].as_str()).len() == 0 {
            assert(all[i as int].len() == 0);
            return Err("session selection contains an empty id".to_owned());
        }
        let mut seen = false;
        let mut j: usize = 0;
        while j < out.len()
            invariant
                j <= out.len(),
                i < selected.len(),
                seen == exists|m: int| 0 <= m < j && #[trigger] out@[m]@ == selected@[i as int]@,
            decreases out.len() - j,
        {
            if out[j] == selected[i] {
                seen = true;
            }
            j = j + 1;
        }
        let ghost prev = strings_view(out@);
        assert(seen == prev.contains(all[i as int])) by {
            if seen {
                let m = choose|m: int| 0 <= m < out@.len() && #[trigger] out@[m]@ == selected@[i as int]@;
                assert(prev[m] == all[i as int]);
            }
            if prev.contains(all[i as int]) {
                let m = choose|m: int| 0 <= m < prev.len() && prev[m] == all[i as int];
                assert(out@[m]@ == selected@[i as int]@);
            }
        }
        if !seen {
            out.push(selected[i].clone());
            assert(strings_view(out@) =~= prev.push(all[i as int]));
        }
        i = i + 1;
    }
    assert(all.take(i as int) =~= all);
    if out.len() > MAX_GROUPED_SESSIONS {
        return Err("a grouped review supports at most 12 tabs".to_owned());
    }
    Ok(out)
}

/// The tab a grouped review opens on: the one `?tab=` names, else the first.
pub fn selected_tab(ids: &Vec<String>, tab: Option<&str>) -> (r: usize)
    ensures
        r == match crate::text::str_opt_view(tab) {
            Some(t) => match first_index(strings_view(ids@), t) {
                Some(k) => k as usize,
                None => 0,
            },
            None => 0,
        },
{
    match tab {
        Some(t) => {
            let key = t.to_owned();
            match label_lookup_first(ids, &key) {
                Some(k) => k,
                None => 0,
            }
        },
        None => 0,
    }
}

/// A comment belongs to the brief: its target says so, or, without a
/// target, its file is the legacy `brief:` label.
pub open spec fn on_brief(c: crate::session::CommentView) -> bool {
    c.target == Some("brief"@) || (c.target is None && c.file == "brief:"@)
}

/// The comments on the brief, in order.
pub fn brief_comments(comments: &Vec<Comment>) -> (r: Vec<Comment>)
    ensures
        crate::session::comments_view(r@) == crate::session::comments_view(comments@).filter(
            |c: crate::session::CommentView| on_brief(c),
        ),
{
    proof {
        reveal_strlit("brief");
        reveal_strlit("brief:");
    }
    let ghost cs = crate::session::comments_view(comments@);
    let ghost pred = |c: crate::session::CommentView| on_brief(c);
    let mut out: Vec<Comment> = Vec::new();
    let mut i: usize = 0;
    proof {
        reveal(Seq::filter);
        assert(cs.take(0).filter(pred) =~= Seq::<crate::session::CommentView>::empty());
    }
    assert(crate::session::comments_view(out@) =~= Seq::<crate::session::CommentView>::empty());
    while i < comments.len()
        invariant
            i <= comments.len(),
            cs == crate::session::comments_view(comments@),
            pred == (|c: crate::session::CommentView| on_brief(c)),
            crate::session::comments_view(out@) == cs.take(i as int).filter(pred),
        decreases comments.len() - i,
    {
        let c = &comments[i];
        let keep = match &c.target {
            Some(t) => crate::text::eq_lit(&chars_of(t.as_str()), "brief"),
            None => crate::text::eq_lit(&chars_of(c.file.as_str()), "brief:"),
        };
        proof {
            reveal(Seq::filter);
            assert(cs.take(i + 1).drop_last() =~= cs.take(i as int));
            assert(cs.take(i + 1).last() == c@);
            assert(keep == pred(c@));
        }
        if keep {
            let d = c.duplicate();
            let ghost before = out@;
            out.push(d);
            assert(crate::session::comments_view(out@) =~= crate::session::comments_view(before).push(c@));
        }
        i = i + 1;
    }
    assert(cs.take(i as int) =~= cs);
    out
}

/// The comments not on the brief, in order: those of the documents.
pub fn off_brief_comments(comments: &Vec<Comment>) -> (r: Vec<Comment>)
    ensures
        crate::session::comments_view(r@) == crate::session::comments_view(comments@).filter(
            |c: crate::session::CommentView| !on_brief(c),
        ),
{
    proof {
        reveal_strlit("brief");
        reveal_strlit("brief:");
    }
    let ghost cs = crate::session::comments_view(comments@);
    let ghost pred = |c: crate::session::CommentView| !on_brief(c);
    let mut out: Vec<Comment> = Vec::new();
    let mut i: usize = 0;
    proof {
        reveal(Seq::filter);
        assert(cs.take(0).filter(pred) =~= Seq::<crate::session::CommentView>::empty());
    }
    assert(crate::session::comments_view(out@) =~= Seq::<crate::session::CommentView>::empty());
    while i < comments.len()
        invariant
            i <= comments.len(),
            cs == crate::session::comments_view(comments@),
            pred == (|c: crate::session::CommentView| !on_brief(c)),
            crate::session::comments_view(out@) == cs.take(i as int).filter(pred),
        decreases comments.len() - i,
    {
        let c = &comments[i];
        let keep = match &c.target {
            Some(t) => crate::text::eq_lit(&chars_of(t.as_str()), "brief"),
            None => crate::text::eq_lit(&chars_of(c.file.as_str()), "brief:"),
        };
        proof {
            reveal(Seq::filter);
            assert(cs.take(i + 1).drop_last() =~= cs.take(i as int));
            assert(cs.take(i + 1).last() == c@);
            assert(!keep == pred(c@));
        }
        if !keep {
            let d = c.duplicate();
            let ghost before = out@;
            out.push(d);
            assert(crate::session::comments_view(out@) =~= crate::session::comments_view(before).push(c@));
        }
        i = i + 1;
    }
    assert(cs.take(i as int) =~= cs);
    out
}

/// `s` without its leading `/` characters.
pub open spec fn strip_slashes(s: Seq<char>) -> Seq<char>
    decreases s.len(),
{
    if s.len() > 0 && s[0] == '/' {
        strip_slashes(s.drop_first())
    } else {
        s
    }
}

/// Where a static session's entry page is served from, so its relative links
/// resolve under the session's assets.
pub fn static_frame_src(id: &str, entry: &str) -> (r: String)
    ensures
        r@ == "/s/"@ + id@ + "/assets/"@ + strip_slashes(entry@),
{
    let cs = chars_of(entry);
    let mut k: usize = 0;
    assert(cs@.skip(0) =~= cs@);
    while k < cs.len() && cs[k] == '/'
        invariant
            k <= cs.len(),
            strip_slashes(cs@) == strip_slashes(cs@.skip(k as int)),
        decreases cs.len() - k,
    {
        assert(cs@.skip(k as int).drop_first() =~= cs@.skip(k + 1));
        k = k + 1;
    }
    let rest = crate::text::slice_chars(&cs, k, cs.len());
    assert(rest@ =~= cs@.skip(k as int));
    let mut out = chars_of("/s/");
    crate::text::push_str(&mut out, id);
    crate::text::push_str(&mut out, "/assets/");
    crate::text::push_chars(&mut out, &rest);
    string_of(&out)
}

/// Where a demo is framed from: its own port on the host the browser used.
pub fn demo_frame_src(host: &str, port: u16, path: &str) -> (r: String)
    ensures
        r@ == "http://"@ + host@ + seq![':'] + crate::text::decimal(port as nat) + path@,
{
    let mut out = chars_of("http://");
    crate::text::push_str(&mut out, host);
    out.push(':');
    crate::text::push_decimal(&mut out, port as u64);
    crate::text::push_str(&mut out, path);
    string_of(&out)
}

} // verus!
