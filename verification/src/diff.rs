//! Parsing a unified diff into reviewable lines.
//!
//! A diff is split into files, each file into hunks, and each hunk line is
//! numbered on the sides it exists on. Highlighting is done per side by the
//! caller: each side is reassembled into the text it would be (old lines plus
//! context, new lines plus context), highlighted as one document, and the
//! per-line results are matched back to the diff's lines here.

use vstd::prelude::*;

use crate::session::{DiffFile, DiffLine, Hunk, LineKind};
use crate::text::{
    ascii_lower, chars_of, ends_with, escape_markup, find, is_whitespace, is_whitespace_exec,
    parse_bounded, parse_usize_range, starts_with, string_of, trim, trim_chars,
};
use crate::text::{contains_lit, ends_with_lit, eq_lit, lower_chars, starts_with_lit};
use crate::zellij_origin::opt_view;

verus! {

// ---------------------------------------------------------------------------
// Hunk headers.
// ---------------------------------------------------------------------------

/// `s` with its leading `@` characters removed (`trim_start_matches('@')`).
pub open spec fn strip_ats(s: Seq<char>) -> Seq<char>
    decreases s.len(),
{
    if s.len() > 0 && s[0] == '@' {
        strip_ats(s.drop_first())
    } else {
        s
    }
}

/// `s` with its leading whitespace removed.
pub open spec fn skip_space(s: Seq<char>) -> Seq<char>
    decreases s.len(),
{
    if s.len() > 0 && is_whitespace(s[0]) {
        skip_space(s.drop_first())
    } else {
        s
    }
}

/// The run of non-whitespace characters `s` starts with.
pub open spec fn word(s: Seq<char>) -> Seq<char>
    decreases s.len(),
{
    if s.len() > 0 && !is_whitespace(s[0]) {
        seq![s[0]] + word(s.drop_first())
    } else {
        Seq::empty()
    }
}

/// The first two whitespace-separated words of `s`, as `split_whitespace`
/// yields them.
pub open spec fn two_words(s: Seq<char>) -> Option<(Seq<char>, Seq<char>)> {
    let a_start = skip_space(s);
    let a = word(a_start);
    let b_start = skip_space(a_start.skip(a.len() as int));
    let b = word(b_start);
    if a.len() == 0 || b.len() == 0 {
        None
    } else {
        Some((a, b))
    }
}

/// The two ranges of a hunk header, without their `-` and `+` signs.
pub open spec fn header_ranges(header: Seq<char>) -> Option<(Seq<char>, Seq<char>)> {
    match two_words(strip_ats(header)) {
        Some((a, b)) => if a[0] == '-' && b[0] == '+' {
            Some((a.drop_first(), b.drop_first()))
        } else {
            None
        },
        None => None,
    }
}

/// The line count of one range: what follows the first comma, or one line for
/// a range without a count.
pub open spec fn range_len(range: Seq<char>) -> Option<nat> {
    match find(range, seq![',']) {
        Some(i) => parse_bounded(range.skip(i + 1), usize::MAX as nat),
        None => Some(1),
    }
}

/// The first line of one range: what comes before the first comma.
pub open spec fn range_first(range: Seq<char>) -> Option<nat> {
    match find(range, seq![',']) {
        Some(i) => parse_bounded(range.take(i), usize::MAX as nat),
        None => parse_bounded(range, usize::MAX as nat),
    }
}

/// The line counts a hunk header declares, as `(old_len, new_len)`.
pub open spec fn spec_hunk_lengths(header: Seq<char>) -> Option<(usize, usize)> {
    if !starts_with(header, seq!['@', '@']) {
        None
    } else {
        match header_ranges(header) {
            Some((a, b)) => match (range_len(a), range_len(b)) {
                (Some(x), Some(y)) => Some((x as usize, y as usize)),
                _ => None,
            },
            None => None,
        }
    }
}

/// The first line numbers a hunk header declares, as `(old_start, new_start)`;
/// a start of zero (an empty side) is read as line 1.
pub open spec fn spec_hunk_starts(header: Seq<char>) -> Option<(usize, usize)> {
    match header_ranges(header) {
        Some((a, b)) => match (range_first(a), range_first(b)) {
            (Some(x), Some(y)) => Some(
                (
                    if x == 0 {
                        1usize
                    } else {
                        x as usize
                    },
                    if y == 0 {
                        1usize
                    } else {
                        y as usize
                    },
                ),
            ),
            _ => None,
        },
        None => None,
    }
}

/// Where `word(s[lo..hi])` ends.
fn word_end(s: &Vec<char>, lo: usize, hi: usize) -> (r: usize)
    requires
        lo <= hi <= s.len(),
    ensures
        lo <= r <= hi,
        s@.subrange(lo as int, r as int) == word(s@.subrange(lo as int, hi as int)),
    decreases hi - lo,
{
    if lo < hi && !is_whitespace_exec(s[lo]) {
        let r = word_end(s, lo + 1, hi);
        let ghost t = s@.subrange(lo as int, hi as int);
        assert(t.drop_first() =~= s@.subrange(lo + 1, hi as int));
        assert(s@.subrange(lo as int, r as int) =~= seq![s@[lo as int]] + s@.subrange(
            lo + 1,
            r as int,
        ));
        r
    } else {
        assert(s@.subrange(lo as int, lo as int) =~= Seq::<char>::empty());
        lo
    }
}

/// Where `skip_space(s[lo..hi])` starts.
fn space_end(s: &Vec<char>, lo: usize, hi: usize) -> (r: usize)
    requires
        lo <= hi <= s.len(),
    ensures
        lo <= r <= hi,
        s@.subrange(r as int, hi as int) == skip_space(s@.subrange(lo as int, hi as int)),
    decreases hi - lo,
{
    if lo < hi && is_whitespace_exec(s[lo]) {
        let ghost t = s@.subrange(lo as int, hi as int);
        assert(t.drop_first() =~= s@.subrange(lo + 1, hi as int));
        space_end(s, lo + 1, hi)
    } else {
        lo
    }
}

/// Where `strip_ats(s[lo..])` starts.
fn ats_end(s: &Vec<char>, lo: usize) -> (r: usize)
    requires
        lo <= s.len(),
    ensures
        lo <= r <= s.len(),
        s@.subrange(r as int, s.len() as int) == strip_ats(s@.subrange(lo as int, s.len() as int)),
    decreases s.len() - lo,
{
    if lo < s.len() && s[lo] == '@' {
        let ghost t = s@.subrange(lo as int, s.len() as int);
        assert(t.drop_first() =~= s@.subrange(lo + 1, s.len() as int));
        ats_end(s, lo + 1)
    } else {
        lo
    }
}

/// The bounds of the two ranges of a hunk header within `h`.
fn header_range_bounds(h: &Vec<char>) -> (r: Option<(usize, usize, usize, usize)>)
    ensures
        match r {
            Some((a0, a1, b0, b1)) => a0 <= a1 <= h.len() && b0 <= b1 <= h.len() && header_ranges(
                h@,
            ) == Some((h@.subrange(a0 as int, a1 as int), h@.subrange(b0 as int, b1 as int))),
            None => header_ranges(h@) is None,
        },
{
    let n = h.len();
    let start = ats_end(h, 0);
    assert(h@.subrange(0, n as int) =~= h@);
    let body = Ghost(strip_ats(h@));
    let a0 = space_end(h, start, n);
    assert(h@.subrange(a0 as int, n as int) == skip_space(body@));
    let a1 = word_end(h, a0, n);
    let ghost a_start = skip_space(body@);
    let ghost a = word(a_start);
    assert(a_start.skip(a.len() as int) =~= h@.subrange(a1 as int, n as int));
    let b0 = space_end(h, a1, n);
    let b1 = word_end(h, b0, n);
    if a1 == a0 || b1 == b0 {
        return None;
    }
    assert(a[0] == h@[a0 as int]);
    assert(word(h@.subrange(b0 as int, n as int))[0] == h@[b0 as int]);
    if h[a0] != '-' || h[b0] != '+' {
        return None;
    }
    assert(a.drop_first() =~= h@.subrange(a0 + 1, a1 as int));
    assert(word(h@.subrange(b0 as int, n as int)).drop_first() =~= h@.subrange(b0 + 1, b1 as int));
    Some((a0 + 1, a1, b0 + 1, b1))
}

/// The position of the first comma in `h[lo..hi]`.
fn comma_in(h: &Vec<char>, lo: usize, hi: usize) -> (r: Option<usize>)
    requires
        lo <= hi <= h.len(),
    ensures
        match r {
            Some(i) => lo <= i < hi && find(h@.subrange(lo as int, hi as int), seq![',']) == Some(
                i - lo,
            ),
            None => find(h@.subrange(lo as int, hi as int), seq![',']) is None,
        },
{
    let mut comma: Vec<char> = Vec::new();
    comma.push(',');
    assert(comma@ =~= seq![',']);
    let r = crate::text::find_exec(h, &comma, lo, hi);
    proof {
        crate::text::lemma_find_from_bounds(h@.subrange(lo as int, hi as int), seq![','], 0);
    }
    r
}

/// The line counts a hunk header declares, as `(old_len, new_len)`.
///
/// `-12,7` declares seven lines; a single-line range omits the count, as in
/// `-12`. `None` for anything that is not a hunk header.
pub fn hunk_lengths(header: &str) -> (r: Option<(usize, usize)>)
    ensures
        r == spec_hunk_lengths(header@),
{
    let h = chars_of(header);
    lengths_of(&h)
}

fn lengths_of(h: &Vec<char>) -> (r: Option<(usize, usize)>)
    ensures
        r == spec_hunk_lengths(h@),
{
    if h.len() < 2 || h[0] != '@' || h[1] != '@' {
        return None;
    }
    assert(starts_with(h@, seq!['@', '@'])) by {
        assert(h@.take(2) =~= seq!['@', '@']);
    }
    let (a0, a1, b0, b1) = match header_range_bounds(h) {
        Some(b) => b,
        None => {
            return None;
        },
    };
    let old = match comma_in(h, a0, a1) {
        Some(i) => {
            assert(h@.subrange(a0 as int, a1 as int).skip(i - a0 + 1) =~= h@.subrange(
                i + 1,
                a1 as int,
            ));
            parse_usize_range(h, i + 1, a1)
        },
        None => Some(1),
    };
    let new = match comma_in(h, b0, b1) {
        Some(i) => {
            assert(h@.subrange(b0 as int, b1 as int).skip(i - b0 + 1) =~= h@.subrange(
                i + 1,
                b1 as int,
            ));
            parse_usize_range(h, i + 1, b1)
        },
        None => Some(1),
    };
    match (old, new) {
        (Some(x), Some(y)) => Some((x, y)),
        _ => None,
    }
}

/// Reads the starting line numbers out of `@@ -12,7 +12,9 @@`; a zero start
/// (an empty side) is read as line 1.
pub fn hunk_starts(header: &str) -> (r: Option<(usize, usize)>)
    ensures
        r == spec_hunk_starts(header@),
{
    let h = chars_of(header);
    starts_of(&h)
}

fn starts_of(h: &Vec<char>) -> (r: Option<(usize, usize)>)
    ensures
        r == spec_hunk_starts(h@),
{
    let (a0, a1, b0, b1) = match header_range_bounds(h) {
        Some(b) => b,
        None => {
            return None;
        },
    };
    let old = match comma_in(h, a0, a1) {
        Some(i) => {
            assert(h@.subrange(a0 as int, a1 as int).take(i - a0) =~= h@.subrange(
                a0 as int,
                i as int,
            ));
            parse_usize_range(h, a0, i)
        },
        None => parse_usize_range(h, a0, a1),
    };
    let new = match comma_in(h, b0, b1) {
        Some(i) => {
            assert(h@.subrange(b0 as int, b1 as int).take(i - b0) =~= h@.subrange(
                b0 as int,
                i as int,
            ));
            parse_usize_range(h, b0, i)
        },
        None => parse_usize_range(h, b0, b1),
    };
    match (old, new) {
        (Some(x), Some(y)) => Some(
            (
                if x == 0 {
                    1
                } else {
                    x
                },
                if y == 0 {
                    1
                } else {
                    y
                },
            ),
        ),
        _ => None,
    }
}

// ---------------------------------------------------------------------------
// File names and hunk budgets.
// ---------------------------------------------------------------------------

/// A path from a `---`/`+++` header without git's `a/` or `b/` prefix, and
/// without the tab-separated timestamp `diff -u` appends.
pub open spec fn spec_strip_prefix_dir(path: Seq<char>) -> Seq<char> {
    let p = match find(path, seq!['\t']) {
        Some(i) => path.take(i),
        None => path,
    };
    if starts_with(p, seq!['a', '/']) || starts_with(p, seq!['b', '/']) {
        p.skip(2)
    } else {
        p
    }
}

fn strip_prefix_dir_chars(path: &Vec<char>) -> (r: Vec<char>)
    ensures
        r@ == spec_strip_prefix_dir(path@),
{
    let mut tab: Vec<char> = Vec::new();
    tab.push('\t');
    assert(tab@ =~= seq!['\t']);
    let end = match crate::text::find_exec(path, &tab, 0, path.len()) {
        Some(i) => {
            proof {
                crate::text::lemma_find_from_bounds(path@.subrange(0, path.len() as int), seq!['\t'], 0);
            }
            i
        },
        None => path.len(),
    };
    assert(path@.subrange(0, path.len() as int) =~= path@);
    let ghost p = path@.subrange(0, end as int);
    assert(p == match find(path@, seq!['\t']) {
        Some(i) => path@.take(i),
        None => path@,
    });
    if end >= 2 && (path[0] == 'a' || path[0] == 'b') && path[1] == '/' {
        assert(starts_with(p, seq!['a', '/']) || starts_with(p, seq!['b', '/'])) by {
            assert(p.take(2) =~= seq![path@[0], '/']);
        }
        assert(p.skip(2) =~= path@.subrange(2, end as int));
        crate::text::slice_chars(path, 2, end)
    } else {
        assert(!starts_with(p, seq!['a', '/']) && !starts_with(p, seq!['b', '/'])) by {
            if p.len() >= 2 {
                assert(p.take(2)[0] == path@[0] && p.take(2)[1] == path@[1]);
            }
        }
        crate::text::slice_chars(path, 0, end)
    }
}

/// Strips git's `a/` and `b/` prefixes, and any trailing tab-separated
/// timestamp that `diff -u` appends.
pub fn strip_prefix_dir(path: &str) -> (r: String)
    ensures
        r@ == spec_strip_prefix_dir(path@),
{
    let cs = chars_of(path);
    let out = strip_prefix_dir_chars(&cs);
    string_of(&out)
}

/// What is left of a hunk's declared line counts. A hunk ends when both sides
/// are spent.
#[derive(Debug, Clone, Copy, PartialEq, Eq)]
pub struct Budget {
    pub old: usize,
    pub new: usize,
}

/// One less, but not below zero.
pub open spec fn minus_one(n: usize) -> usize {
    if n > 0 {
        (n - 1) as usize
    } else {
        0
    }
}

impl Budget {
    /// Nothing left: outside any hunk.
    pub open spec fn spent() -> Budget {
        Budget { old: 0, new: 0 }
    }

    pub open spec fn spec_in_hunk(self) -> bool {
        self.old > 0 || self.new > 0
    }

    /// What charging `line` leaves: a removed line spends an old line, an added
    /// line a new one, a context line (or an empty one) one of each, and a
    /// `\ No newline` note nothing.
    pub open spec fn spec_spend(self, line: Seq<char>) -> Budget {
        if line.len() > 0 && line[0] == '+' {
            Budget { new: minus_one(self.new), ..self }
        } else if line.len() > 0 && line[0] == '-' {
            Budget { old: minus_one(self.old), ..self }
        } else if line.len() > 0 && line[0] == '\\' {
            self
        } else {
            Budget { old: minus_one(self.old), new: minus_one(self.new) }
        }
    }

    /// Whether a hunk is still being read.
    pub fn in_hunk(&self) -> (r: bool)
        ensures
            r == self.spec_in_hunk(),
    {
        self.old > 0 || self.new > 0
    }

    /// Charges a body line to the sides it occupies.
    pub fn spend(&mut self, line: &Vec<char>)
        ensures
            *final(self) == old(self).spec_spend(line@),
    {
        if line.len() > 0 && line[0] == '+' {
            self.new = if self.new > 0 { self.new - 1 } else { 0 };
        } else if line.len() > 0 && line[0] == '-' {
            self.old = if self.old > 0 { self.old - 1 } else { 0 };
        } else if line.len() > 0 && line[0] == '\\' {
        } else {
            self.old = if self.old > 0 { self.old - 1 } else { 0 };
            self.new = if self.new > 0 { self.new - 1 } else { 0 };
        }
    }
}

// ---------------------------------------------------------------------------
// Splitting a diff into files.
// ---------------------------------------------------------------------------

/// The strings of a vector of string vectors, as character sequences.
pub open spec fn groups_view(v: Seq<Vec<String>>) -> Seq<Seq<Seq<char>>> {
    v.map_values(|g: Vec<String>| crate::session::strings_view(g@))
}

/// Where `split_files` stands after some lines: the files finished, the one
/// being read, and what is left of the current hunk.
pub struct SplitState {
    pub files: Seq<Seq<Seq<char>>>,
    pub current: Seq<Seq<char>>,
    pub left: Budget,
}

/// Whether `line` starts a new file: a `diff --git` line, or a `---` header
/// outside a hunk (a `--- -` is a removed line of dashes, never a header).
pub open spec fn starts_file(line: Seq<char>, left: Budget) -> bool {
    starts_with(line, "diff --git "@) || (!left.spec_in_hunk() && starts_with(line, "--- "@)
        && !starts_with(line, "--- -"@))
}

pub open spec fn split_step(st: SplitState, line: Seq<char>) -> SplitState {
    let fresh = starts_file(line, st.left) && st.current.len() > 0;
    let files = if fresh {
        st.files.push(st.current)
    } else {
        st.files
    };
    let current = if fresh {
        Seq::empty()
    } else {
        st.current
    };
    let left = if fresh {
        Budget::spent()
    } else if st.left.spec_in_hunk() {
        st.left.spec_spend(line)
    } else {
        st.left
    };
    let left = match spec_hunk_lengths(line) {
        Some((o, n)) => Budget { old: o, new: n },
        None => left,
    };
    SplitState { files, current: current.push(line), left }
}

pub open spec fn split_fold(lines: Seq<Seq<char>>) -> SplitState
    decreases lines.len(),
{
    if lines.len() == 0 {
        SplitState { files: Seq::empty(), current: Seq::empty(), left: Budget::spent() }
    } else {
        split_step(split_fold(lines.drop_last()), lines.last())
    }
}

/// The lines of a diff grouped by the file they belong to.
pub open spec fn spec_split_files(source: Seq<char>) -> Seq<Seq<Seq<char>>> {
    let st = split_fold(crate::text::lines_of(source));
    if st.current.len() > 0 {
        st.files.push(st.current)
    } else {
        st.files
    }
}

/// Groups the lines of a diff by the file they belong to.
///
/// `diff --git` is the usual marker, but a bare `diff -u` output only has the
/// `---`/`+++` pair, so a new `---` outside a hunk starts a file too. Inside a
/// hunk a `---` line is a removed line of content; the hunk header's declared
/// lengths say where the hunk ends.
pub fn split_files(source: &str) -> (r: Vec<Vec<String>>)
    ensures
        groups_view(r@) == spec_split_files(source@),
{
    let src = chars_of(source);
    let lines = crate::text::lines_exec(&src);
    let ghost ls = crate::text::views(lines@);
    let git = chars_of("diff --git ");
    let minus = chars_of("--- ");
    let minus_dash = chars_of("--- -");
    let mut files: Vec<Vec<String>> = Vec::new();
    let mut current: Vec<String> = Vec::new();
    let mut left = Budget { old: 0, new: 0 };
    let mut i: usize = 0;
    assert(groups_view(files@) =~= Seq::<Seq<Seq<char>>>::empty());
    assert(crate::session::strings_view(current@) =~= Seq::<Seq<char>>::empty());
    while i < lines.len()
        invariant
            i <= lines.len(),
            ls == crate::text::views(lines@),
            git@ == "diff --git "@,
            minus@ == "--- "@,
            minus_dash@ == "--- -"@,
            groups_view(files@) == split_fold(ls.take(i as int)).files,
            crate::session::strings_view(current@) == split_fold(ls.take(i as int)).current,
            left == split_fold(ls.take(i as int)).left,
        decreases lines.len() - i,
    {
        let line = &lines[i];
        assert(ls.take(i + 1).drop_last() =~= ls.take(i as int));
        assert(ls.take(i + 1).last() == line@);
        let sf = crate::text::starts_with_exec(line, &git) || (!left.in_hunk()
            && crate::text::starts_with_exec(line, &minus) && !crate::text::starts_with_exec(
            line,
            &minus_dash,
        ));
        if sf && current.len() > 0 {
            let mut taken: Vec<String> = Vec::new();
            std::mem::swap(&mut taken, &mut current);
            files.push(taken);
            left = Budget { old: 0, new: 0 };
            assert(groups_view(files@) =~= groups_view(files@.drop_last()).push(
                crate::session::strings_view(taken@),
            ));
        } else if left.in_hunk() {
            left.spend(line);
        }
        match lengths_of(line) {
            Some((o, n)) => {
                left = Budget { old: o, new: n };
            },
            None => {},
        }
        current.push(string_of(line));
        assert(crate::session::strings_view(current@) =~= crate::session::strings_view(
            current@.drop_last(),
        ).push(line@));
        i = i + 1;
    }
    assert(ls.take(i as int) =~= ls);
    if current.len() > 0 {
        files.push(current);
        assert(groups_view(files@) =~= groups_view(files@.drop_last()).push(
            crate::session::strings_view(current@),
        ));
    }
    files
}

// ---------------------------------------------------------------------------
// Parsing one file's diff.
// ---------------------------------------------------------------------------

/// A hunk line before highlighting.
#[derive(Debug, Clone)]
pub struct RawLine {
    pub kind: LineKind,
    /// Line number in the old file; absent for an added line.
    pub old: Option<usize>,
    /// Line number in the new file; absent for a removed line.
    pub new: Option<usize>,
    /// The line's text, without its `+`/`-`/space marker.
    pub text: String,
}

/// A hunk before highlighting.
#[derive(Debug, Clone)]
pub struct RawHunk {
    /// The `@@ … @@` line.
    pub header: String,
    /// The old-side line the header declares the hunk starts at.
    pub old_start: usize,
    /// The new-side line the header declares the hunk starts at.
    pub new_start: usize,
    /// The old-side number the next line would get.
    pub old_next: usize,
    /// The new-side number the next line would get.
    pub new_next: usize,
    pub lines: Vec<RawLine>,
}

/// One file's diff before highlighting.
#[derive(Debug, Clone)]
pub struct RawFile {
    /// The path, preferring the new name; a deletion only has the old one.
    pub label: String,
    pub hunks: Vec<RawHunk>,
    pub added: usize,
    pub removed: usize,
}

pub struct RawLineView {
    pub kind: LineKind,
    pub old: Option<usize>,
    pub new: Option<usize>,
    pub text: Seq<char>,
}

pub struct RawHunkView {
    pub header: Seq<char>,
    pub old_start: usize,
    pub new_start: usize,
    pub old_next: usize,
    pub new_next: usize,
    pub lines: Seq<RawLineView>,
}

impl View for RawLine {
    type V = RawLineView;

    open spec fn view(&self) -> RawLineView {
        RawLineView { kind: self.kind, old: self.old, new: self.new, text: self.text@ }
    }
}

pub open spec fn raw_lines_view(v: Seq<RawLine>) -> Seq<RawLineView> {
    v.map_values(|l: RawLine| l@)
}

impl View for RawHunk {
    type V = RawHunkView;

    open spec fn view(&self) -> RawHunkView {
        RawHunkView {
            header: self.header@,
            old_start: self.old_start,
            new_start: self.new_start,
            old_next: self.old_next,
            new_next: self.new_next,
            lines: raw_lines_view(self.lines@),
        }
    }
}

pub open spec fn raw_hunks_view(v: Seq<RawHunk>) -> Seq<RawHunkView> {
    v.map_values(|h: RawHunk| h@)
}

/// Where `parse_file` stands after some lines.
pub struct ParseState {
    pub old_path: Option<Seq<char>>,
    pub new_path: Option<Seq<char>>,
    pub hunks: Seq<RawHunkView>,
    pub left: Budget,
    /// A hunk header whose start lines could not be read; parsing stops there.
    pub bad: Option<Seq<char>>,
}

/// The next line number, wrapping as `usize` addition does in a release build.
pub open spec fn next_number(n: usize) -> usize {
    if n == usize::MAX {
        0
    } else {
        (n + 1) as usize
    }
}

/// How a hunk body line reads: its kind and text. `None` for a line that is not
/// part of the body (a `\ No newline` note, or trailing metadata).
pub open spec fn body_line(line: Seq<char>) -> Option<(LineKind, Seq<char>)> {
    if line.len() == 0 {
        Some((LineKind::Context, Seq::empty()))
    } else if line[0] == '+' {
        Some((LineKind::Added, line.drop_first()))
    } else if line[0] == '-' {
        Some((LineKind::Removed, line.drop_first()))
    } else if line[0] == ' ' {
        Some((LineKind::Context, line.drop_first()))
    } else {
        None
    }
}

/// `h` with a body line appended and numbered on the sides it exists on.
pub open spec fn add_line(h: RawHunkView, kind: LineKind, text: Seq<char>) -> RawHunkView {
    match kind {
        LineKind::Added => RawHunkView {
            new_next: next_number(h.new_next),
            lines: h.lines.push(RawLineView { kind, old: None, new: Some(h.new_next), text }),
            ..h
        },
        LineKind::Removed => RawHunkView {
            old_next: next_number(h.old_next),
            lines: h.lines.push(RawLineView { kind, old: Some(h.old_next), new: None, text }),
            ..h
        },
        LineKind::Context => RawHunkView {
            old_next: next_number(h.old_next),
            new_next: next_number(h.new_next),
            lines: h.lines.push(
                RawLineView { kind, old: Some(h.old_next), new: Some(h.new_next), text },
            ),
            ..h
        },
    }
}

pub open spec fn parse_step(st: ParseState, line: Seq<char>) -> ParseState {
    let in_hunk = st.left.spec_in_hunk();
    let at = starts_with(line, "@@"@);
    let left = if in_hunk && !at {
        st.left.spec_spend(line)
    } else {
        st.left
    };
    if !in_hunk && starts_with(line, "--- "@) {
        ParseState { old_path: Some(spec_strip_prefix_dir(trim(line.skip(4)))), left, ..st }
    } else if !in_hunk && starts_with(line, "+++ "@) {
        ParseState { new_path: Some(spec_strip_prefix_dir(trim(line.skip(4)))), left, ..st }
    } else if at {
        let left = match spec_hunk_lengths(line) {
            Some((o, n)) => Budget { old: o, new: n },
            None => Budget::spent(),
        };
        match spec_hunk_starts(line) {
            None => ParseState { bad: Some(line), left, ..st },
            Some((o, n)) => ParseState {
                hunks: st.hunks.push(
                    RawHunkView {
                        header: line,
                        old_start: o,
                        new_start: n,
                        old_next: o,
                        new_next: n,
                        lines: Seq::empty(),
                    },
                ),
                left,
                ..st
            },
        }
    } else if st.hunks.len() > 0 {
        match body_line(line) {
            Some((kind, text)) => ParseState {
                hunks: st.hunks.update(
                    st.hunks.len() - 1,
                    add_line(st.hunks.last(), kind, text),
                ),
                left,
                ..st
            },
            None => ParseState { left, ..st },
        }
    } else {
        ParseState { left, ..st }
    }
}

pub open spec fn parse_fold(lines: Seq<Seq<char>>) -> ParseState
    decreases lines.len(),
{
    if lines.len() == 0 {
        ParseState {
            old_path: None,
            new_path: None,
            hunks: Seq::empty(),
            left: Budget::spent(),
            bad: None,
        }
    } else {
        let st = parse_fold(lines.drop_last());
        if st.bad is Some {
            st
        } else {
            parse_step(st, lines.last())
        }
    }
}

/// How many lines of a kind a sequence of lines holds.
pub open spec fn count_lines(ls: Seq<RawLineView>, kind: LineKind) -> nat
    decreases ls.len(),
{
    if ls.len() == 0 {
        0
    } else {
        count_lines(ls.drop_last(), kind) + if ls.last().kind == kind {
            1nat
        } else {
            0nat
        }
    }
}

/// How many lines of a kind the hunks hold.
pub open spec fn count_hunks(hs: Seq<RawHunkView>, kind: LineKind) -> nat
    decreases hs.len(),
{
    if hs.len() == 0 {
        0
    } else {
        count_hunks(hs.drop_last(), kind) + count_lines(hs.last().lines, kind)
    }
}

/// The file's label: the new name unless it is `/dev/null`, else the old one.
pub open spec fn file_label(st: ParseState) -> Seq<char> {
    match st.new_path {
        Some(p) => if p != "/dev/null"@ {
            p
        } else {
            match st.old_path {
                Some(q) => q,
                None => "(unknown)"@,
            }
        },
        None => match st.old_path {
            Some(q) => q,
            None => "(unknown)"@,
        },
    }
}

/// The message for a hunk header whose start lines cannot be read.
pub open spec fn bad_header_message(line: Seq<char>) -> Seq<char> {
    "could not parse hunk header "@ + crate::text::debug_quoted(line)
}

/// One file's diff, as values.
pub struct RawFileView {
    pub label: Seq<char>,
    pub hunks: Seq<RawHunkView>,
    pub added: nat,
    pub removed: nat,
}

impl View for RawFile {
    type V = RawFileView;

    open spec fn view(&self) -> RawFileView {
        RawFileView {
            label: self.label@,
            hunks: raw_hunks_view(self.hunks@),
            added: self.added as nat,
            removed: self.removed as nat,
        }
    }
}

/// What `parse_file` gives for a file's lines: an error at the first unreadable
/// hunk header, nothing for a header with no hunks (a rename, a mode change, a
/// binary file), and otherwise the file.
pub open spec fn spec_parse_file(lines: Seq<Seq<char>>) -> Result<Option<RawFileView>, Seq<char>> {
    let st = parse_fold(lines);
    match st.bad {
        Some(line) => Err(bad_header_message(line)),
        None => if st.hunks.len() == 0 {
            Ok(None)
        } else {
            Ok(
                Some(
                    RawFileView {
                        label: file_label(st),
                        hunks: st.hunks,
                        added: count_hunks(st.hunks, LineKind::Added),
                        removed: count_hunks(st.hunks, LineKind::Removed),
                    },
                ),
            )
        },
    }
}

/// A parse result, as values.
pub open spec fn file_result_view(r: Result<Option<RawFile>, String>) -> Result<
    Option<RawFileView>,
    Seq<char>,
> {
    match r {
        Ok(Some(f)) => Ok(Some(f@)),
        Ok(None) => Ok(None),
        Err(e) => Err(e@),
    }
}

/// Once parsing stops at a bad header, more lines change nothing.
proof fn lemma_bad_sticks(ls: Seq<Seq<char>>, j: int)
    requires
        0 <= j <= ls.len(),
        parse_fold(ls.take(j)).bad is Some,
    ensures
        parse_fold(ls) == parse_fold(ls.take(j)),
    decreases ls.len() - j,
{
    if j < ls.len() {
        assert(ls.take(j + 1).drop_last() =~= ls.take(j));
        lemma_bad_sticks(ls, j + 1);
    } else {
        assert(ls.take(j) =~= ls);
    }
}

proof fn lemma_count_add_line(hs: Seq<RawHunkView>, kind: LineKind, text: Seq<char>, k: LineKind)
    requires
        hs.len() > 0,
    ensures
        count_hunks(hs.update(hs.len() - 1, add_line(hs.last(), kind, text)), k) == count_hunks(
            hs,
            k,
        ) + if kind == k {
            1nat
        } else {
            0nat
        },
{
    let t = hs.update(hs.len() - 1, add_line(hs.last(), kind, text));
    assert(t.drop_last() =~= hs.drop_last());
    let ls = hs.last().lines;
    let l2 = add_line(hs.last(), kind, text).lines;
    assert(l2.drop_last() =~= ls);
}

proof fn lemma_count_push_hunk(hs: Seq<RawHunkView>, h: RawHunkView, k: LineKind)
    requires
        h.lines.len() == 0,
    ensures
        count_hunks(hs.push(h), k) == count_hunks(hs, k),
{
    assert(hs.push(h).drop_last() =~= hs);
}

/// Parses the lines of one file's diff: its paths, its hunks, and each body
/// line numbered on the sides it exists on.
///
/// The `---`/`+++` pair only names files in the header. Once a hunk has
/// started, those prefixes are ordinary removed and added lines; the hunk's
/// declared lengths say where it ends, so a header after it is still a header.
pub fn parse_file(lines: &Vec<String>) -> (r: Result<Option<RawFile>, String>)
    ensures
        file_result_view(r) == spec_parse_file(crate::session::strings_view(lines@)),
{
    let ghost ls = crate::session::strings_view(lines@);
    let minus = chars_of("--- ");
    let plus = chars_of("+++ ");
    let ats = chars_of("@@");
    let mut old_path: Option<String> = None;
    let mut new_path: Option<String> = None;
    let mut hunks: Vec<RawHunk> = Vec::new();
    let mut left = Budget { old: 0, new: 0 };
    let mut added: usize = 0;
    let mut removed: usize = 0;
    let mut i: usize = 0;
    assert(raw_hunks_view(hunks@) =~= Seq::<RawHunkView>::empty());
    while i < lines.len()
        invariant
            i <= lines.len(),
            ls == crate::session::strings_view(lines@),
            minus@ == "--- "@,
            plus@ == "+++ "@,
            ats@ == "@@"@,
            parse_fold(ls.take(i as int)).bad is None,
            opt_view(old_path) == parse_fold(ls.take(i as int)).old_path,
            opt_view(new_path) == parse_fold(ls.take(i as int)).new_path,
            raw_hunks_view(hunks@) == parse_fold(ls.take(i as int)).hunks,
            left == parse_fold(ls.take(i as int)).left,
            added == count_hunks(parse_fold(ls.take(i as int)).hunks, LineKind::Added),
            removed == count_hunks(parse_fold(ls.take(i as int)).hunks, LineKind::Removed),
            added <= i,
            removed <= i,
        decreases lines.len() - i,
    {
        let ghost st = parse_fold(ls.take(i as int));
        assert(ls.take(i + 1).drop_last() =~= ls.take(i as int));
        assert(ls.take(i + 1).last() == lines@[i as int]@);
        let line = chars_of(lines[i].as_str());
        proof {
            reveal_strlit("--- ");
            reveal_strlit("+++ ");
        }
        let in_hunk = left.in_hunk();
        let at = crate::text::starts_with_exec(&line, &ats);
        if in_hunk && !at {
            left.spend(&line);
        }
        if !in_hunk && crate::text::starts_with_exec(&line, &minus) {
            let rest = crate::text::slice_chars(&line, 4, line.len());
            assert(rest@ == line@.skip(4));
            let path = strip_prefix_dir_chars(&trim_chars(&rest));
            old_path = Some(string_of(&path));
        } else if !in_hunk && crate::text::starts_with_exec(&line, &plus) {
            let rest = crate::text::slice_chars(&line, 4, line.len());
            assert(rest@ == line@.skip(4));
            let path = strip_prefix_dir_chars(&trim_chars(&rest));
            new_path = Some(string_of(&path));
        } else if at {
            left = match lengths_of(&line) {
                Some((o, n)) => Budget { old: o, new: n },
                None => Budget { old: 0, new: 0 },
            };
            match starts_of(&line) {
                None => {
                    let shown = crate::text::debug_str(lines[i].as_str());
                    let mut msg = chars_of("could not parse hunk header ");
                    let q = chars_of(shown.as_str());
                    crate::text::push_chars(&mut msg, &q);
                    proof {
                        lemma_bad_sticks(ls, i + 1);
                    }
                    return Err(string_of(&msg));
                },
                Some((o, n)) => {
                    proof {
                        lemma_count_push_hunk(
                            st.hunks,
                            RawHunkView {
                                header: line@,
                                old_start: o,
                                new_start: n,
                                old_next: o,
                                new_next: n,
                                lines: Seq::empty(),
                            },
                            LineKind::Added,
                        );
                        lemma_count_push_hunk(
                            st.hunks,
                            RawHunkView {
                                header: line@,
                                old_start: o,
                                new_start: n,
                                old_next: o,
                                new_next: n,
                                lines: Seq::empty(),
                            },
                            LineKind::Removed,
                        );
                    }
                    let h = RawHunk {
                        header: lines[i].clone(),
                        old_start: o,
                        new_start: n,
                        old_next: o,
                        new_next: n,
                        lines: Vec::new(),
                    };
                    assert(raw_lines_view(h.lines@) =~= Seq::<RawLineView>::empty());
                    hunks.push(h);
                    assert(raw_hunks_view(hunks@) =~= st.hunks.push(h@));
                },
            }
        } else if hunks.len() > 0 {
            let kind_text: Option<(LineKind, Vec<char>)> = if line.len() == 0 {
                Some((LineKind::Context, Vec::new()))
            } else if line[0] == '+' {
                Some((LineKind::Added, crate::text::slice_chars(&line, 1, line.len())))
            } else if line[0] == '-' {
                Some((LineKind::Removed, crate::text::slice_chars(&line, 1, line.len())))
            } else if line[0] == ' ' {
                Some((LineKind::Context, crate::text::slice_chars(&line, 1, line.len())))
            } else {
                None
            };
            match kind_text {
                Some((kind, text)) => {
                    assert(body_line(line@) == Some((kind, text@))) by {
                        if line@.len() > 0 {
                            assert(text@ =~= line@.drop_first());
                        } else {
                            assert(text@ =~= Seq::<char>::empty());
                        }
                    }
                    let last = hunks.len() - 1;
                    let ghost h0 = hunks@[last as int]@;
                    let (o, n) = (hunks[last].old_next, hunks[last].new_next);
                    let next_o = if o == usize::MAX {
                        0
                    } else {
                        o + 1
                    };
                    let next_n = if n == usize::MAX {
                        0
                    } else {
                        n + 1
                    };
                    let raw = match kind {
                        LineKind::Added => {
                            hunks[last].new_next = next_n;
                            RawLine { kind, old: None, new: Some(n), text: string_of(&text) }
                        },
                        LineKind::Removed => {
                            hunks[last].old_next = next_o;
                            RawLine { kind, old: Some(o), new: None, text: string_of(&text) }
                        },
                        LineKind::Context => {
                            hunks[last].old_next = next_o;
                            hunks[last].new_next = next_n;
                            RawLine { kind, old: Some(o), new: Some(n), text: string_of(&text) }
                        },
                    };
                    hunks[last].lines.push(raw);
                    proof {
                        lemma_count_add_line(st.hunks, kind, text@, LineKind::Added);
                        lemma_count_add_line(st.hunks, kind, text@, LineKind::Removed);
                        assert(raw_lines_view(hunks@[last as int].lines@) =~= add_line(
                            h0,
                            kind,
                            text@,
                        ).lines);
                        assert(hunks@[last as int]@ == add_line(h0, kind, text@));
                        assert(raw_hunks_view(hunks@) =~= st.hunks.update(
                            last as int,
                            add_line(h0, kind, text@),
                        ));
                    }
                    if kind == LineKind::Added {
                        added = added + 1;
                    } else if kind == LineKind::Removed {
                        removed = removed + 1;
                    }
                },
                None => {},
            }
        }
        i = i + 1;
    }
    assert(ls.take(i as int) =~= ls);
    if hunks.len() == 0 {
        return Ok(None);
    }
    let label = match new_path {
        Some(p) => {
            let pc = chars_of(p.as_str());
            let devnull = chars_of("/dev/null");
            if crate::text::chars_eq(&pc, &devnull) {
                match old_path {
                    Some(q) => q,
                    None => "(unknown)".to_owned(),
                }
            } else {
                p
            }
        },
        None => match old_path {
            Some(q) => q,
            None => "(unknown)".to_owned(),
        },
    };
    Ok(Some(RawFile { label, hunks, added, removed }))
}

// ---------------------------------------------------------------------------
// A whole diff.
// ---------------------------------------------------------------------------

/// What a whole diff parses to, file group by file group: the first error, or
/// the files that have hunks, in order.
pub open spec fn parse_groups(groups: Seq<Seq<Seq<char>>>) -> Result<Seq<RawFileView>, Seq<char>>
    decreases groups.len(),
{
    if groups.len() == 0 {
        Ok(Seq::empty())
    } else {
        match parse_groups(groups.drop_last()) {
            Err(e) => Err(e),
            Ok(fs) => match spec_parse_file(groups.last()) {
                Err(e) => Err(e),
                Ok(None) => Ok(fs),
                Ok(Some(f)) => Ok(fs.push(f)),
            },
        }
    }
}

/// The error for input with no file diffs in it.
pub open spec fn no_diff_message() -> Seq<char> {
    "no file diffs found. Expected unified diff output, as from `git diff` or `diff -u`"@
}

/// What `parse_structure` gives for a diff.
pub open spec fn spec_parse_diff(source: Seq<char>) -> Result<Seq<RawFileView>, Seq<char>> {
    match parse_groups(spec_split_files(source)) {
        Err(e) => Err(e),
        Ok(fs) => if fs.len() == 0 {
            Err(no_diff_message())
        } else {
            Ok(fs)
        },
    }
}

pub open spec fn raw_files_view(v: Seq<RawFile>) -> Seq<RawFileView> {
    v.map_values(|f: RawFile| f@)
}

/// Splits a unified diff into files and parses each, before highlighting.
///
/// Files with no hunks are skipped; input with no file diffs at all is an
/// error, as is a hunk header whose start lines cannot be read.
pub fn parse_structure(source: &str) -> (r: Result<Vec<RawFile>, String>)
    ensures
        match r {
            Ok(v) => spec_parse_diff(source@) == Ok::<Seq<RawFileView>, Seq<char>>(
                raw_files_view(v@),
            ),
            Err(e) => spec_parse_diff(source@) == Err::<Seq<RawFileView>, Seq<char>>(e@),
        },
{
    let groups = split_files(source);
    let ghost gs = groups_view(groups@);
    let mut files: Vec<RawFile> = Vec::new();
    let mut i: usize = 0;
    assert(raw_files_view(files@) =~= Seq::<RawFileView>::empty());
    while i < groups.len()
        invariant
            i <= groups.len(),
            gs == groups_view(groups@),
            gs == spec_split_files(source@),
            parse_groups(gs.take(i as int)) == Ok::<Seq<RawFileView>, Seq<char>>(
                raw_files_view(files@),
            ),
        decreases groups.len() - i,
    {
        assert(gs.take(i + 1).drop_last() =~= gs.take(i as int));
        assert(gs.take(i + 1).last() == crate::session::strings_view(groups@[i as int]@));
        let res = parse_file(&groups[i]);
        assert(file_result_view(res) == spec_parse_file(gs.take(i + 1).last()));
        match res {
            Err(e) => {
                assert(parse_groups(gs.take(i + 1)) == Err::<Seq<RawFileView>, Seq<char>>(e@));
                proof {
                    lemma_groups_error_sticks(gs, i + 1);
                }
                assert(gs == spec_split_files(source@));
                assert(parse_groups(gs) == Err::<Seq<RawFileView>, Seq<char>>(e@));
                assert(spec_parse_diff(source@) == Err::<Seq<RawFileView>, Seq<char>>(e@));
                return Err(e);
            },
            Ok(None) => {
                assert(parse_groups(gs.take(i + 1)) == Ok::<Seq<RawFileView>, Seq<char>>(
                    raw_files_view(files@),
                ));
            },
            Ok(Some(f)) => {
                let ghost before = raw_files_view(files@);
                files.push(f);
                assert(raw_files_view(files@) =~= before.push(f@));
                assert(parse_groups(gs.take(i + 1)) == Ok::<Seq<RawFileView>, Seq<char>>(
                    raw_files_view(files@),
                ));
            },
        }
        i = i + 1;
    }
    assert(gs.take(i as int) =~= gs);
    if files.len() == 0 {
        let msg = "no file diffs found. Expected unified diff output, as from `git diff` or `diff -u`".to_owned();
        return Err(msg);
    }
    Ok(files)
}

/// Once a group fails, the whole diff fails the same way.
proof fn lemma_groups_error_sticks(gs: Seq<Seq<Seq<char>>>, j: int)
    requires
        0 <= j <= gs.len(),
        parse_groups(gs.take(j)) is Err,
    ensures
        parse_groups(gs) == parse_groups(gs.take(j)),
    decreases gs.len() - j,
{
    if j < gs.len() {
        assert(gs.take(j + 1).drop_last() =~= gs.take(j));
        lemma_groups_error_sticks(gs, j + 1);
    } else {
        assert(gs.take(j) =~= gs);
    }
}

// ---------------------------------------------------------------------------
// Matching highlighted sides back to the lines.
// ---------------------------------------------------------------------------

/// Whether a line belongs to a side: the old side holds removed and context
/// lines, the new side added and context lines.
pub open spec fn on_side(kind: LineKind, old_side: bool) -> bool {
    if old_side {
        kind != LineKind::Added
    } else {
        kind != LineKind::Removed
    }
}

/// The texts of the lines on one side, in order: the side as a document.
pub open spec fn side_texts(ls: Seq<RawLineView>, old_side: bool) -> Seq<Seq<char>>
    decreases ls.len(),
{
    if ls.len() == 0 {
        Seq::empty()
    } else {
        let rest = side_texts(ls.drop_last(), old_side);
        if on_side(ls.last().kind, old_side) {
            rest.push(ls.last().text)
        } else {
            rest
        }
    }
}

/// The texts of one side of a hunk, for highlighting as one document.
pub fn side_lines(hunk: &RawHunk, old_side: bool) -> (r: Vec<String>)
    ensures
        crate::session::strings_view(r@) == side_texts(hunk@.lines, old_side),
{
    let ghost ls = hunk@.lines;
    let mut out: Vec<String> = Vec::new();
    let mut i: usize = 0;
    assert(crate::session::strings_view(out@) =~= Seq::<Seq<char>>::empty());
    while i < hunk.lines.len()
        invariant
            i <= hunk.lines.len(),
            ls == hunk@.lines,
            crate::session::strings_view(out@) == side_texts(ls.take(i as int), old_side),
        decreases hunk.lines.len() - i,
    {
        assert(ls.take(i + 1).drop_last() =~= ls.take(i as int));
        assert(ls.take(i + 1).last() == hunk.lines@[i as int]@);
        let kind = hunk.lines[i].kind;
        let keep = if old_side {
            kind != LineKind::Added
        } else {
            kind != LineKind::Removed
        };
        if keep {
            out.push(hunk.lines[i].text.clone());
            assert(crate::session::strings_view(out@) =~= crate::session::strings_view(
                out@.drop_last(),
            ).push(hunk.lines@[i as int].text@));
        }
        i = i + 1;
    }
    assert(ls.take(i as int) =~= ls);
    out
}

/// A highlighted line that renders as nothing still needs height: `&nbsp;` is
/// appended to one that is blank once trimmed.
pub fn pad_blank_html(html: String) -> (r: String)
    ensures
        r@ == (if trim(html@).len() == 0 {
            html@ + "&nbsp;"@
        } else {
            html@
        }),
{
    let cs = chars_of(html.as_str());
    let t = trim_chars(&cs);
    if t.len() == 0 {
        let mut out = cs;
        crate::text::push_str(&mut out, "&nbsp;");
        string_of(&out)
    } else {
        html
    }
}

/// How many of the first `j` lines are on a side: the index, in the side's own
/// document, of line `j` when it is on that side.
pub open spec fn side_index(ls: Seq<RawLineView>, j: int, old_side: bool) -> nat {
    side_texts(ls.take(j), old_side).len()
}

/// The `i`th highlighted line of a side, if the highlighter produced one.
pub open spec fn pick(v: Seq<Seq<char>>, i: nat) -> Option<Seq<char>> {
    if i < v.len() {
        Some(v[i as int])
    } else {
        None
    }
}

/// The HTML a diff line shows: its side's highlighting (for a context line the
/// old side's, else the new side's), or its text escaped when the highlighter
/// produced nothing for it.
pub open spec fn line_html(
    ls: Seq<RawLineView>,
    j: int,
    old_html: Seq<Seq<char>>,
    new_html: Seq<Seq<char>>,
) -> Seq<char> {
    let o = pick(old_html, side_index(ls, j, true));
    let n = pick(new_html, side_index(ls, j, false));
    let chosen = match ls[j].kind {
        LineKind::Added => n,
        LineKind::Removed => o,
        LineKind::Context => if o is Some {
            o
        } else {
            n
        },
    };
    match chosen {
        Some(h) => h,
        None => escape_markup(ls[j].text),
    }
}

/// A hunk with each line given its highlighted HTML.
pub fn assemble_hunk(hunk: &RawHunk, old_html: &Vec<String>, new_html: &Vec<String>) -> (r: Hunk)
    ensures
        r.header@ == hunk.header@,
        r.old_start == hunk.old_start,
        r.new_start == hunk.new_start,
        r.lines@.len() == hunk.lines@.len(),
        forall|j: int|
            0 <= j < r.lines@.len() ==> {
                let l = #[trigger] r.lines@[j];
                &&& l.kind == hunk.lines@[j].kind
                &&& l.old == hunk.lines@[j].old
                &&& l.new == hunk.lines@[j].new
                &&& l.text@ == hunk.lines@[j].text@
                &&& l.html@ == line_html(
                    hunk@.lines,
                    j,
                    crate::session::strings_view(old_html@),
                    crate::session::strings_view(new_html@),
                )
            },
{
    let ghost ls = hunk@.lines;
    let ghost ov = crate::session::strings_view(old_html@);
    let ghost nv = crate::session::strings_view(new_html@);
    let mut lines: Vec<DiffLine> = Vec::new();
    let mut io: usize = 0;
    let mut inew: usize = 0;
    let mut j: usize = 0;
    assert(ls.take(0) =~= Seq::<RawLineView>::empty());
    while j < hunk.lines.len()
        invariant
            j <= hunk.lines.len(),
            ls == hunk@.lines,
            ov == crate::session::strings_view(old_html@),
            nv == crate::session::strings_view(new_html@),
            io == side_index(ls, j as int, true),
            inew == side_index(ls, j as int, false),
            io <= j,
            inew <= j,
            lines@.len() == j,
            forall|k: int|
                0 <= k < j ==> {
                    let l = #[trigger] lines@[k];
                    &&& l.kind == hunk.lines@[k].kind
                    &&& l.old == hunk.lines@[k].old
                    &&& l.new == hunk.lines@[k].new
                    &&& l.text@ == hunk.lines@[k].text@
                    &&& l.html@ == line_html(ls, k, ov, nv)
                },
        decreases hunk.lines.len() - j,
    {
        let raw = &hunk.lines[j];
        assert(ls[j as int] == raw@);
        let o: Option<&String> = if io < old_html.len() {
            Some(&old_html[io])
        } else {
            None
        };
        let n: Option<&String> = if inew < new_html.len() {
            Some(&new_html[inew])
        } else {
            None
        };
        let chosen = match raw.kind {
            LineKind::Added => n,
            LineKind::Removed => o,
            LineKind::Context => if o.is_some() {
                o
            } else {
                n
            },
        };
        let html = match chosen {
            Some(h) => h.clone(),
            None => crate::text::escape_markup_exec(raw.text.as_str()),
        };
        lines.push(
            DiffLine {
                kind: raw.kind,
                old: raw.old,
                new: raw.new,
                html,
                text: raw.text.clone(),
            },
        );
        proof {
            assert(ls.take(j + 1).drop_last() =~= ls.take(j as int));
            assert(ls.take(j + 1).last() == ls[j as int]);
        }
        if raw.kind != LineKind::Added {
            io = io + 1;
        }
        if raw.kind != LineKind::Removed {
            inew = inew + 1;
        }
        j = j + 1;
    }
    Hunk {
        header: hunk.header.clone(),
        lines,
        old_start: hunk.old_start,
        new_start: hunk.new_start,
    }
}

impl RawHunk {
    /// Whether `out` is this hunk with each line given its HTML from the two
    /// highlighted sides.
    pub open spec fn assembled_as(
        self,
        out: Hunk,
        old_html: Seq<Seq<char>>,
        new_html: Seq<Seq<char>>,
    ) -> bool {
        &&& out.header@ == self.header@
        &&& out.old_start == self.old_start
        &&& out.new_start == self.new_start
        &&& out.lines@.len() == self.lines@.len()
        &&& forall|j: int|
            0 <= j < out.lines@.len() ==> {
                let l = #[trigger] out.lines@[j];
                &&& l.kind == self.lines@[j].kind
                &&& l.old == self.lines@[j].old
                &&& l.new == self.lines@[j].new
                &&& l.text@ == self.lines@[j].text@
                &&& l.html@ == line_html(self@.lines, j, old_html, new_html)
            }
    }
}

/// The highlighted side of hunk `h`, or nothing when none was produced.
pub open spec fn side_of_hunk(v: Seq<Vec<String>>, h: int) -> Seq<Seq<char>> {
    if 0 <= h < v.len() {
        crate::session::strings_view(v[h]@)
    } else {
        Seq::empty()
    }
}

/// A parsed file with its hunks' highlighted sides matched back to the lines.
/// `old_html[h]` and `new_html[h]` are hunk `h`'s two sides; a side that is
/// missing falls back to escaped text.
pub fn assemble_file(
    raw: &RawFile,
    old_html: &Vec<Vec<String>>,
    new_html: &Vec<Vec<String>>,
    language: String,
) -> (r: DiffFile)
    ensures
        r.label@ == raw.label@,
        r.added == raw.added,
        r.removed == raw.removed,
        r.language@ == language@,
        r.source@.len() == 0,
        r.hunks@.len() == raw.hunks@.len(),
        forall|h: int|
            0 <= h < r.hunks@.len() ==> raw.hunks@[h].assembled_as(
                #[trigger] r.hunks@[h],
                side_of_hunk(old_html@, h),
                side_of_hunk(new_html@, h),
            ),
{
    let empty: Vec<String> = Vec::new();
    let mut hunks: Vec<Hunk> = Vec::new();
    let mut h: usize = 0;
    while h < raw.hunks.len()
        invariant
            h <= raw.hunks.len(),
            empty@.len() == 0,
            hunks@.len() == h,
            forall|k: int|
                0 <= k < h ==> raw.hunks@[k].assembled_as(
                    #[trigger] hunks@[k],
                    side_of_hunk(old_html@, k),
                    side_of_hunk(new_html@, k),
                ),
        decreases raw.hunks.len() - h,
    {
        let o = if h < old_html.len() {
            &old_html[h]
        } else {
            &empty
        };
        let n = if h < new_html.len() {
            &new_html[h]
        } else {
            &empty
        };
        assert(crate::session::strings_view(empty@) =~= Seq::<Seq<char>>::empty());
        let out = assemble_hunk(&raw.hunks[h], o, n);
        hunks.push(out);
        h = h + 1;
    }
    DiffFile {
        label: raw.label.clone(),
        hunks,
        added: raw.added,
        removed: raw.removed,
        language,
        source: Vec::new(),
    }
}

// ---------------------------------------------------------------------------
// Review order.
// ---------------------------------------------------------------------------

/// Lockfiles and generated bundles carry no hand-written signal.
pub open spec fn is_lockfile(name: Seq<char>) -> bool {
    name == "cargo.lock"@ || name == "package-lock.json"@ || name == "yarn.lock"@ || name
        == "pnpm-lock.yaml"@ || name == "poetry.lock"@ || name == "go.sum"@
}

/// Whether `lower` is under a generated or vendored tree.
pub open spec fn low_dir_with(lower: Seq<char>, dir: Seq<char>) -> bool {
    starts_with(lower, dir) || crate::text::contains(lower, seq!['/'] + dir)
}

pub open spec fn in_low_dir(lower: Seq<char>) -> bool {
    low_dir_with(lower, "vendor/"@) || low_dir_with(lower, "node_modules/"@) || low_dir_with(
        lower,
        "dist/"@,
    ) || low_dir_with(lower, "build/"@) || low_dir_with(lower, "target/"@) || low_dir_with(
        lower,
        "generated/"@,
    )
}

/// Extensions of hand-written source.
pub open spec fn is_source_ext(e: Seq<char>) -> bool {
    e == "rs"@ || e == "ts"@ || e == "tsx"@ || e == "js"@ || e == "jsx"@ || e == "py"@ || e
        == "go"@ || e == "java"@ || e == "c"@ || e == "h"@ || e == "cpp"@ || e == "cc"@ || e
        == "cxx"@ || e == "hpp"@ || e == "rb"@ || e == "swift"@ || e == "kt"@ || e == "scala"@
        || e == "cs"@ || e == "php"@ || e == "sh"@
}

/// A file's rank in a review, lower first: hand-written source (0), then docs,
/// config and anything unknown (1), then lockfiles, generated and vendored
/// files and dot-directories (2).
pub open spec fn spec_review_rank(label: Seq<char>) -> u8 {
    let name = crate::text::lower(
        match crate::text::path_file_name(label) {
            Some(n) => n,
            None => label,
        },
    );
    let l = crate::text::lower(label);
    if is_lockfile(name) || ends_with(name, ".min.js"@) || ends_with(name, ".map"@) {
        2
    } else if in_low_dir(l) || starts_with(l, "."@) || crate::text::contains(l, "/."@) {
        2
    } else {
        match crate::text::path_extension(label) {
            Some(e) => if is_source_ext(crate::text::lower(e)) {
                0
            } else {
                1
            },
            None => 1,
        }
    }
}

/// The name a label's lowercased file name has, or the whole label
/// lowercased when it has no file name.
pub open spec fn lowered_name(label: Seq<char>) -> Seq<char> {
    crate::text::lower(
        match crate::text::path_file_name(label) {
            Some(n) => n,
            None => label,
        },
    )
}

/// A lockfile, a minified script, a source map, or anything under a
/// vendored, built or generated directory or a dot-directory.
pub open spec fn low_signal(label: Seq<char>) -> bool {
    let name = lowered_name(label);
    let l = crate::text::lower(label);
    ||| is_lockfile(name)
    ||| ends_with(name, ".min.js"@)
    ||| ends_with(name, ".map"@)
    ||| in_low_dir(l)
    ||| starts_with(l, "."@)
    ||| crate::text::contains(l, "/."@)
}

/// What each rank holds. Hand-written source comes first: a file whose
/// extension, lowercased, is `rs`, `ts`, `tsx`, `js`, `jsx`, `py`, `go`,
/// `java`, `c`, `h`, `cpp`, `cc`, `cxx`, `hpp`, `rb`, `swift`, `kt`, `scala`,
/// `cs`, `php` or `sh` ranks 0; any other file ranks 1 (docs, config, the
/// unknown); lockfiles, minified scripts, source maps and files under
/// vendored, built, generated or dot directories rank 2, whatever their
/// extension.
pub proof fn review_rank_by_kind(label: Seq<char>)
    ensures
        low_signal(label) ==> spec_review_rank(label) == 2,
        !low_signal(label) && (crate::text::path_extension(label) matches Some(e) && {
            let x = crate::text::lower(e);
            ||| x == "rs"@
            ||| x == "ts"@
            ||| x == "tsx"@
            ||| x == "js"@
            ||| x == "jsx"@
            ||| x == "py"@
            ||| x == "go"@
            ||| x == "java"@
            ||| x == "c"@
            ||| x == "h"@
            ||| x == "cpp"@
            ||| x == "cc"@
            ||| x == "cxx"@
            ||| x == "hpp"@
            ||| x == "rb"@
            ||| x == "swift"@
            ||| x == "kt"@
            ||| x == "scala"@
            ||| x == "cs"@
            ||| x == "php"@
            ||| x == "sh"@
        }) ==> spec_review_rank(label) == 0,
        !low_signal(label) && !(crate::text::path_extension(label) matches Some(e) && is_source_ext(
            crate::text::lower(e),
        )) ==> spec_review_rank(label) == 1,
{
}

/// A file's review rank does not depend on the case of the ASCII letters in
/// its label; it is at most 2, and it is 2 for anything under a vendored,
/// built or generated directory or a dot-directory, or itself hidden.
pub proof fn review_rank_ignores_case(label: Seq<char>)
    ensures
        spec_review_rank(crate::text::lower(label)) == spec_review_rank(label),
        spec_review_rank(label) <= 2,
        (in_low_dir(crate::text::lower(label)) || starts_with(crate::text::lower(label), "."@) || crate::text::contains(
            crate::text::lower(label),
            "/."@,
        )) ==> spec_review_rank(label) == 2,
{
    crate::text::lower_path_parts(label);
    crate::text::lower_idempotent(label);
    match crate::text::path_file_name(label) {
        Some(n) => crate::text::lower_idempotent(n),
        None => {},
    }
    match crate::text::path_extension(label) {
        Some(e) => crate::text::lower_idempotent(e),
        None => {},
    }
}

fn low_dir_with_exec(lower: &Vec<char>, dir: &str) -> (r: bool)
    ensures
        r == low_dir_with(lower@, dir@),
{
    let d = chars_of(dir);
    let mut slash_d: Vec<char> = Vec::new();
    slash_d.push('/');
    crate::text::push_chars(&mut slash_d, &d);
    assert(slash_d@ =~= seq!['/'] + dir@);
    crate::text::starts_with_exec(lower, &d) || crate::text::contains_exec(lower, &slash_d)
}

/// A rank for ordering files in a review, lower = shown first.
///
/// A `git diff` lists files alphabetically, which floats low-signal files like
/// `Cargo.lock` to the top. Callers sort by this with a stable sort so files
/// within a rank keep the patch's order.
pub fn review_rank(label: &str) -> (r: u8)
    ensures
        r == spec_review_rank(label@),
{
    let name_raw = match crate::text::file_name_of(label) {
        Some(n) => chars_of(n.as_str()),
        None => chars_of(label),
    };
    let name = lower_chars(&name_raw);
    let l = lower_chars(&chars_of(label));
    if eq_lit(&name, "cargo.lock") || eq_lit(&name, "package-lock.json") || eq_lit(
        &name,
        "yarn.lock",
    ) || eq_lit(&name, "pnpm-lock.yaml") || eq_lit(&name, "poetry.lock") || eq_lit(
        &name,
        "go.sum",
    ) || ends_with_lit(&name, ".min.js") || ends_with_lit(&name, ".map") {
        return 2;
    }
    let low = low_dir_with_exec(&l, "vendor/") || low_dir_with_exec(&l, "node_modules/")
        || low_dir_with_exec(&l, "dist/") || low_dir_with_exec(&l, "build/") || low_dir_with_exec(
        &l,
        "target/",
    ) || low_dir_with_exec(&l, "generated/");
    if low || starts_with_lit(&l, ".") || contains_lit(&l, "/.") {
        return 2;
    }
    match crate::text::extension_of(label) {
        Some(e) => {
            let e = lower_chars(&chars_of(e.as_str()));
            if eq_lit(&e, "rs") || eq_lit(&e, "ts") || eq_lit(&e, "tsx") || eq_lit(&e, "js")
                || eq_lit(&e, "jsx") || eq_lit(&e, "py") || eq_lit(&e, "go") || eq_lit(&e, "java")
                || eq_lit(&e, "c") || eq_lit(&e, "h") || eq_lit(&e, "cpp") || eq_lit(&e, "cc")
                || eq_lit(&e, "cxx") || eq_lit(&e, "hpp") || eq_lit(&e, "rb") || eq_lit(
                &e,
                "swift",
            ) || eq_lit(&e, "kt") || eq_lit(&e, "scala") || eq_lit(&e, "cs") || eq_lit(
                &e,
                "php",
            ) || eq_lit(&e, "sh") {
                0
            } else {
                1
            }
        },
        None => 1,
    }
}


/// The positions in `rs` that hold rank `r`, in order.
pub open spec fn positions_with(rs: Seq<u8>, r: u8) -> Seq<usize>
    decreases rs.len(),
{
    if rs.len() == 0 {
        Seq::empty()
    } else if rs.last() == r {
        positions_with(rs.drop_last(), r).push((rs.len() - 1) as usize)
    } else {
        positions_with(rs.drop_last(), r)
    }
}

/// The order a review shows files of ranks `rs` in: every rank-0 file, then
/// rank 1, then rank 2, each group in the patch's own order. This is what a
/// stable sort by rank gives.
pub open spec fn review_positions(rs: Seq<u8>) -> Seq<usize> {
    positions_with(rs, 0) + positions_with(rs, 1) + positions_with(rs, 2)
}

/// The rank of each label.
pub open spec fn ranks_of(labels: Seq<Seq<char>>) -> Seq<u8> {
    labels.map_values(|l: Seq<char>| spec_review_rank(l))
}

/// The order to show a patch's files in, as positions into `labels`: source
/// first, then docs and configuration, then lockfiles and generated files,
/// the patch's order kept within each.
pub fn review_order(labels: &Vec<String>) -> (r: Vec<usize>)
    ensures
        r@ == review_positions(ranks_of(crate::session::strings_view(labels@))),
{
    let ghost rs = ranks_of(crate::session::strings_view(labels@));
    let mut ranks: Vec<u8> = Vec::new();
    let mut i: usize = 0;
    while i < labels.len()
        invariant
            i <= labels.len(),
            rs == ranks_of(crate::session::strings_view(labels@)),
            ranks@ == rs.take(i as int),
        decreases labels.len() - i,
    {
        ranks.push(review_rank(labels[i].as_str()));
        i = i + 1;
        assert(ranks@ =~= rs.take(i as int));
    }
    assert(rs.take(i as int) =~= rs);
    let mut out: Vec<usize> = Vec::new();
    let mut r: u8 = 0;
    assert(out@ =~= Seq::<usize>::empty());
    while r < 3
        invariant
            r <= 3,
            ranks@ == rs,
            out@ == (if r == 0 {
                Seq::<usize>::empty()
            } else if r == 1 {
                positions_with(rs, 0)
            } else if r == 2 {
                positions_with(rs, 0) + positions_with(rs, 1)
            } else {
                review_positions(rs)
            }),
        decreases 3 - r,
    {
        let ghost before = out@;
        let mut j: usize = 0;
        assert(rs.take(0) =~= Seq::<u8>::empty());
        while j < ranks.len()
            invariant
                j <= ranks.len(),
                ranks@ == rs,
                out@ == before + positions_with(rs.take(j as int), r),
            decreases ranks.len() - j,
        {
            assert(rs.take(j + 1).drop_last() =~= rs.take(j as int));
            assert(rs.take(j + 1).last() == rs[j as int]);
            if ranks[j] == r {
                out.push(j);
            }
            j = j + 1;
            assert(out@ =~= before + positions_with(rs.take(j as int), r));
        }
        assert(rs.take(j as int) =~= rs);
        r = r + 1;
    }
    out
}


// ---------------------------------------------------------------------------
// The working-tree file behind a diff.
// ---------------------------------------------------------------------------

/// Whether `lines`, taken as the new-side file, says what diff line `l`
/// says: every line the new side shows is there, under its number.
pub open spec fn line_agrees(l: DiffLine, lines: Seq<Seq<char>>) -> bool {
    match l.kind {
        LineKind::Removed => true,
        _ => match l.new {
            Some(n) => 1 <= n <= lines.len() && lines[n - 1] == l.text@,
            None => true,
        },
    }
}

/// Whether `lines` agrees with every line of every hunk.
pub open spec fn agrees_with(hunks: Seq<Hunk>, lines: Seq<Seq<char>>) -> bool {
    forall|i: int, j: int|
        0 <= i < hunks.len() && 0 <= j < hunks[i].lines@.len() ==> line_agrees(
            #[trigger] hunks[i].lines@[j],
            lines,
        )
}

/// Whether the new-side file `lines` agrees with every line the diff shows.
pub fn source_agrees(hunks: &Vec<Hunk>, lines: &Vec<String>) -> (r: bool)
    ensures
        r == agrees_with(hunks@, crate::session::strings_view(lines@)),
{
    let ghost ls = crate::session::strings_view(lines@);
    let mut i: usize = 0;
    while i < hunks.len()
        invariant
            i <= hunks.len(),
            ls == crate::session::strings_view(lines@),
            forall|a: int, b: int|
                0 <= a < i && 0 <= b < hunks@[a].lines@.len() ==> line_agrees(
                    #[trigger] hunks@[a].lines@[b],
                    ls,
                ),
        decreases hunks.len() - i,
    {
        let hunk = &hunks[i];
        let mut j: usize = 0;
        while j < hunk.lines.len()
            invariant
                i < hunks.len(),
                *hunk == hunks@[i as int],
                j <= hunk.lines.len(),
                ls == crate::session::strings_view(lines@),
                forall|a: int, b: int|
                    0 <= a < i && 0 <= b < hunks@[a].lines@.len() ==> line_agrees(
                        #[trigger] hunks@[a].lines@[b],
                        ls,
                    ),
                forall|b: int| 0 <= b < j ==> line_agrees(#[trigger] hunk.lines@[b], ls),
            decreases hunk.lines.len() - j,
        {
            let l = &hunk.lines[j];
            let ok = match l.kind {
                LineKind::Removed => true,
                _ => match l.new {
                    Some(n) => {
                        if n >= 1 && n <= lines.len() {
                            crate::text::chars_eq(
                                &chars_of(lines[n - 1].as_str()),
                                &chars_of(l.text.as_str()),
                            )
                        } else {
                            false
                        }
                    },
                    None => true,
                },
            };
            if !ok {
                assert(!line_agrees(hunks@[i as int].lines@[j as int], ls));
                return false;
            }
            j = j + 1;
        }
        i = i + 1;
    }
    true
}

/// Keeps `lines` as the file's captured source when it agrees with every
/// line the diff shows, and nothing otherwise: a session whose patch
/// describes some other revision simply has nothing to expand.
pub fn keep_source(file: &mut DiffFile, lines: Vec<String>)
    ensures
        final(file).label == old(file).label,
        final(file).hunks == old(file).hunks,
        final(file).added == old(file).added,
        final(file).removed == old(file).removed,
        final(file).language == old(file).language,
        agrees_with(old(file).hunks@, crate::session::strings_view(lines@)) ==> final(file).source@
            == lines@,
        !agrees_with(old(file).hunks@, crate::session::strings_view(lines@))
            ==> final(file).source@.len() == 0,
{
    if source_agrees(&file.hunks, &lines) {
        file.source = lines;
    } else {
        file.source = Vec::new();
    }
}


// ---------------------------------------------------------------------------
// The lines a diff leaves out.
// ---------------------------------------------------------------------------

/// A run of new-side lines `from..=to` that a diff does not show.
#[derive(Debug, Clone, Copy, PartialEq, Eq, Structural)]
pub struct Gap {
    pub from: usize,
    pub to: usize,
}

/// What a diffed file hides: the run before each hunk, and the rest of the
/// file after the last one.
#[derive(Debug, Clone)]
pub struct Gaps {
    pub before: Vec<Option<Gap>>,
    pub after: Option<Gap>,
}

/// How many of `ls` exist on the new side.
pub open spec fn new_count(ls: Seq<DiffLine>) -> nat
    decreases ls.len(),
{
    if ls.len() == 0 {
        0
    } else {
        new_count(ls.drop_last()) + if ls.last().new is Some {
            1nat
        } else {
            0nat
        }
    }
}

/// The first new-side line at or after a hunk. A hunk that only removes
/// lines sits after line `new_start`, as its header says.
pub open spec fn hunk_first(h: Hunk) -> int {
    if new_count(h.lines@) == 0 {
        h.new_start + 1
    } else {
        h.new_start as int
    }
}

/// The last new-side line at or before the end of a hunk.
pub open spec fn hunk_last(h: Hunk) -> int {
    if new_count(h.lines@) == 0 {
        h.new_start as int
    } else {
        h.new_start + new_count(h.lines@) - 1
    }
}

/// The last new-side line shown by, or passed by, the hunks `hs`.
pub open spec fn shown_through(hs: Seq<Hunk>) -> int
    decreases hs.len(),
{
    if hs.len() == 0 {
        0
    } else {
        let c = shown_through(hs.drop_last());
        let l = hunk_last(hs.last());
        if l > c {
            l
        } else {
            c
        }
    }
}

/// The lines hidden between the hunks before `i` and hunk `i`.
pub open spec fn gap_before(hs: Seq<Hunk>, i: int) -> Option<Gap> {
    let c = shown_through(hs.take(i));
    let f = hunk_first(hs[i]);
    if c + 1 <= f - 1 {
        Some(Gap { from: (c + 1) as usize, to: (f - 1) as usize })
    } else {
        None
    }
}

/// The lines of a `len`-line file after everything the hunks show.
pub open spec fn gap_after(hs: Seq<Hunk>, len: nat) -> Option<Gap> {
    let c = shown_through(hs);
    if c < len {
        Some(Gap { from: (c + 1) as usize, to: len as usize })
    } else {
        None
    }
}

/// How many lines of `lines` exist on the new side.
fn count_new(lines: &Vec<DiffLine>) -> (r: usize)
    ensures
        r == new_count(lines@),
{
    let mut n: usize = 0;
    let mut i: usize = 0;
    while i < lines.len()
        invariant
            i <= lines.len(),
            n == new_count(lines@.take(i as int)),
            n <= i,
        decreases lines.len() - i,
    {
        assert(lines@.take(i + 1).drop_last() =~= lines@.take(i as int));
        if lines[i].new.is_some() {
            n = n + 1;
        }
        i = i + 1;
    }
    assert(lines@.take(i as int) =~= lines@);
    n
}

/// The runs of lines a diffed file hides, which the page offers to reveal.
/// A file whose source was not captured has nothing to reveal.
pub fn gaps(file: &DiffFile) -> (r: Gaps)
    ensures
        r.before@.len() == file.hunks@.len(),
        forall|i: int|
            0 <= i < file.hunks@.len() ==> #[trigger] r.before@[i] == (if file.source@.len() == 0 {
                None
            } else {
                gap_before(file.hunks@, i)
            }),
        r.after == (if file.source@.len() == 0 {
            None
        } else {
            gap_after(file.hunks@, file.source@.len())
        }),
{
    gaps_of(&file.hunks, file.source.len())
}

/// The runs that `hunks` leave out of a new file of `source_len` lines
/// (none when that is 0, which means the file was not captured).
pub fn gaps_of(hunks: &Vec<Hunk>, source_len: usize) -> (r: Gaps)
    ensures
        r.before@.len() == hunks@.len(),
        forall|i: int|
            0 <= i < hunks@.len() ==> #[trigger] r.before@[i] == (if source_len == 0 {
                None
            } else {
                gap_before(hunks@, i)
            }),
        r.after == (if source_len == 0 {
            None
        } else {
            gap_after(hunks@, source_len as nat)
        }),
{
    let hs = hunks;
    let captured = source_len > 0;
    let mut before: Vec<Option<Gap>> = Vec::new();
    let mut c: u128 = 0;
    let mut i: usize = 0;
    while i < hs.len()
        invariant
            i <= hs.len(),
            *hs == *hunks,
            captured == (source_len > 0),
            before@.len() == i,
            c == shown_through(hs@.take(i as int)),
            0 <= c <= 2 * (usize::MAX as int),
            forall|k: int|
                0 <= k < i ==> #[trigger] before@[k] == (if !captured {
                    None
                } else {
                    gap_before(hs@, k)
                }),
        decreases hs.len() - i,
    {
        let h = &hs[i];
        assert(hs@.take(i + 1).drop_last() =~= hs@.take(i as int));
        assert(hs@.take(i + 1).last() == *h);
        let n = count_new(&h.lines);
        let s = h.new_start as u128;
        let first: u128 = if n == 0 { s + 1 } else { s };
        let last: u128 = if n == 0 { s } else { s + n as u128 - 1 };
        let g = if captured && c + 2 <= first {
            Some(Gap { from: (c + 1) as usize, to: (first - 1) as usize })
        } else {
            None
        };
        assert(g == (if !captured {
            None
        } else {
            gap_before(hs@, i as int)
        }));
        before.push(g);
        if last > c {
            c = last;
        }
        i = i + 1;
    }
    assert(hs@.take(i as int) =~= hs@);
    let len = source_len as u128;
    let after = if captured && c < len {
        Some(Gap { from: (c + 1) as usize, to: source_len })
    } else {
        None
    };
    Gaps { before, after }
}


// ---------------------------------------------------------------------------
// Old-side numbers for revealed lines.
// ---------------------------------------------------------------------------

/// A context line's old number less its new one; nothing for a line that is
/// not on both sides.
pub open spec fn context_offset(l: DiffLine) -> Option<int> {
    match (l.kind, l.old, l.new) {
        (LineKind::Context, Some(o), Some(n)) => Some(o - n),
        _ => None,
    }
}

/// Whether `l` is a context line above new-side line `from`.
pub open spec fn context_above(l: DiffLine, from: usize) -> bool {
    &&& context_offset(l) is Some
    &&& (l.new matches Some(n) && n < from)
}

/// The offset of the last context line of `ls` above `from`.
pub open spec fn last_above_in(ls: Seq<DiffLine>, from: usize) -> Option<int>
    decreases ls.len(),
{
    if ls.len() == 0 {
        None
    } else if context_above(ls.last(), from) {
        context_offset(ls.last())
    } else {
        last_above_in(ls.drop_last(), from)
    }
}

/// The offset of the first context line of `ls`.
pub open spec fn first_in(ls: Seq<DiffLine>) -> Option<int>
    decreases ls.len(),
{
    if ls.len() == 0 {
        None
    } else {
        match first_in(ls.drop_last()) {
            Some(o) => Some(o),
            None => context_offset(ls.last()),
        }
    }
}

/// The offset of the last context line of the hunks above `from`.
pub open spec fn last_above(hs: Seq<Hunk>, from: usize) -> Option<int>
    decreases hs.len(),
{
    if hs.len() == 0 {
        None
    } else {
        match last_above_in(hs.last().lines@, from) {
            Some(o) => Some(o),
            None => last_above(hs.drop_last(), from),
        }
    }
}

/// The offset of the first context line of the hunks.
pub open spec fn first_context(hs: Seq<Hunk>) -> Option<int>
    decreases hs.len(),
{
    if hs.len() == 0 {
        None
    } else {
        match first_context(hs.drop_last()) {
            Some(o) => Some(o),
            None => first_in(hs.last().lines@),
        }
    }
}

/// How far old-side numbers run from new-side ones at new line `from`:
/// taken from the nearest context line above it, or else from the first
/// one; nothing when the diff shows no context line at all, as for a file
/// rewritten end to end.
pub open spec fn offset_at(hs: Seq<Hunk>, from: usize) -> Option<int> {
    match last_above(hs, from) {
        Some(o) => Some(o),
        None => first_context(hs),
    }
}

/// `context_offset` of one line, as a number.
fn line_offset(l: &DiffLine) -> (r: Option<i128>)
    ensures
        match context_offset(*l) {
            Some(o) => r matches Some(v) && v == o,
            None => r is None,
        },
{
    match (l.kind, l.old, l.new) {
        (LineKind::Context, Some(o), Some(n)) => Some(o as i128 - n as i128),
        _ => None,
    }
}

/// The offset of old-side numbers from new-side ones at new line `from`
/// (see `offset_at`), when it fits an `i64`.
pub fn old_offset_at(file: &DiffFile, from: usize) -> (r: Option<i64>)
    ensures
        r == (match offset_at(file.hunks@, from) {
            Some(o) => if i64::MIN <= o <= i64::MAX {
                Some(o as i64)
            } else {
                None
            },
            None => None,
        }),
{
    let hs = &file.hunks;
    let mut above: Option<i128> = None;
    let mut first: Option<i128> = None;
    let mut i: usize = 0;
    while i < hs.len()
        invariant
            i <= hs.len(),
            *hs == file.hunks,
            match last_above(hs@.take(i as int), from) {
                Some(o) => above matches Some(v) && v == o,
                None => above is None,
            },
            match first_context(hs@.take(i as int)) {
                Some(o) => first matches Some(v) && v == o,
                None => first is None,
            },
        decreases hs.len() - i,
    {
        let ls = &hs[i].lines;
        assert(hs@.take(i + 1).drop_last() =~= hs@.take(i as int));
        assert(hs@.take(i + 1).last() == hs@[i as int]);
        let mut here: Option<i128> = None;
        let mut lead: Option<i128> = None;
        let mut j: usize = 0;
        while j < ls.len()
            invariant
                i < hs.len(),
                *ls == hs@[i as int].lines,
                j <= ls.len(),
                match last_above_in(ls@.take(j as int), from) {
                    Some(o) => here matches Some(v) && v == o,
                    None => here is None,
                },
                match first_in(ls@.take(j as int)) {
                    Some(o) => lead matches Some(v) && v == o,
                    None => lead is None,
                },
            decreases ls.len() - j,
        {
            assert(ls@.take(j + 1).drop_last() =~= ls@.take(j as int));
            assert(ls@.take(j + 1).last() == ls@[j as int]);
            let l = &ls[j];
            let off = line_offset(l);
            if off.is_some() {
                match l.new {
                    Some(n) => {
                        if n < from {
                            here = off;
                        }
                    },
                    None => {},
                }
                if lead.is_none() {
                    lead = off;
                }
            }
            j = j + 1;
        }
        assert(ls@.take(j as int) =~= ls@);
        if here.is_some() {
            above = here;
        }
        if first.is_none() {
            first = lead;
        }
        i = i + 1;
    }
    assert(hs@.take(i as int) =~= hs@);
    let o = match above {
        Some(o) => Some(o),
        None => first,
    };
    match o {
        Some(v) => {
            if v >= i64::MIN as i128 && v <= i64::MAX as i128 {
                Some(v as i64)
            } else {
                None
            }
        },
        None => None,
    }
}


// ---------------------------------------------------------------------------
// Parsing and highlighting a diff.
// ---------------------------------------------------------------------------

/// A highlighted line that renders as nothing, given `&nbsp;` so it keeps its
/// height.
pub open spec fn padded(h: Seq<char>) -> Seq<char> {
    if trim(h).len() == 0 {
        h + "&nbsp;"@
    } else {
        h
    }
}

/// One side of a hunk highlighted as one document, each line padded.
pub open spec fn side_html(syntax: Seq<char>, texts: Seq<Seq<char>>, theme: Seq<char>) -> Option<
    Seq<Seq<char>>,
> {
    match crate::render::highlighted_lines(
        syntax,
        crate::text::join(texts, seq!['\n']) + seq!['\n'],
        theme,
    ) {
        Some(ls) => Some(ls.map_values(|h: Seq<char>| padded(h))),
        None => None,
    }
}

/// `RawHunk::assembled_as`, over the hunk's view.
pub open spec fn view_assembled_as(
    hv: RawHunkView,
    out: Hunk,
    old_html: Seq<Seq<char>>,
    new_html: Seq<Seq<char>>,
) -> bool {
    &&& out.header@ == hv.header
    &&& out.old_start == hv.old_start
    &&& out.new_start == hv.new_start
    &&& out.lines@.len() == hv.lines.len()
    &&& forall|j: int|
        0 <= j < out.lines@.len() ==> {
            let l = #[trigger] out.lines@[j];
            &&& l.kind == hv.lines[j].kind
            &&& l.old == hv.lines[j].old
            &&& l.new == hv.lines[j].new
            &&& l.text@ == hv.lines[j].text
            &&& l.html@ == line_html(hv.lines, j, old_html, new_html)
        }
}

/// Whether both sides of every hunk of a file could be highlighted.
pub open spec fn file_highlights(raw: RawFileView, theme: Seq<char>) -> bool {
    let syntax = crate::render::spec_syntax_for(raw.label, None);
    forall|h: int|
        0 <= h < raw.hunks.len() ==> side_html(syntax, side_texts(#[trigger] raw.hunks[h].lines, true), theme)
            is Some && side_html(syntax, side_texts(raw.hunks[h].lines, false), theme) is Some
}

/// A diffed file as parsing and highlighting make it from its parsed form:
/// each hunk's sides highlighted with the syntax its label gets.
pub open spec fn file_as(f: DiffFile, raw: RawFileView, theme: Seq<char>) -> bool {
    let syntax = crate::render::spec_syntax_for(raw.label, None);
    &&& f.label@ == raw.label
    &&& f.added == raw.added
    &&& f.removed == raw.removed
    &&& f.language@ == syntax
    &&& f.source@.len() == 0
    &&& f.hunks@.len() == raw.hunks.len()
    &&& forall|h: int|
        0 <= h < raw.hunks.len() ==> view_assembled_as(
            #[trigger] raw.hunks[h],
            f.hunks@[h],
            side_html(syntax, side_texts(raw.hunks[h].lines, true), theme).unwrap(),
            side_html(syntax, side_texts(raw.hunks[h].lines, false), theme).unwrap(),
        )
}

/// Highlights one side of a hunk: its texts as one document, padded.
fn highlight_side(hunk: &RawHunk, old_side: bool, syntax: &str, theme: &str) -> (r: Option<Vec<String>>)
    ensures
        match r {
            Some(v) => side_html(syntax@, side_texts(hunk@.lines, old_side), theme@) == Some(
                crate::session::strings_view(v@),
            ),
            None => side_html(syntax@, side_texts(hunk@.lines, old_side), theme@) is None,
        },
{
    let texts = side_lines(hunk, old_side);
    let ghost all = crate::session::strings_view(texts@);
    assert(all.subrange(0, texts@.len() as int) =~= all);
    let mut text = chars_of(crate::text::join_lines_range(&texts, 0, texts.len()).as_str());
    text.push('\n');
    assert(text@ =~= crate::text::join(all, seq!['\n']) + seq!['\n']);
    let text = string_of(&text);
    let lines = match crate::render::highlight_text(syntax, text.as_str(), theme) {
        Some(v) => v,
        None => {
            return None;
        },
    };
    let ghost ls = crate::session::strings_view(lines@);
    let mut out: Vec<String> = Vec::new();
    let mut i: usize = 0;
    while i < lines.len()
        invariant
            i <= lines.len(),
            ls == crate::session::strings_view(lines@),
            out@.len() == i,
            forall|k: int| 0 <= k < i ==> #[trigger] out@[k]@ == padded(ls[k]),
        decreases lines.len() - i,
    {
        out.push(pad_blank_html(lines[i].clone()));
        i = i + 1;
    }
    assert(crate::session::strings_view(out@) =~= ls.map_values(|h: Seq<char>| padded(h)));
    Some(out)
}

/// Parses a unified diff and highlights each hunk's two sides with the named
/// theme (or the fallback), matching the results back to the lines.
pub fn parse(source: &str, theme_name: &str) -> (r: Result<Vec<DiffFile>, String>)
    ensures
        match r {
            Ok(files) => spec_parse_diff(source@) matches Ok(raws) && files@.len() == raws.len()
                && forall|i: int|
                0 <= i < raws.len() ==> #[trigger] file_highlights(raws[i], crate::render::spec_theme_for(theme_name@))
                    && file_as(files@[i], raws[i], crate::render::spec_theme_for(theme_name@)),
            Err(e) => match spec_parse_diff(source@) {
                Err(m) => e@ == m,
                Ok(raws) => e@ == "highlighting a diff line failed"@ && exists|i: int|
                    0 <= i < raws.len() && !#[trigger] file_highlights(raws[i], crate::render::spec_theme_for(theme_name@)),
            },
        },
{
    let raws = match parse_structure(source) {
        Ok(v) => v,
        Err(e) => {
            return Err(e);
        },
    };
    let ghost rv = raw_files_view(raws@);
    let theme = crate::render::theme_for(theme_name);
    let mut files: Vec<DiffFile> = Vec::new();
    let mut i: usize = 0;
    while i < raws.len()
        invariant
            i <= raws.len(),
            rv == raw_files_view(raws@),
            spec_parse_diff(source@) == Ok::<Seq<RawFileView>, Seq<char>>(rv),
            theme@ == crate::render::spec_theme_for(theme_name@),
            files@.len() == i,
            forall|k: int| 0 <= k < i ==> #[trigger] file_highlights(rv[k], theme@) && file_as(files@[k], rv[k], theme@),
        decreases raws.len() - i,
    {
        let raw = &raws[i];
        assert(rv[i as int] == raw@);
        let syntax = crate::render::syntax_for(raw.label.as_str(), None);
        let mut olds: Vec<Vec<String>> = Vec::new();
        let mut news: Vec<Vec<String>> = Vec::new();
        let mut h: usize = 0;
        while h < raw.hunks.len()
            invariant
                i < raws.len(),
                rv == raw_files_view(raws@),
                spec_parse_diff(source@) == Ok::<Seq<RawFileView>, Seq<char>>(rv),
                theme@ == crate::render::spec_theme_for(theme_name@),
                *raw == raws@[i as int],
                syntax@ == crate::render::spec_syntax_for(raw.label@, None),
                h <= raw.hunks.len(),
                olds@.len() == h,
                news@.len() == h,
                forall|k: int|
                    0 <= k < h ==> side_html(syntax@, side_texts(#[trigger] raw.hunks@[k]@.lines, true), theme@)
                        == Some(crate::session::strings_view(olds@[k]@)) && side_html(
                        syntax@,
                        side_texts(raw.hunks@[k]@.lines, false),
                        theme@,
                    ) == Some(crate::session::strings_view(news@[k]@)),
            decreases raw.hunks.len() - h,
        {
            let o = match highlight_side(&raw.hunks[h], true, syntax.as_str(), theme.as_str()) {
                Some(v) => v,
                None => {
                    proof {
                        assert(rv[i as int] == raw@);
                        assert(raw@.hunks[h as int] == raw.hunks@[h as int]@);
                        assert(!file_highlights(rv[i as int], theme@));
                    }
                    return Err("highlighting a diff line failed".to_owned());
                },
            };
            let n = match highlight_side(&raw.hunks[h], false, syntax.as_str(), theme.as_str()) {
                Some(v) => v,
                None => {
                    proof {
                        assert(rv[i as int] == raw@);
                        assert(raw@.hunks[h as int] == raw.hunks@[h as int]@);
                        assert(!file_highlights(rv[i as int], theme@));
                    }
                    return Err("highlighting a diff line failed".to_owned());
                },
            };
            olds.push(o);
            news.push(n);
            h = h + 1;
        }
        let f = assemble_file(raw, &olds, &news, syntax);
        proof {
            assert forall|k: int| 0 <= k < raw@.hunks.len() implies #[trigger] view_assembled_as(
                raw@.hunks[k],
                f.hunks@[k],
                side_html(crate::render::spec_syntax_for(raw@.label, None), side_texts(raw@.hunks[k].lines, true), theme@).unwrap(),
                side_html(crate::render::spec_syntax_for(raw@.label, None), side_texts(raw@.hunks[k].lines, false), theme@).unwrap(),
            ) by {
                assert(raw@.hunks[k] == raw.hunks@[k]@);
                assert(raw.hunks@[k].assembled_as(f.hunks@[k], side_of_hunk(olds@, k), side_of_hunk(news@, k)));
                let hv = raw.hunks@[k]@;
                assert forall|j: int| 0 <= j < f.hunks@[k].lines@.len() implies hv.lines[j] == raw.hunks@[k].lines@[j]@ by {}
            }
            assert forall|k: int| 0 <= k < raw@.hunks.len() implies side_html(
                crate::render::spec_syntax_for(raw@.label, None),
                side_texts(#[trigger] raw@.hunks[k].lines, true),
                theme@,
            ) is Some && side_html(
                crate::render::spec_syntax_for(raw@.label, None),
                side_texts(raw@.hunks[k].lines, false),
                theme@,
            ) is Some by {
                assert(raw@.hunks[k] == raw.hunks@[k]@);
            }
            assert(file_highlights(raw@, theme@));
            assert(file_as(f, raw@, theme@));
            assert(rv[i as int] == raw@);
        }
        files.push(f);
        i = i + 1;
    }
    Ok(files)
}
} // verus!
