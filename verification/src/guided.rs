//! Guided reviews: Markdown that interleaves prose with `wdyt-diff` ranges of a
//! patch and `wdyt-code` ranges of current files.
//!
//! The decisions are here: which fences are directives, whether a range is
//! acceptable, which lines of the patch a range selects, and whether a code
//! path stays inside the workspace. Reading files and rendering Markdown are
//! done around the library.

use vstd::prelude::*;

use crate::session::{DiffFile, DiffLine, GuidedBlock, Hunk, LineKind, Side, strings_view};
use crate::text::{chars_of, decimal, push_decimal, push_str, string_of, trim};

verus! {

/// Maximum number of source lines one directive may select.
pub const MAX_RANGE_LINES: usize = 500;

/// Maximum number of rendered blocks in one guide.
pub const MAX_BLOCKS: usize = 100;

/// Maximum size of a file a `wdyt-code` directive may show, in bytes.
pub const MAX_SOURCE_BYTES: u64 = 4194304;

// ---------------------------------------------------------------------------
// Directives.
// ---------------------------------------------------------------------------

/// Which kind of range a directive selects.
#[derive(Debug, Clone, Copy, PartialEq, Eq, Structural)]
pub enum DirectiveKind {
    /// A range of a patch, on one side.
    Diff,
    /// A range of a current file.
    Code,
}

impl DirectiveKind {
    pub open spec fn spec_name(self) -> Seq<char> {
        match self {
            DirectiveKind::Diff => "wdyt-diff"@,
            DirectiveKind::Code => "wdyt-code"@,
        }
    }

    /// The fence info string that introduces the directive.
    pub fn name(self) -> (r: &'static str)
        ensures
            r@ == self.spec_name(),
    {
        match self {
            DirectiveKind::Diff => "wdyt-diff",
            DirectiveKind::Code => "wdyt-code",
        }
    }
}

/// A fenced directive found in the document.
#[derive(Debug, Clone)]
pub struct RawDirective {
    pub kind: DirectiveKind,
    /// The fence's contents: the directive's JSON.
    pub body: String,
    pub start_line: usize,
    pub end_line: usize,
}

/// A top-level code block of a Markdown document.
#[derive(Debug, Clone)]
pub struct CodeFence {
    /// The info string after the opening fence.
    pub info: String,
    /// The block's contents.
    pub literal: String,
    pub fenced: bool,
    /// Whether a closing fence ended it.
    pub closed: bool,
    pub start_line: usize,
    pub end_line: usize,
}

/// A code block's fields, as values.
pub open spec fn fence_view(f: CodeFence) -> (Seq<char>, Seq<char>, bool, bool, usize, usize) {
    (f.info@, f.literal@, f.fenced, f.closed, f.start_line, f.end_line)
}

pub open spec fn fences_view(v: Seq<Option<CodeFence>>) -> Seq<
    Option<(Seq<char>, Seq<char>, bool, bool, usize, usize)>,
> {
    v.map_values(
        |o: Option<CodeFence>|
            match o {
                Some(f) => Some(fence_view(f)),
                None => None,
            },
    )
}

/// The top-level blocks of a Markdown document as comrak parses it with its
/// default options: for each code block its info string, contents, whether it
/// is fenced and closed, and its first and last lines; nothing for any other
/// block.
pub uninterp spec fn markdown_blocks(source: Seq<char>) -> Seq<
    Option<(Seq<char>, Seq<char>, bool, bool, usize, usize)>,
>;

/// The top-level blocks of `source`, parsed by comrak with default options.
///
/// Trusted: comrak's parse is a function of the text and options; its result
/// is named, one entry per top-level node, in document order.
#[verifier::external_body]
fn top_level_blocks(source: &str) -> (r: Vec<Option<CodeFence>>)
    ensures
        fences_view(r@) == markdown_blocks(source@),
{
    let arena = comrak::Arena::new();
    let root = comrak::parse_document(&arena, source, &comrak::Options::default());
    root.children().map(|node| {
        let data = node.data();
        match &data.value {
            comrak::nodes::NodeValue::CodeBlock(c) => Some(CodeFence {
                info: c.info.clone(), literal: c.literal.clone(), fenced: c.fenced, closed: c.closed,
                start_line: data.sourcepos.start.line, end_line: data.sourcepos.end.line,
            }),
            _ => None,
        }
    }).collect()
}

/// The directive kind a fenced block's info string names, if any.
pub open spec fn directive_kind(info: Seq<char>) -> Option<DirectiveKind> {
    if trim(info) == "wdyt-diff"@ {
        Some(DirectiveKind::Diff)
    } else if trim(info) == "wdyt-code"@ {
        Some(DirectiveKind::Code)
    } else {
        None
    }
}

/// A directive's fields, as values.
pub open spec fn directive_view(d: RawDirective) -> (DirectiveKind, Seq<char>, usize, usize) {
    (d.kind, d.body@, d.start_line, d.end_line)
}

pub open spec fn directives_view(v: Seq<RawDirective>) -> Seq<(DirectiveKind, Seq<char>, usize, usize)> {
    v.map_values(|d: RawDirective| directive_view(d))
}

/// The error for a directive fence that is never closed.
pub open spec fn unclosed_message(kind: DirectiveKind, line: usize) -> Seq<char> {
    "unclosed "@ + kind.spec_name() + " directive at line "@ + decimal(line as nat)
}

/// The directives among top-level blocks, in order; the first unclosed one is
/// an error.
pub open spec fn directives_in(
    blocks: Seq<Option<(Seq<char>, Seq<char>, bool, bool, usize, usize)>>,
) -> Result<Seq<(DirectiveKind, Seq<char>, usize, usize)>, Seq<char>>
    decreases blocks.len(),
{
    if blocks.len() == 0 {
        Ok(Seq::empty())
    } else {
        match directives_in(blocks.drop_last()) {
            Err(e) => Err(e),
            Ok(ds) => match blocks.last() {
                Some((info, literal, fenced, closed, start, end)) => if !fenced {
                    Ok(ds)
                } else {
                    match directive_kind(info) {
                        None => Ok(ds),
                        Some(kind) => if !closed {
                            Err(unclosed_message(kind, start))
                        } else {
                            Ok(ds.push((kind, literal, start, end)))
                        },
                    }
                },
                None => Ok(ds),
            },
        }
    }
}

proof fn lemma_directives_error_sticks(
    bs: Seq<Option<(Seq<char>, Seq<char>, bool, bool, usize, usize)>>,
    j: int,
)
    requires
        0 <= j <= bs.len(),
        directives_in(bs.take(j)) is Err,
    ensures
        directives_in(bs) == directives_in(bs.take(j)),
    decreases bs.len() - j,
{
    if j < bs.len() {
        assert(bs.take(j + 1).drop_last() =~= bs.take(j));
        lemma_directives_error_sticks(bs, j + 1);
    } else {
        assert(bs.take(j) =~= bs);
    }
}

/// The `wdyt-diff` and `wdyt-code` fences at the top level of a guide, in
/// order. A fence nested in a quote or list stays Markdown; an unclosed
/// directive is an error.
pub fn find_directives(source: &str) -> (r: Result<Vec<RawDirective>, String>)
    ensures
        match r {
            Ok(v) => directives_in(markdown_blocks(source@)) == Ok::<
                Seq<(DirectiveKind, Seq<char>, usize, usize)>,
                Seq<char>,
            >(directives_view(v@)),
            Err(e) => directives_in(markdown_blocks(source@)) == Err::<
                Seq<(DirectiveKind, Seq<char>, usize, usize)>,
                Seq<char>,
            >(e@),
        },
{
    let blocks = top_level_blocks(source);
    let ghost bs = fences_view(blocks@);
    let mut out: Vec<RawDirective> = Vec::new();
    let mut i: usize = 0;
    assert(directives_view(out@) =~= Seq::<(DirectiveKind, Seq<char>, usize, usize)>::empty());
    while i < blocks.len()
        invariant
            i <= blocks.len(),
            bs == fences_view(blocks@),
            bs == markdown_blocks(source@),
            directives_in(bs.take(i as int)) == Ok::<
                Seq<(DirectiveKind, Seq<char>, usize, usize)>,
                Seq<char>,
            >(directives_view(out@)),
        decreases blocks.len() - i,
    {
        assert(bs.take(i + 1).drop_last() =~= bs.take(i as int));
        assert(bs.take(i + 1).last() == bs[i as int]);
        assert(bs[i as int] == (match blocks@[i as int] {
            Some(f) => Some(fence_view(f)),
            None => None,
        }));
        match &blocks[i] {
            Some(f) => {
                if f.fenced {
                    let info = crate::text::trim_chars(&chars_of(f.info.as_str()));
                    let kind = if crate::text::eq_lit(&info, "wdyt-diff") {
                        Some(DirectiveKind::Diff)
                    } else if crate::text::eq_lit(&info, "wdyt-code") {
                        Some(DirectiveKind::Code)
                    } else {
                        None
                    };
                    match kind {
                        Some(k) => {
                            if !f.closed {
                                let mut msg = chars_of("unclosed ");
                                push_str(&mut msg, k.name());
                                push_str(&mut msg, " directive at line ");
                                push_decimal(&mut msg, f.start_line as u64);
                                proof {
                                    lemma_directives_error_sticks(bs, i + 1);
                                }
                                return Err(string_of(&msg));
                            }
                            let d = RawDirective {
                                kind: k,
                                body: f.literal.clone(),
                                start_line: f.start_line,
                                end_line: f.end_line,
                            };
                            let ghost prev = out@;
                            out.push(d);
                            assert(directives_view(out@) =~= directives_view(prev).push(
                                directive_view(d),
                            ));
                            assert(directive_view(d) == (k, f.literal@, f.start_line, f.end_line));
                        },
                        None => {},
                    }
                }
            },
            None => {},
        }
        i = i + 1;
    }
    assert(bs.take(i as int) =~= bs);
    Ok(out)
}

/// What a `wdyt-diff` directive asks for.
#[derive(Debug, Clone)]
pub struct DiffDirective {
    pub file: String,
    pub side: Side,
    pub start: usize,
    pub end: usize,
}

/// What a `wdyt-code` directive asks for.
#[derive(Debug, Clone)]
pub struct CodeDirective {
    pub file: String,
    pub start: usize,
    pub end: usize,
}

// ---------------------------------------------------------------------------
// Ranges and blocks.
// ---------------------------------------------------------------------------

/// Why a directive's range is refused, if it is.
pub open spec fn range_problem(start: usize, end: usize, line: usize) -> Option<Seq<char>> {
    if start == 0 || end == 0 {
        Some("directive at line "@ + decimal(line as nat) + " has a zero line number"@)
    } else if start > end {
        Some(
            "directive at line "@ + decimal(line as nat) + " has a reversed range "@ + decimal(
                start as nat,
            ) + ".."@ + decimal(end as nat),
        )
    } else if end - start + 1 > MAX_RANGE_LINES {
        Some(
            "directive at line "@ + decimal(line as nat) + " selects "@ + decimal(
                (end - start + 1) as nat,
            ) + " lines; the limit is 500"@,
        )
    } else {
        None
    }
}

/// Checks a directive's range: 1-based, in order, and at most
/// `MAX_RANGE_LINES` lines.
pub fn validate_range(start: usize, end: usize, line: usize) -> (r: Result<(), String>)
    ensures
        match range_problem(start, end, line) {
            None => r is Ok,
            Some(m) => r matches Err(e) && e@ == m,
        },
{
    let mut msg = chars_of("directive at line ");
    push_decimal(&mut msg, line as u64);
    if start == 0 || end == 0 {
        push_str(&mut msg, " has a zero line number");
        return Err(string_of(&msg));
    }
    if start > end {
        push_str(&mut msg, " has a reversed range ");
        push_decimal(&mut msg, start as u64);
        push_str(&mut msg, "..");
        push_decimal(&mut msg, end as u64);
        return Err(string_of(&msg));
    }
    let length = end - start + 1;
    if length > MAX_RANGE_LINES {
        push_str(&mut msg, " selects ");
        push_decimal(&mut msg, length as u64);
        push_str(&mut msg, " lines; the limit is 500");
        return Err(string_of(&msg));
    }
    Ok(())
}

/// Appends a block, refusing a guide of more than `MAX_BLOCKS` blocks.
pub fn push_block(blocks: &mut Vec<GuidedBlock>, block: GuidedBlock) -> (r: Result<(), String>)
    ensures
        old(blocks)@.len() < MAX_BLOCKS ==> r is Ok && final(blocks)@ == old(blocks)@.push(block),
        old(blocks)@.len() >= MAX_BLOCKS ==> (r matches Err(e) && e@
            == "guided review exceeds the limit of 100 blocks"@ && final(blocks)@ == old(blocks)@),
{
    if blocks.len() >= MAX_BLOCKS {
        return Err("guided review exceeds the limit of 100 blocks".to_owned());
    }
    blocks.push(block);
    Ok(())
}

// ---------------------------------------------------------------------------
// Where directives sit in the document.
// ---------------------------------------------------------------------------

/// The byte offsets at which the lines of `cs` start: 0, then the offset just
/// past every newline.
pub open spec fn line_offsets(cs: Seq<char>) -> Seq<usize>
    decreases cs.len(),
{
    if cs.len() == 0 {
        seq![0usize]
    } else {
        let rest = line_offsets(cs.drop_last());
        if cs.last() == '\n' {
            rest.push(vstd::utf8::encode_utf8(cs).len() as usize)
        } else {
            rest
        }
    }
}

/// The byte offsets at which the lines of `source` start.
pub fn line_starts(source: &str) -> (r: Vec<usize>)
    requires
        vstd::utf8::encode_utf8(source@).len() <= usize::MAX,
    ensures
        r@ == line_offsets(source@),
{
    let cs = chars_of(source);
    let mut starts: Vec<usize> = Vec::new();
    starts.push(0);
    let mut offset: usize = 0;
    let mut i: usize = 0;
    assert(cs@.take(0) =~= Seq::<char>::empty());
    assert(starts@ =~= line_offsets(cs@.take(0)));
    while i < cs.len()
        invariant
            i <= cs.len(),
            cs@ == source@,
            vstd::utf8::encode_utf8(cs@).len() <= usize::MAX,
            offset == vstd::utf8::encode_utf8(cs@.take(i as int)).len(),
            starts@ == line_offsets(cs@.take(i as int)),
        decreases cs.len() - i,
    {
        let c = cs[i];
        let v = c as u32;
        let w: usize = if v <= 0x7F {
            1
        } else if v <= 0x7FF {
            2
        } else if v <= 0xFFFF {
            3
        } else {
            4
        };
        proof {
            assert(cs@.take(i + 1) =~= cs@.take(i as int).push(c));
            crate::text::lemma_encode_push_len(cs@.take(i as int), c);
            crate::text::lemma_encode_prefix_len(cs@, i + 1);
            assert(cs@.take(i + 1).drop_last() =~= cs@.take(i as int));
        }
        offset = offset + w;
        if c == '\n' {
            starts.push(offset);
        }
        i = i + 1;
    }
    assert(cs@.take(i as int) =~= cs@);
    starts
}

/// Where line `line` (1-based) starts: its offset, or the end of the source
/// past the last line.
pub fn line_start(starts: &Vec<usize>, source_len: usize, line: usize) -> (r: usize)
    ensures
        r == (if (if line > 0 { line - 1 } else { 0 }) < starts@.len() {
            starts@[if line > 0 { line - 1 } else { 0 }]
        } else {
            source_len
        }),
{
    let k = if line > 0 {
        line - 1
    } else {
        0
    };
    if k < starts.len() {
        starts[k]
    } else {
        source_len
    }
}

// ---------------------------------------------------------------------------
// The shape of a guide.
// ---------------------------------------------------------------------------

/// One piece of a guide, in document order: a run of prose between
/// directives, or a directive.
#[derive(Debug, Clone, Copy, PartialEq, Eq, Structural)]
pub enum GuidePiece {
    /// The source bytes `start..end`, whose first line is `first_line`.
    Text { start: usize, end: usize, first_line: usize },
    /// The directive at `index` in the list found in the document.
    Directive { index: usize },
}

/// The prose piece over `start..end`, beginning on line `first_line`.
pub open spec fn text_piece(start: usize, end: usize, first_line: usize) -> GuidePiece {
    GuidePiece::Text { start, end, first_line }
}

/// The offset line `line` starts at: what `line_start` returns.
pub open spec fn offset_of_line(starts: Seq<usize>, len: usize, line: usize) -> usize {
    let k = if line > 0 { line - 1 } else { 0 };
    if k < starts.len() {
        starts[k]
    } else {
        len
    }
}

/// The line the prose before directive `k` starts on: the first line, or the
/// one after the previous directive's closing fence.
pub open spec fn prose_line(ds: Seq<(usize, usize)>, k: int) -> usize {
    if k == 0 {
        1
    } else if ds[k - 1].1 == usize::MAX {
        usize::MAX
    } else {
        (ds[k - 1].1 + 1) as usize
    }
}

/// Where the prose before directive `k` starts.
pub open spec fn prose_start(starts: Seq<usize>, len: usize, ds: Seq<(usize, usize)>, k: int) -> usize {
    if k == 0 {
        0
    } else {
        offset_of_line(starts, len, prose_line(ds, k))
    }
}

/// The first and last lines of each directive.
pub open spec fn directive_lines(v: Seq<RawDirective>) -> Seq<(usize, usize)> {
    v.map_values(|d: RawDirective| (d.start_line, d.end_line))
}

/// How a guide is cut into pieces: before each directive the prose since the
/// previous one, then the directive; then the prose after the last.
pub open spec fn cut_as(r: Seq<GuidePiece>, starts: Seq<usize>, len: usize, ds: Seq<(usize, usize)>) -> bool {
    let n = ds.len() as int;
    &&& r.len() == 2 * n + 1
    &&& forall|k: int|
        0 <= k < n ==> r[#[trigger] (2 * k)] == text_piece(prose_start(starts, len, ds, k), offset_of_line(starts, len, ds[k].0), prose_line(ds, k)) && r[2 * k + 1] == (GuidePiece::Directive { index: k as usize })
    &&& r[2 * n] == text_piece(prose_start(starts, len, ds, n), len, prose_line(ds, n))
}

/// Cuts a guide into its prose and its directives, in document order, as
/// byte ranges of `source`.
pub fn guide_pieces(source: &str, directives: &Vec<RawDirective>) -> (r: Vec<GuidePiece>)
    requires
        vstd::utf8::encode_utf8(source@).len() <= usize::MAX,
        directives@.len() < usize::MAX / 2,
    ensures
        cut_as(
            r@,
            line_offsets(source@),
            vstd::utf8::encode_utf8(source@).len() as usize,
            directive_lines(directives@),
        ),
{
    let starts = line_starts(source);
    let len = crate::text::utf8_len(&chars_of(source));
    let ghost ds = directive_lines(directives@);
    let mut out: Vec<GuidePiece> = Vec::new();
    let mut cursor: usize = 0;
    let mut cursor_line: usize = 1;
    let mut k: usize = 0;
    while k < directives.len()
        invariant
            k <= directives.len(),
            directives@.len() < usize::MAX / 2,
            ds == directive_lines(directives@),
            starts@ == line_offsets(source@),
            len == vstd::utf8::encode_utf8(source@).len(),
            cursor_line == prose_line(ds, k as int),
            cursor == prose_start(starts@, len, ds, k as int),
            out@.len() == 2 * k,
            forall|m: int|
                0 <= m < k ==> out@[#[trigger] (2 * m)] == text_piece(prose_start(starts@, len, ds, m), offset_of_line(starts@, len, ds[m].0), prose_line(ds, m)) && out@[2 * m + 1] == (GuidePiece::Directive { index: m as usize }),
        decreases directives.len() - k,
    {
        let d = &directives[k];
        let ghost before = out@;
        let here = line_start(&starts, len, d.start_line);
        out.push(GuidePiece::Text { start: cursor, end: here, first_line: cursor_line });
        out.push(GuidePiece::Directive { index: k });
        cursor_line = if d.end_line == usize::MAX {
            usize::MAX
        } else {
            d.end_line + 1
        };
        cursor = line_start(&starts, len, cursor_line);
        proof {
            assert(ds[k as int] == (d.start_line, d.end_line));
            assert forall|m: int| 0 <= m < k + 1 implies out@[#[trigger] (2 * m)] == text_piece(prose_start(starts@, len, ds, m), offset_of_line(starts@, len, ds[m].0), prose_line(ds, m)) && out@[2 * m + 1] == (GuidePiece::Directive { index: m as usize }) by {
                if m < k {
                    assert(out@[2 * m] == before[2 * m]);
                    assert(out@[2 * m + 1] == before[2 * m + 1]);
                }
            }
        }
        k = k + 1;
    }
    out.push(GuidePiece::Text { start: cursor, end: len, first_line: cursor_line });
    out
}

// ---------------------------------------------------------------------------
// Selecting lines of a patch.
// ---------------------------------------------------------------------------

/// Whether a line's number on `side` lies within `start..=end`.
pub open spec fn in_range(l: DiffLine, side: Side, start: usize, end: usize) -> bool {
    match crate::server::number_on(l, side) {
        Some(n) => start <= n <= end,
        None => false,
    }
}

/// Lines `j` and `k` lie in one run of changed lines: no context line between
/// them, both included.
pub open spec fn same_run(ls: Seq<DiffLine>, j: int, k: int) -> bool {
    if j <= k {
        forall|m: int| j <= m <= k ==> #[trigger] ls[m].kind != LineKind::Context
    } else {
        forall|m: int| k <= m <= j ==> #[trigger] ls[m].kind != LineKind::Context
    }
}

/// Whether a line belongs to the side opposite the requested one.
pub open spec fn opposite(kind: LineKind, side: Side) -> bool {
    match side {
        Side::Old => kind == LineKind::Added,
        Side::New => kind == LineKind::Removed,
    }
}

/// Whether line `j` is shown: its number on the requested side is in range,
/// or it is the other half of a replacement (a run of removed and added lines)
/// the range touches, so a review never shows half a replacement.
pub open spec fn shown(ls: Seq<DiffLine>, j: int, side: Side, start: usize, end: usize) -> bool {
    in_range(ls[j], side, start, end) || (opposite(ls[j].kind, side) && exists|k: int|
        0 <= k < ls.len() && #[trigger] same_run(ls, j, k) && in_range(ls[k], side, start, end))
}

/// The shown lines among the first `n` of `ls`, in order.
pub open spec fn shown_lines(ls: Seq<DiffLine>, n: int, side: Side, start: usize, end: usize) -> Seq<
    DiffLine,
>
    decreases n,
{
    if n <= 0 {
        Seq::empty()
    } else {
        let rest = shown_lines(ls, n - 1, side, start, end);
        if shown(ls, n - 1, side, start, end) {
            rest.push(ls[n - 1])
        } else {
            rest
        }
    }
}

/// The hunks a selection keeps, as header, lines and starts: each hunk's shown
/// lines, and hunks with none dropped.
pub open spec fn selected_hunks(hs: Seq<Hunk>, side: Side, start: usize, end: usize) -> Seq<
    (String, Seq<DiffLine>, usize, usize),
>
    decreases hs.len(),
{
    if hs.len() == 0 {
        Seq::empty()
    } else {
        let rest = selected_hunks(hs.drop_last(), side, start, end);
        let h = hs.last();
        let kept = shown_lines(h.lines@, h.lines@.len() as int, side, start, end);
        if kept.len() > 0 {
            rest.push((h.header, kept, h.old_start, h.new_start))
        } else {
            rest
        }
    }
}

/// Whether any line of the hunks has its requested-side number in range.
pub open spec fn any_in_range(hs: Seq<Hunk>, side: Side, start: usize, end: usize) -> bool {
    exists|h: int, j: int|
        0 <= h < hs.len() && 0 <= j < hs[h].lines@.len() && #[trigger] in_range(
            hs[h].lines@[j],
            side,
            start,
            end,
        )
}

/// What a `wdyt-diff` directive selects from the parsed patch.
pub open spec fn select_diff_outcome(
    files: Seq<DiffFile>,
    spec: DiffDirective,
    line: usize,
    r: Result<GuidedBlock, String>,
) -> bool {
    let at = "wdyt-diff directive at line "@ + decimal(line as nat);
    if spec.file@.len() == 0 {
        r matches Err(e) && e@ == at + " has an empty file path"@
    } else {
        match crate::server::first_index(crate::server::diff_labels(files), spec.file@) {
            None => r matches Err(e) && e@ == at + " names missing file "@ + spec.file@,
            Some(i) => {
                let f = files[i];
                if !any_in_range(f.hunks@, spec.side, spec.start, spec.end) {
                    r matches Err(e) && e@ == at + " selects no "@ + spec.side.spec_as_str()
                        + "-side lines in "@ + spec.file@
                } else {
                    let sel = selected_hunks(f.hunks@, spec.side, spec.start, spec.end);
                    r matches Ok(GuidedBlock::Diff { file, side, start, end, selected_hunks }) && {
                        &&& crate::session::same_diff_file(file, f)
                        &&& side == spec.side
                        &&& start == spec.start
                        &&& end == spec.end
                        &&& selected_hunks@.len() == sel.len()
                        &&& forall|k: int|
                            0 <= k < sel.len() ==> {
                                let h = #[trigger] selected_hunks@[k];
                                &&& h.header == sel[k].0
                                &&& h.lines@ == sel[k].1
                                &&& h.old_start == sel[k].2
                                &&& h.new_start == sel[k].3
                            }
                    }
                }
            },
        }
    }
}

fn in_range_exec(l: &DiffLine, side: Side, start: usize, end: usize) -> (r: bool)
    ensures
        r == in_range(*l, side, start, end),
{
    let number = match side {
        Side::Old => l.old,
        Side::New => l.new,
    };
    match number {
        Some(n) => start <= n && n <= end,
        None => false,
    }
}

/// Whether the run of changed lines around `j` has a line in range.
fn run_has_direct(ls: &Vec<DiffLine>, j: usize, side: Side, start: usize, end: usize) -> (r: bool)
    requires
        j < ls@.len(),
        ls@[j as int].kind != LineKind::Context,
    ensures
        r == exists|k: int|
            0 <= k < ls@.len() && #[trigger] same_run(ls@, j as int, k) && in_range(
                ls@[k],
                side,
                start,
                end,
            ),
{
    let mut lo = j;
    while lo > 0 && ls[lo - 1].kind != LineKind::Context
        invariant
            lo <= j < ls@.len(),
            forall|m: int| lo <= m <= j ==> #[trigger] ls@[m].kind != LineKind::Context,
        decreases lo,
    {
        lo = lo - 1;
    }
    let mut hi = j;
    let n = ls.len();
    while hi < n - 1 && ls[hi + 1].kind != LineKind::Context
        invariant
            j <= hi < ls@.len(),
            n == ls@.len(),
            forall|m: int| j <= m <= hi ==> #[trigger] ls@[m].kind != LineKind::Context,
        decreases ls@.len() - hi,
    {
        hi = hi + 1;
    }
    let mut k = lo;
    while k <= hi
        invariant
            lo <= k <= hi + 1,
            lo <= j <= hi < ls@.len(),
            n == ls@.len(),
            forall|m: int| lo <= m <= hi ==> #[trigger] ls@[m].kind != LineKind::Context,
            forall|m: int| lo <= m < k ==> !in_range(#[trigger] ls@[m], side, start, end),
        decreases hi + 1 - k,
    {
        if in_range_exec(&ls[k], side, start, end) {
            assert(same_run(ls@, j as int, k as int));
            return true;
        }
        k = k + 1;
    }
    assert forall|k2: int|
        0 <= k2 < ls@.len() && #[trigger] same_run(ls@, j as int, k2) implies !in_range(
        ls@[k2],
        side,
        start,
        end,
    ) by {
        if k2 < lo {
            assert(ls@[lo - 1].kind == LineKind::Context);
            assert(ls@[lo - 1].kind != LineKind::Context);
        } else if k2 > hi {
            assert(ls@[hi + 1].kind == LineKind::Context);
            assert(ls@[hi + 1].kind != LineKind::Context);
        }
    }
    false
}

/// The lines a selection shows from one hunk, and whether any line of it has
/// its requested-side number in range.
fn select_lines(ls: &Vec<DiffLine>, side: Side, start: usize, end: usize) -> (r: (Vec<DiffLine>, bool))
    ensures
        r.0@ == shown_lines(ls@, ls@.len() as int, side, start, end),
        r.1 == exists|j: int| 0 <= j < ls@.len() && #[trigger] in_range(ls@[j], side, start, end),
{
    let mut kept: Vec<DiffLine> = Vec::new();
    let mut any = false;
    let mut j: usize = 0;
    while j < ls.len()
        invariant
            j <= ls.len(),
            kept@ == shown_lines(ls@, j as int, side, start, end),
            any == exists|m: int| 0 <= m < j && #[trigger] in_range(ls@[m], side, start, end),
        decreases ls.len() - j,
    {
        let direct = in_range_exec(&ls[j], side, start, end);
        let opp = match side {
            Side::Old => ls[j].kind == LineKind::Added,
            Side::New => ls[j].kind == LineKind::Removed,
        };
        let show = direct || (opp && run_has_direct(ls, j, side, start, end));
        if show {
            kept.push(ls[j].duplicate());
        }
        if direct {
            any = true;
        }
        j = j + 1;
    }
    (kept, any)
}

/// Selects the lines of a `wdyt-diff` directive from the parsed patch: the
/// requested side's lines in range, plus the other half of any replacement
/// they touch. The file must exist and the range select at least one line.
pub fn select_diff(files: &Vec<DiffFile>, spec: DiffDirective, directive_line: usize) -> (r: Result<
    GuidedBlock,
    String,
>)
    ensures
        select_diff_outcome(files@, spec, directive_line, r),
{
    let ghost g = spec;
    let mut at = chars_of("wdyt-diff directive at line ");
    push_decimal(&mut at, directive_line as u64);
    if chars_of(spec.file.as_str()).len() == 0 {
        push_str(&mut at, " has an empty file path");
        return Err(string_of(&at));
    }
    let mut labels: Vec<String> = Vec::new();
    let mut i: usize = 0;
    while i < files.len()
        invariant
            i <= files.len(),
            labels@.len() == i,
            forall|k: int| 0 <= k < i ==> #[trigger] labels@[k]@ == files@[k].label@,
        decreases files.len() - i,
    {
        labels.push(files[i].label.clone());
        i = i + 1;
    }
    assert(strings_view(labels@) =~= crate::server::diff_labels(files@));
    let found = crate::server::label_lookup_first(&labels, &spec.file);
    let fi = match found {
        Some(fi) => fi,
        None => {
            push_str(&mut at, " names missing file ");
            push_str(&mut at, spec.file.as_str());
            return Err(string_of(&at));
        },
    };
    let f = &files[fi];
    let mut selected: Vec<Hunk> = Vec::new();
    let ghost mut sel_spec: Seq<(String, Seq<DiffLine>, usize, usize)> = Seq::empty();
    let mut any = false;
    let mut h: usize = 0;
    while h < f.hunks.len()
        invariant
            h <= f.hunks.len(),
            sel_spec == selected_hunks(f.hunks@.take(h as int), spec.side, spec.start, spec.end),
            any == any_in_range(f.hunks@.take(h as int), spec.side, spec.start, spec.end),
            selected@.len() == sel_spec.len(),
            forall|k: int|
                0 <= k < sel_spec.len() ==> {
                    let x = #[trigger] selected@[k];
                    &&& x.header == sel_spec[k].0
                    &&& x.lines@ == sel_spec[k].1
                    &&& x.old_start == sel_spec[k].2
                    &&& x.new_start == sel_spec[k].3
                },
        decreases f.hunks.len() - h,
    {
        let hunk = &f.hunks[h];
        let (kept, direct) = select_lines(&hunk.lines, spec.side, spec.start, spec.end);
        let ghost hs = f.hunks@.take(h + 1);
        assert(hs.drop_last() =~= f.hunks@.take(h as int));
        assert(hs.last() == *hunk);
        proof {
            let before = f.hunks@.take(h as int);
            if direct {
                let j = choose|j: int| 0 <= j < hunk.lines@.len() && #[trigger] in_range(
                    hunk.lines@[j],
                    spec.side,
                    spec.start,
                    spec.end,
                );
                assert(hs[h as int].lines@[j] == hunk.lines@[j]);
                assert(any_in_range(hs, spec.side, spec.start, spec.end));
            }
            if any {
                let (a, b) = choose|a: int, b: int|
                    0 <= a < before.len() && 0 <= b < before[a].lines@.len() && #[trigger] in_range(
                        before[a].lines@[b],
                        spec.side,
                        spec.start,
                        spec.end,
                    );
                assert(hs[a] == before[a]);
                assert(any_in_range(hs, spec.side, spec.start, spec.end));
            }
            if !any && !direct {
                assert forall|a: int, b: int|
                    0 <= a < hs.len() && 0 <= b < hs[a].lines@.len() implies !#[trigger] in_range(
                    hs[a].lines@[b],
                    spec.side,
                    spec.start,
                    spec.end,
                ) by {
                    if a < h {
                        assert(hs[a] == before[a]);
                    }
                }
            }
        }
        if kept.len() > 0 {
            let x = Hunk {
                header: hunk.header.clone(),
                lines: kept,
                old_start: hunk.old_start,
                new_start: hunk.new_start,
            };
            selected.push(x);
            proof {
                sel_spec = sel_spec.push((hunk.header, kept@, hunk.old_start, hunk.new_start));
            }
        }
        any = any || direct;
        h = h + 1;
    }
    assert(f.hunks@.take(h as int) =~= f.hunks@);
    if !any {
        push_str(&mut at, " selects no ");
        push_str(&mut at, spec.side.as_str());
        push_str(&mut at, "-side lines in ");
        push_str(&mut at, spec.file.as_str());
        return Err(string_of(&at));
    }
    let file = f.duplicate();
    let DiffDirective { side, start, end, .. } = spec;
    Ok(GuidedBlock::Diff { file, side, start, end, selected_hunks: selected })
}

// ---------------------------------------------------------------------------
// Code excerpts.
// ---------------------------------------------------------------------------

/// Whether a path is absolute, as `Path::is_absolute` reads it on Unix: it
/// starts at the root.
pub open spec fn is_absolute_path(p: Seq<char>) -> bool {
    p.len() > 0 && p[0] == '/'
}

/// How many characters of `q` come before its first `/`.
pub open spec fn segment_len(q: Seq<char>) -> nat
    decreases q.len(),
{
    if q.len() == 0 || q[0] == '/' {
        0
    } else {
        1 + segment_len(q.drop_first())
    }
}

/// A segment is no longer than what it is taken from.
pub proof fn segment_len_bound(q: Seq<char>)
    ensures
        segment_len(q) <= q.len(),
    decreases q.len(),
{
    if q.len() > 0 && q[0] != '/' {
        segment_len_bound(q.drop_first());
    }
}

/// The kind of one segment between separators: none for an empty one or
/// `.`, 2 for `..`, 0 for a name.
pub open spec fn segment_kind(seg: Seq<char>) -> Seq<u8> {
    if seg.len() == 0 || seg == seq!['.'] {
        Seq::empty()
    } else if seg == seq!['.', '.'] {
        seq![2u8]
    } else {
        seq![0u8]
    }
}

/// The kinds of the segments of `q`, split at each `/`.
pub open spec fn segment_kinds(q: Seq<char>) -> Seq<u8>
    decreases q.len(),
{
    if q.len() == 0 {
        Seq::empty()
    } else {
        let n = segment_len(q);
        proof {
            segment_len_bound(q);
        }
        segment_kind(q.take(n as int)) + (if n < q.len() {
            segment_kinds(q.skip(n + 1 as int))
        } else {
            Seq::empty()
        })
    }
}

/// The kinds of a path's components, as `Path::components` yields them on
/// Unix: 0 for a normal name, 1 for `.`, 2 for `..`, 3 for the root (4, a
/// prefix, is Windows' own). A leading root or `.` comes first; after it,
/// empty and `.` segments are skipped.
pub open spec fn path_components(p: Seq<char>) -> Seq<u8> {
    if p.len() > 0 && p[0] == '/' {
        seq![3u8] + segment_kinds(p.drop_first())
    } else if p.len() > 0 && p[0] == '.' && (p.len() == 1 || p[1] == '/') {
        seq![1u8] + segment_kinds(p.drop_first())
    } else {
        segment_kinds(p)
    }
}

/// `Path::new(p).is_absolute()`.
///
/// Trusted: on Unix std calls a path absolute when it has a root, as
/// `is_absolute_path` states.
#[verifier::external_body]
fn path_is_absolute(p: &str) -> (r: bool)
    ensures
        r == is_absolute_path(p@),
{
    std::path::Path::new(p).is_absolute()
}

/// The kinds of `Path::new(p).components()`, in order.
///
/// Trusted: std parses Unix components as `path_components` states; each
/// component is mapped to its kind, one for one.
#[verifier::external_body]
fn path_component_kinds(p: &str) -> (r: Vec<u8>)
    ensures
        r@ == path_components(p@),
{
    let mut out = Vec::new();
    for component in std::path::Path::new(p).components() {
        out.push(match component {
            std::path::Component::Normal(_) => 0,
            std::path::Component::CurDir => 1,
            std::path::Component::ParentDir => 2,
            std::path::Component::RootDir => 3,
            std::path::Component::Prefix(_) => 4,
        });
    }
    out
}

/// Why a `wdyt-code` path is refused, if it is: it must be non-empty,
/// relative, free of `..`, root and prefix components, and name something.
pub open spec fn path_problem(file: Seq<char>, line: usize) -> Option<Seq<char>> {
    let empty = "wdyt-code directive at line "@ + decimal(line as nat) + " has an empty file path"@;
    let cs = path_components(file);
    if file.len() == 0 {
        Some(empty)
    } else if is_absolute_path(file) {
        Some("wdyt-code path must be workspace-relative: "@ + file)
    } else if exists|k: int| 0 <= k < cs.len() && #[trigger] cs[k] >= 2 {
        Some("wdyt-code path may not leave the workspace: "@ + file)
    } else if !exists|k: int| 0 <= k < cs.len() && #[trigger] cs[k] == 0 {
        Some(empty)
    } else {
        None
    }
}

/// Checks that a `wdyt-code` path stays beneath the workspace.
pub fn validated_relative_path(file: &str, directive_line: usize) -> (r: Result<String, String>)
    ensures
        match path_problem(file@, directive_line) {
            None => r matches Ok(p) && p@ == file@,
            Some(m) => r matches Err(e) && e@ == m,
        },
{
    let mut empty = chars_of("wdyt-code directive at line ");
    push_decimal(&mut empty, directive_line as u64);
    push_str(&mut empty, " has an empty file path");
    if chars_of(file).len() == 0 {
        return Err(string_of(&empty));
    }
    if path_is_absolute(file) {
        let mut msg = chars_of("wdyt-code path must be workspace-relative: ");
        push_str(&mut msg, file);
        return Err(string_of(&msg));
    }
    let kinds = path_component_kinds(file);
    let mut has_normal = false;
    let mut i: usize = 0;
    while i < kinds.len()
        invariant
            i <= kinds.len(),
            kinds@ == path_components(file@),
            file@.len() > 0,
            !is_absolute_path(file@),
            forall|k: int| 0 <= k < i ==> #[trigger] kinds@[k] < 2,
            has_normal == exists|k: int| 0 <= k < i && #[trigger] kinds@[k] == 0,
        decreases kinds.len() - i,
    {
        if kinds[i] >= 2 {
            let mut msg = chars_of("wdyt-code path may not leave the workspace: ");
            push_str(&mut msg, file);
            return Err(string_of(&msg));
        }
        if kinds[i] == 0 {
            has_normal = true;
        }
        i = i + 1;
    }
    if !has_normal {
        return Err(string_of(&empty));
    }
    Ok(file.to_owned())
}

/// The lines a `wdyt-code` directive shows from a highlighted file: the range
/// must lie within the file.
pub fn select_code_lines(
    spec: &CodeDirective,
    language: String,
    highlighted: &Vec<String>,
    sources: &Vec<String>,
    directive_line: usize,
) -> (r: Result<GuidedBlock, String>)
    requires
        1 <= spec.start <= spec.end,
        highlighted@.len() == sources@.len(),
    ensures
        spec.end > sources@.len() ==> (r matches Err(e) && e@ == "wdyt-code directive at line "@
            + decimal(directive_line as nat) + " selects "@ + decimal(spec.start as nat) + ".."@
            + decimal(spec.end as nat) + ", but "@ + spec.file@ + " has "@ + decimal(
            sources@.len(),
        ) + " lines"@),
        spec.end <= sources@.len() ==> (r matches Ok(GuidedBlock::Code {
            file,
            language: lang,
            start,
            end,
            highlighted: h,
            sources: s,
        }) && file@ == spec.file@ && lang == language && start == spec.start && end == spec.end
            && h@ == highlighted@.subrange(spec.start - 1, spec.end as int) && s@
            == sources@.subrange(spec.start - 1, spec.end as int)),
{
    if spec.end > sources.len() {
        let mut msg = chars_of("wdyt-code directive at line ");
        push_decimal(&mut msg, directive_line as u64);
        push_str(&mut msg, " selects ");
        push_decimal(&mut msg, spec.start as u64);
        push_str(&mut msg, "..");
        push_decimal(&mut msg, spec.end as u64);
        push_str(&mut msg, ", but ");
        push_str(&mut msg, spec.file.as_str());
        push_str(&mut msg, " has ");
        push_decimal(&mut msg, sources.len() as u64);
        push_str(&mut msg, " lines");
        return Err(string_of(&msg));
    }
    let mut h: Vec<String> = Vec::new();
    let mut s: Vec<String> = Vec::new();
    let mut i = spec.start - 1;
    while i < spec.end
        invariant
            spec.start - 1 <= i <= spec.end <= sources@.len(),
            highlighted@.len() == sources@.len(),
            h@.len() == i - (spec.start - 1),
            s@.len() == i - (spec.start - 1),
            forall|k: int| 0 <= k < h@.len() ==> #[trigger] h@[k] == highlighted@[k + spec.start - 1],
            forall|k: int| 0 <= k < s@.len() ==> #[trigger] s@[k] == sources@[k + spec.start - 1],
        decreases spec.end - i,
    {
        h.push(highlighted[i].clone());
        s.push(sources[i].clone());
        i = i + 1;
    }
    assert(h@ =~= highlighted@.subrange(spec.start - 1, spec.end as int));
    assert(s@ =~= sources@.subrange(spec.start - 1, spec.end as int));
    Ok(GuidedBlock::Code {
        file: spec.file.clone(),
        language,
        start: spec.start,
        end: spec.end,
        highlighted: h,
        sources: s,
    })
}


// ---------------------------------------------------------------------------
// Assembling a guide.
// ---------------------------------------------------------------------------

/// One piece of a guide as the caller has it in hand: a run of prose (its
/// text, and the line it starts on), or what a directive became.
#[derive(Debug)]
pub enum GuidePart {
    Prose { text: String, first_line: usize },
    Made { block: Result<GuidedBlock, String> },
}

/// Whether a part adds a block: prose that is not blank, or a directive that
/// was made.
pub open spec fn produces(p: GuidePart) -> bool {
    match p {
        GuidePart::Prose { text, .. } => trim(text@).len() > 0,
        GuidePart::Made { block } => block is Ok,
    }
}

/// How many of `parts[..i]` add a block.
pub open spec fn blocks_before(parts: Seq<GuidePart>, i: int) -> nat
    decreases i,
{
    if i <= 0 || parts.len() == 0 {
        0
    } else {
        blocks_before(parts, i - 1) + if i - 1 < parts.len() && produces(parts[i - 1]) {
            1nat
        } else {
            0nat
        }
    }
}

/// Whether part `i` stops the guide: a directive that could not be made, or
/// a block past `MAX_BLOCKS`.
pub open spec fn fails_at(parts: Seq<GuidePart>, i: int) -> bool {
    match parts[i] {
        GuidePart::Made { block: Err(_) } => true,
        _ => produces(parts[i]) && blocks_before(parts, i) >= MAX_BLOCKS,
    }
}

/// Why part `i` stops the guide.
pub open spec fn failure_message(parts: Seq<GuidePart>, i: int) -> Seq<char> {
    match parts[i] {
        GuidePart::Made { block: Err(e) } => e@,
        _ => "guided review exceeds the limit of 100 blocks"@,
    }
}

/// The block a part adds: prose rendered as Markdown with its source lines,
/// or the block a directive became.
pub open spec fn block_of(p: GuidePart, b: GuidedBlock, theme: Seq<char>) -> bool {
    match p {
        GuidePart::Prose { text, first_line } => b matches GuidedBlock::Text { html, source_start, sources }
            && html@ == crate::render::markdown_html(text@, crate::render::spec_theme_for(theme))
            && source_start == first_line && strings_view(sources@) == crate::text::lines_of(text@),
        GuidePart::Made { block } => block == Ok::<GuidedBlock, String>(b),
    }
}

/// What assembling a guide gives: its parts' blocks in order, blank prose
/// left out; the first part that fails, in document order, is the error; a
/// guide that adds no block at all is refused.
pub open spec fn assembled(parts: Seq<GuidePart>, theme: Seq<char>, r: Result<Vec<GuidedBlock>, String>) -> bool {
    let n = parts.len() as int;
    match r {
        Ok(v) => (forall|i: int| 0 <= i < n ==> !#[trigger] fails_at(parts, i)) && blocks_before(parts, n)
            > 0 && v@.len() == blocks_before(parts, n) && forall|i: int|
            0 <= i < n && #[trigger] produces(parts[i]) ==> block_of(
                parts[i],
                v@[blocks_before(parts, i) as int],
                theme,
            ),
        Err(e) => (exists|i: int|
            0 <= i < n && #[trigger] fails_at(parts, i) && (forall|j: int| 0 <= j < i ==> !#[trigger] fails_at(parts, j))
                && e@ == failure_message(parts, i)) || ((forall|i: int|
            0 <= i < n ==> !#[trigger] fails_at(parts, i)) && blocks_before(parts, n) == 0 && e@
            == "guided review contains no content"@),
    }
}

proof fn lemma_blocks_before_step(parts: Seq<GuidePart>, i: int)
    requires
        0 <= i < parts.len(),
    ensures
        blocks_before(parts, i + 1) == blocks_before(parts, i) + if produces(parts[i]) {
            1nat
        } else {
            0nat
        },
{
}

proof fn lemma_blocks_before_mono(parts: Seq<GuidePart>, i: int, j: int)
    requires
        0 <= i <= j <= parts.len(),
    ensures
        blocks_before(parts, i) <= blocks_before(parts, j),
    decreases j - i,
{
    if i < j {
        lemma_blocks_before_mono(parts, i, j - 1);
        lemma_blocks_before_step(parts, j - 1);
    }
}

/// Puts a guide together from its parts, in order: blank prose is left out,
/// prose is rendered as Markdown with the named theme, and the first part
/// that fails is the error.
pub fn assemble_guide(parts: Vec<GuidePart>, theme_name: &str) -> (r: Result<Vec<GuidedBlock>, String>)
    ensures
        assembled(parts@, theme_name@, r),
{
    let ghost ps = parts@;
    let n = parts.len();
    let mut rest = parts;
    let mut blocks: Vec<GuidedBlock> = Vec::new();
    let mut i: usize = 0;
    while i < n
        invariant
            n == ps.len(),
            ps == parts@,
            rest@ == ps.skip(i as int),
            i <= n,
            blocks@.len() == blocks_before(ps, i as int),
            blocks@.len() <= MAX_BLOCKS,
            forall|k: int| 0 <= k < i ==> !#[trigger] fails_at(ps, k),
            forall|k: int|
                0 <= k < i && #[trigger] produces(ps[k]) ==> block_of(
                    ps[k],
                    blocks@[blocks_before(ps, k) as int],
                    theme_name@,
                ),
        decreases n - i,
    {
        proof {
            lemma_blocks_before_step(ps, i as int);
        }
        assert(rest@[0] == ps[i as int]);
        let part = rest.remove(0);
        assert(rest@ =~= ps.skip(i + 1));
        let made: Option<GuidedBlock> = match part {
            GuidePart::Prose { text, first_line } => {
                let t = crate::text::trim_chars(&chars_of(text.as_str()));
                if t.len() == 0 {
                    None
                } else {
                    let doc = crate::render::markdown_commentable("guided.md", text.as_str(), theme_name);
                    Some(GuidedBlock::Text { html: doc.html, source_start: first_line, sources: doc.sources })
                }
            },
            GuidePart::Made { block } => match block {
                Ok(b) => Some(b),
                Err(e) => {
                    proof {
                        assert(fails_at(ps, i as int));
                        assert(failure_message(ps, i as int) == e@);
                    }
                    return Err(e);
                },
            },
        };
        match made {
            Some(b) => {
                if blocks.len() >= MAX_BLOCKS {
                    proof {
                        assert(produces(ps[i as int]));
                        assert(fails_at(ps, i as int));
                        assert(failure_message(ps, i as int) == "guided review exceeds the limit of 100 blocks"@);
                    }
                    return Err("guided review exceeds the limit of 100 blocks".to_owned());
                }
                assert(block_of(ps[i as int], b, theme_name@));
                blocks.push(b);
            },
            None => {},
        }
        proof {
            assert forall|k: int|
                0 <= k <= i && #[trigger] produces(ps[k]) implies block_of(
                ps[k],
                blocks@[blocks_before(ps, k) as int],
                theme_name@,
            ) by {
                if k < i {
                    lemma_blocks_before_mono(ps, k + 1, i as int);
                    lemma_blocks_before_step(ps, k);
                }
            }
        }
        i = i + 1;
    }
    if blocks.len() == 0 {
        return Err("guided review contains no content".to_owned());
    }
    Ok(blocks)
}
} // verus!
