//! wdyt: let coding agents show their work.
//!
//! An agent creates a *session* holding something to look at (highlighted
//! source, rendered markdown, a static directory, or a live server it started),
//! wdyt sends the user a link over a webhook, and the page carries a reply
//! box so the user can send one note back.
//!
//! This crate holds the logic of that exchange: the link fragments and file
//! anchors, the diff and guided-review parsers, the session store's reply and
//! comment lifecycle, and the small text builders around them.

use vstd::prelude::*;

pub mod cli;
pub mod client;
pub mod config;
pub mod diff;
pub mod fragment;
pub mod guided;
pub mod notify;
pub mod origin;
pub mod page;
pub mod ports;
pub mod raw;
pub mod render;
pub mod routes;
pub mod server;
pub mod session;
pub mod store;
pub mod ui;
pub mod text;
pub mod zellij_origin;

use crate::text::{
    ascii_lower, ascii_lower_exec, is_ascii_lower, is_ascii_upper, is_digit, lemma_decimal_digits,
    lemma_parse_decimal, chars_eq, chars_of, debug_quoted, debug_str, decimal,
    is_ascii_alnum, is_ascii_alnum_exec, parse_bounded, parse_u64_range, parse_unsigned,
    push_chars, push_decimal, push_str, slice_chars, string_of, utf8_len_exceeds,
};

verus! {

/// Largest line number a file-line anchor may carry, `2^53 - 1`: the largest
/// integer JavaScript can represent exactly, so a hand-written anchor and a
/// script-produced `sel-` fragment reject the same out-of-range values.
pub const MAX_SAFE_LINE: u64 = 9_007_199_254_740_991;

/// Longest file-line anchor accepted, in bytes.
pub const MAX_FILE_LINE_ANCHOR_LEN: usize = 8192;

// ---------------------------------------------------------------------------
// File anchors.
// ---------------------------------------------------------------------------

/// What one label character becomes in an anchor.
pub open spec fn anchor_char(c: char) -> char {
    if is_ascii_alnum(c) {
        ascii_lower(c)
    } else {
        '-'
    }
}

/// `f-` followed by the label, lowercased, with every character that is not an
/// ASCII letter or digit replaced by a dash.
pub open spec fn spec_file_anchor(label: Seq<char>) -> Seq<char> {
    seq!['f', '-'] + label.map_values(|c: char| anchor_char(c))
}

/// The `-L` marker that introduces a line number.
pub open spec fn line_marker() -> Seq<char> {
    seq!['-', 'L']
}

pub open spec fn spec_file_line_anchor(label: Seq<char>, line: nat) -> Seq<char> {
    spec_file_anchor(label) + line_marker() + decimal(line)
}

pub open spec fn spec_file_range_anchor(label: Seq<char>, start: nat, end: nat) -> Seq<char> {
    let lo = if start <= end {
        start
    } else {
        end
    };
    let hi = if start <= end {
        end
    } else {
        start
    };
    if lo == hi {
        spec_file_line_anchor(label, lo)
    } else {
        spec_file_anchor(label) + line_marker() + decimal(lo) + line_marker() + decimal(hi)
    }
}

/// A stable, URL-safe anchor for a file label.
///
/// Produces `f-<lowercased-path-with-non-alphanumerics-replaced-by-dashes>`.
/// This is the same anchor used for navigation in the rendered page and for
/// `#f-<path>` links in guided-review briefs.
pub fn file_anchor(label: &str) -> (r: String)
    ensures
        r@ == spec_file_anchor(label@),
{
    let out = file_anchor_chars(label);
    string_of(&out)
}

/// The characters of [`file_anchor`].
pub fn file_anchor_chars(label: &str) -> (r: Vec<char>)
    ensures
        r@ == spec_file_anchor(label@),
{
    let cs = chars_of(label);
    let mut out: Vec<char> = Vec::new();
    out.push('f');
    out.push('-');
    let mut i: usize = 0;
    while i < cs.len()
        invariant
            i <= cs.len(),
            cs@ == label@,
            out@ == seq!['f', '-'] + cs@.take(i as int).map_values(|c: char| anchor_char(c)),
        decreases cs.len() - i,
    {
        let c = cs[i];
        if is_ascii_alnum_exec(c) {
            out.push(ascii_lower_exec(c));
        } else {
            out.push('-');
        }
        assert(cs@.take(i + 1).map_values(|c: char| anchor_char(c)) =~= cs@.take(
            i as int,
        ).map_values(|c: char| anchor_char(c)).push(anchor_char(c)));
        i = i + 1;
    }
    assert(cs@.take(cs.len() as int) == cs@);
    out
}

/// The anchor for a single line of a file, e.g. `f-src-lib-rs-L10`.
pub fn file_line_anchor(label: &str, line: usize) -> (r: String)
    ensures
        r@ == spec_file_line_anchor(label@, line as nat),
{
    let mut out = file_anchor_chars(label);
    out.push('-');
    out.push('L');
    push_decimal(&mut out, line as u64);
    proof {
        assert(out@ =~= spec_file_line_anchor(label@, line as nat));
    }
    string_of(&out)
}

/// The anchor for a line range of a file, e.g. `f-src-lib-rs-L10-L20`.
///
/// A reversed range is normalised to `start <= end`, and a degenerate range
/// (`start == end`) collapses to the single-line form so the two always agree.
pub fn file_range_anchor(label: &str, start: usize, end: usize) -> (r: String)
    ensures
        r@ == spec_file_range_anchor(label@, start as nat, end as nat),
{
    let (lo, hi) = if start <= end {
        (start, end)
    } else {
        (end, start)
    };
    if lo == hi {
        file_line_anchor(label, lo)
    } else {
        let mut out = file_anchor_chars(label);
        out.push('-');
        out.push('L');
        push_decimal(&mut out, lo as u64);
        out.push('-');
        out.push('L');
        push_decimal(&mut out, hi as u64);
        proof {
            assert(out@ =~= spec_file_range_anchor(label@, start as nat, end as nat));
        }
        string_of(&out)
    }
}

// ---------------------------------------------------------------------------
// Parsing hand-written anchors.
// ---------------------------------------------------------------------------

/// A hand-writable, GitHub-style line-range anchor for a file, produced by
/// appending `-L<start>` (and optionally `-L<end>`) to [`file_anchor`].
///
/// The `anchor` field is the lossy `f-<path>` prefix, not the path itself:
/// [`file_anchor`] is not reversible, so a parsed anchor is matched against
/// live rows by recomputing `file_anchor` for each candidate path.
#[derive(Debug, Clone, PartialEq, Eq)]
pub struct FileLineAnchor {
    /// The `f-<path>` prefix, exactly as [`file_anchor`] would produce it.
    pub anchor: String,
    /// First line of the span (1-based, `start <= end`).
    pub start: usize,
    /// Last line of the span (1-based, `start <= end`).
    pub end: usize,
}

/// Whether the `-L` marker starts at index `i` of `s`.
pub open spec fn is_marker_at(s: Seq<char>, i: int) -> bool {
    0 <= i && i + 1 < s.len() && s[i] == '-' && s[i + 1] == 'L'
}

/// The last marker that starts before `k - 1`, scanning leftwards from `k`.
pub open spec fn last_marker_before(s: Seq<char>, k: int) -> Option<int>
    decreases k,
{
    if k < 2 {
        None
    } else if is_marker_at(s, k - 2) {
        Some(k - 2)
    } else {
        last_marker_before(s, k - 1)
    }
}

/// Where `str::rsplit_once("-L")` splits `s`: the last occurrence of the marker.
pub open spec fn last_marker(s: Seq<char>) -> Option<int> {
    last_marker_before(s, s.len() as int)
}

/// The marker [`last_marker`] finds is a marker, and no marker lies after it.
pub proof fn lemma_last_marker_before(s: Seq<char>, k: int)
    requires
        k <= s.len(),
    ensures
        match last_marker_before(s, k) {
            Some(i) => is_marker_at(s, i) && i + 2 <= k && forall|j: int|
                #![trigger is_marker_at(s, j)]
                j + 2 <= k && is_marker_at(s, j) ==> j <= i,
            None => forall|j: int| #![trigger is_marker_at(s, j)] j + 2 <= k ==> !is_marker_at(s, j),
        },
    decreases k,
{
    if k >= 2 && !is_marker_at(s, k - 2) {
        lemma_last_marker_before(s, k - 1);
    }
}

/// A line number as an anchor or fragment states it: what `str::parse::<usize>`
/// accepts, and within `1..=MAX_SAFE_LINE`.
#[verifier::opaque]
pub open spec fn line_number(s: Seq<char>) -> Option<nat> {
    match parse_bounded(s, usize::MAX as nat) {
        Some(v) => if 1 <= v && v <= MAX_SAFE_LINE {
            Some(v)
        } else {
            None
        },
        None => None,
    }
}

/// Whether `s` starts with the `f-` file-anchor prefix.
pub open spec fn has_anchor_prefix(s: Seq<char>) -> bool {
    s.len() >= 2 && s[0] == 'f' && s[1] == '-'
}

/// The meaning of a hand-written `f-<path>-L<start>[-L<end>]` anchor: the
/// prefix and the ordered span, or `None` when it is not a line anchor.
pub open spec fn spec_parse_file_line_anchor(a: Seq<char>) -> Option<(Seq<char>, nat, nat)> {
    if vstd::utf8::encode_utf8(a).len() > MAX_FILE_LINE_ANCHOR_LEN || !has_anchor_prefix(a) {
        None
    } else {
        match last_marker(a) {
            None => None,
            Some(i) => match line_number(a.skip(i + 2)) {
                None => None,
                Some(end) => spec_anchor_head(a.take(i), end),
            },
        }
    }
}

/// What remains once the final `-L<end>` is peeled: either a second marker with
/// the start line before it, or the bare prefix of a single-line anchor.
pub open spec fn spec_anchor_head(head: Seq<char>, end: nat) -> Option<(Seq<char>, nat, nat)> {
    match last_marker(head) {
        Some(j) => match line_number(head.skip(j + 2)) {
            None => None,
            Some(start) => {
                let prefix = head.take(j);
                if has_anchor_prefix(prefix) {
                    Some(
                        (
                            prefix,
                            if start <= end {
                                start
                            } else {
                                end
                            },
                            if start <= end {
                                end
                            } else {
                                start
                            },
                        ),
                    )
                } else {
                    None
                }
            },
        },
        None => if has_anchor_prefix(head) {
            Some((head, end, end))
        } else {
            None
        },
    }
}

/// The last `-L` marker within `s[0..n]`, as [`last_marker`] describes it.
pub fn last_marker_exec(s: &Vec<char>, n: usize) -> (r: Option<usize>)
    requires
        n <= s.len(),
    ensures
        r is None <==> last_marker(s@.take(n as int)) is None,
        r matches Some(i) ==> last_marker(s@.take(n as int)) == Some(i as int) && i + 2 <= n,
{
    let ghost t = s@.take(n as int);
    let mut k = n;
    while k >= 2
        invariant
            k <= n <= s.len(),
            t == s@.take(n as int),
            last_marker_before(t, k as int) == last_marker_before(t, n as int),
        decreases k,
    {
        if s[k - 2] == '-' && s[k - 1] == 'L' {
            assert(is_marker_at(t, k - 2));
            return Some(k - 2);
        }
        assert(!is_marker_at(t, k - 2));
        k = k - 1;
    }
    None
}

/// Parses `s[lo..hi]` as a line number, per [`line_number`].
pub fn line_number_exec(s: &Vec<char>, lo: usize, hi: usize) -> (r: Option<usize>)
    requires
        lo <= hi <= s.len(),
    ensures
        r is None <==> line_number(s@.subrange(lo as int, hi as int)) is None,
        r matches Some(v) ==> line_number(s@.subrange(lo as int, hi as int)) == Some(v as nat),
{
    reveal(line_number);
    match parse_u64_range(s, lo, hi) {
        Some(v) => {
            if v >= 1 && v <= MAX_SAFE_LINE && v <= usize::MAX as u64 {
                Some(v as usize)
            } else {
                None
            }
        },
        None => {
            proof {
                let sub = s@.subrange(lo as int, hi as int);
                if parse_unsigned(sub) is Some {
                    assert(parse_unsigned(sub)->0 > u64::MAX);
                }
            }
            None
        },
    }
}

/// Parses a hand-written `f-<path>-L<start>[-L<end>]` anchor.
///
/// Returns `None` for anything that is not a file-line anchor, including a bare
/// `f-<path>` file anchor (which the page handles natively) and out-of-range or
/// non-positive line numbers.
///
/// The `-L` marker is disambiguated from the dashes in `<path>` by parsing from
/// the right: because [`file_anchor`] lowercases every character, the path
/// portion can never contain an uppercase `L`, so a trailing `-L<digits>` is
/// unambiguously a line marker rather than part of the path.
pub fn parse_file_line_anchor(anchor: &str) -> (r: Option<FileLineAnchor>)
    ensures
        match spec_parse_file_line_anchor(anchor@) {
            Some((prefix, start, end)) => r matches Some(a) && a.anchor@ == prefix && a.start
                == start && a.end == end,
            None => r is None,
        },
{
    let cs = chars_of(anchor);
    if utf8_len_exceeds(&cs, MAX_FILE_LINE_ANCHOR_LEN) {
        return None;
    }
    if !(cs.len() >= 2 && cs[0] == 'f' && cs[1] == '-') {
        return None;
    }
    assert(cs@.take(cs.len() as int) == cs@);
    let i = match last_marker_exec(&cs, cs.len()) {
        Some(i) => i,
        None => return None,
    };
    assert(cs@.skip(i + 2) == cs@.subrange(i + 2, cs.len() as int));
    let end = match line_number_exec(&cs, i + 2, cs.len()) {
        Some(end) => end,
        None => return None,
    };
    assert(vstd::utf8::encode_utf8(anchor@).len() <= MAX_FILE_LINE_ANCHOR_LEN);
    assert(has_anchor_prefix(anchor@));
    assert(last_marker(anchor@) == Some(i as int));
    assert(line_number(anchor@.skip(i + 2)) == Some(end as nat));
    assert(spec_parse_file_line_anchor(anchor@) == spec_anchor_head(anchor@.take(i as int), end as nat));
    parse_anchor_head(&cs, i, end)
}

/// The part of [`parse_file_line_anchor`] after the final line number: `cs[0..i]`
/// is the head left of the last marker.
fn parse_anchor_head(cs: &Vec<char>, i: usize, end: usize) -> (r: Option<FileLineAnchor>)
    requires
        i <= cs.len(),
    ensures
        match spec_anchor_head(cs@.take(i as int), end as nat) {
            Some((prefix, start, end)) => r matches Some(a) && a.anchor@ == prefix && a.start
                == start && a.end == end,
            None => r is None,
        },
{
    let ghost head = cs@.take(i as int);
    let (prefix_len, start) = match last_marker_exec(cs, i) {
        Some(j) => {
            assert(head.skip(j + 2) == cs@.subrange(j + 2, i as int));
            match line_number_exec(cs, j + 2, i) {
                Some(start) => (j, start),
                None => return None,
            }
        },
        None => (i, end),
    };
    assert(head.take(prefix_len as int) == cs@.take(prefix_len as int));
    if !(prefix_len >= 2 && cs[0] == 'f' && cs[1] == '-') {
        return None;
    }
    let prefix = slice_chars(cs, 0, prefix_len);
    assert(prefix@ == cs@.take(prefix_len as int));
    let lo = if start <= end {
        start
    } else {
        end
    };
    let hi = if start <= end {
        end
    } else {
        start
    };
    Some(FileLineAnchor { anchor: string_of(&prefix), start: lo, end: hi })
}

// ---------------------------------------------------------------------------
// Anchor collisions.
// ---------------------------------------------------------------------------

/// Whether labels `i < j` produce the same anchor.
pub open spec fn anchors_collide(labels: Seq<Seq<char>>, i: int, j: int) -> bool {
    0 <= i < j < labels.len() && spec_file_anchor(labels[i]) == spec_file_anchor(labels[j])
}

/// The report for a collision between `previous` and `label`.
pub open spec fn collision_message(previous: Seq<char>, label: Seq<char>) -> Seq<char> {
    "anchor collision: "@ + debug_quoted(previous) + " and "@ + debug_quoted(label)
        + " both produce #"@ + spec_file_anchor(label)
}

/// Whether `(i, j)` is the first collision: `j` is the earliest label that
/// repeats an anchor, and `i` the earlier label it repeats.
pub open spec fn first_collision(labels: Seq<Seq<char>>, i: int, j: int) -> bool {
    &&& anchors_collide(labels, i, j)
    &&& forall|a: int, b: int| b < j ==> !#[trigger] anchors_collide(labels, a, b)
    &&& forall|a: int| a < i ==> !#[trigger] anchors_collide(labels, a, j)
}

/// The views of a list of labels.
pub open spec fn label_views(labels: Seq<String>) -> Seq<Seq<char>> {
    labels.map_values(|l: String| l@)
}

/// Validates that a set of file labels do not produce duplicate anchors.
///
/// Returns `Ok(())` if all anchors are unique. Returns `Err` naming both
/// colliding labels and their shared anchor when a collision is found.
pub fn validate_file_anchors(labels: &[String]) -> (r: Result<(), String>)
    ensures
        r is Ok <==> forall|i: int, j: int| !#[trigger] anchors_collide(label_views(labels@), i, j),
        r matches Err(m) ==> exists|i: int, j: int|
            #[trigger] first_collision(label_views(labels@), i, j) && m@ == collision_message(
                labels@[i]@,
                labels@[j]@,
            ),
{
    let ghost views = label_views(labels@);
    let mut anchors: Vec<Vec<char>> = Vec::new();
    let mut j: usize = 0;
    while j < labels.len()
        invariant
            j <= labels.len(),
            views == label_views(labels@),
            anchors.len() == j,
            forall|k: int| 0 <= k < j ==> #[trigger] anchors@[k]@ == spec_file_anchor(views[k]),
            forall|a: int, b: int| b < j ==> !#[trigger] anchors_collide(views, a, b),
        decreases labels.len() - j,
    {
        let label = labels[j].as_str();
        let anchor = file_anchor_chars(label);
        let mut i: usize = 0;
        while i < j
            invariant
                i <= j < labels.len(),
                views == label_views(labels@),
                anchors.len() == j,
                forall|k: int| 0 <= k < j ==> #[trigger] anchors@[k]@ == spec_file_anchor(views[k]),
                anchor@ == spec_file_anchor(views[j as int]),
                label@ == labels@[j as int]@,
                forall|a: int| a < i ==> !#[trigger] anchors_collide(views, a, j as int),
                forall|a: int, b: int| b < j ==> !#[trigger] anchors_collide(views, a, b),
            decreases j - i,
        {
            if chars_eq(&anchors[i], &anchor) {
                let previous = labels[i].as_str();
                let mut m: Vec<char> = Vec::new();
                push_str(&mut m, "anchor collision: ");
                let dp = debug_str(previous);
                push_str(&mut m, dp.as_str());
                push_str(&mut m, " and ");
                let dl = debug_str(label);
                push_str(&mut m, dl.as_str());
                push_str(&mut m, " both produce #");
                push_chars(&mut m, &anchor);
                assert(views[i as int] == labels@[i as int]@);
                assert(views[j as int] == labels@[j as int]@);
                assert(anchors_collide(views, i as int, j as int));
                assert(first_collision(views, i as int, j as int));
                assert(m@ =~= collision_message(labels@[i as int]@, labels@[j as int]@));
                return Err(string_of(&m));
            }
            i = i + 1;
        }
        anchors.push(anchor);
        assert forall|a: int, b: int| b < j + 1 implies !#[trigger] anchors_collide(views, a, b) by {
            if b == j {
                if anchors_collide(views, a, b) {
                    assert(a < i);
                }
            }
        }
        j = j + 1;
    }
    Ok(())
}

} // verus!

verus! {

// ---------------------------------------------------------------------------
// The formatter/parser round trip.
// ---------------------------------------------------------------------------

/// Characters an anchor body is made of: lowercase ASCII letters, digits and dashes.
pub open spec fn is_anchor_body_char(c: char) -> bool {
    is_ascii_lower(c) || is_digit(c) || c == '-'
}

pub proof fn lemma_file_anchor_chars(label: Seq<char>)
    ensures
        has_anchor_prefix(spec_file_anchor(label)),
        spec_file_anchor(label).len() == label.len() + 2,
        forall|i: int|
            0 <= i < spec_file_anchor(label).len() ==> #[trigger] is_anchor_body_char(
                spec_file_anchor(label)[i],
            ),
{
    let a = spec_file_anchor(label);
    assert forall|i: int| 0 <= i < a.len() implies #[trigger] is_anchor_body_char(a[i]) by {
        if i >= 2 {
            let c = label[i - 2];
            assert(a[i] == anchor_char(c));
            if is_ascii_upper(c) {
                assert(((c as u32) + 32) as char == ascii_lower(c));
            }
        }
    }
}

/// Scanning leftwards from `k`, no marker is met before position `m` when no
/// dash lies in `s[m + 1 ..= k - 2]`.
pub proof fn lemma_scan_skips_dashless(s: Seq<char>, m: int, k: int)
    requires
        0 <= m,
        m + 2 <= k <= s.len(),
        forall|t: int| m + 1 <= t <= k - 2 ==> s[t] != '-',
    ensures
        last_marker_before(s, k) == last_marker_before(s, m + 2),
    decreases k,
{
    if k > m + 2 {
        assert(s[k - 2] != '-');
        lemma_scan_skips_dashless(s, m, k - 1);
    }
}

/// A sequence with no `L` holds no marker.
pub proof fn lemma_no_marker_without_l(s: Seq<char>, k: int)
    requires
        k <= s.len(),
        forall|t: int| 0 <= t < s.len() ==> s[t] != 'L',
    ensures
        last_marker_before(s, k) is None,
    decreases k,
{
    if k >= 2 {
        assert(s[k - 1] != 'L');
        lemma_no_marker_without_l(s, k - 1);
    }
}

/// `x + "-L" + decimal(n)`: the last marker is the one after `x`, when `x`
/// itself ends in no way that could be mistaken for one.
pub proof fn lemma_marker_before_number(x: Seq<char>, n: nat)
    requires
        x.len() >= 1,
    ensures
        last_marker(x + line_marker() + decimal(n)) == Some(x.len() as int),
        (x + line_marker() + decimal(n)).take(x.len() as int) == x,
        (x + line_marker() + decimal(n)).skip(x.len() as int + 2) == decimal(n),
{
    lemma_decimal_digits(n);
    let s = x + line_marker() + decimal(n);
    let m = x.len() as int;
    assert forall|t: int| m + 1 <= t <= s.len() - 2 implies s[t] != '-' by {
        if t == m + 1 {
            assert(s[t] == 'L');
        } else {
            assert(s[t] == decimal(n)[t - m - 2]);
            assert(is_digit(decimal(n)[t - m - 2]));
        }
    }
    lemma_scan_skips_dashless(s, m, s.len() as int);
    assert(is_marker_at(s, m));
    assert(s.take(m) =~= x);
    assert(s.skip(m + 2) =~= decimal(n));
}

pub proof fn lemma_line_number_decimal(n: nat)
    requires
        1 <= n <= MAX_SAFE_LINE,
        n <= usize::MAX,
    ensures
        line_number(decimal(n)) == Some(n),
{
    reveal(line_number);
    lemma_parse_decimal(n);
}

pub proof fn lemma_anchor_is_ascii(s: Seq<char>)
    requires
        forall|i: int| 0 <= i < s.len() ==> #[trigger] is_anchor_body_char(s[i]) || s[i] == 'L',
    ensures
        vstd::utf8::encode_utf8(s).len() == s.len(),
{
    assert forall|i: int| 0 <= i < s.len() implies '\0' <= #[trigger] s[i] <= '\u{7f}' by {
        assert(is_anchor_body_char(s[i]) || s[i] == 'L');
    }
    assert(vstd::utf8::is_ascii_chars(s));
    vstd::utf8::is_ascii_chars_encode_utf8(s);
}

/// Parsing what [`file_range_anchor`] produced gives back the label's anchor and
/// the ordered span, for any positive lines up to `MAX_SAFE_LINE` whose anchor
/// fits the parser's length limit.
pub proof fn law_file_range_anchor_round_trip(label: Seq<char>, start: nat, end: nat)
    requires
        1 <= start <= MAX_SAFE_LINE,
        1 <= end <= MAX_SAFE_LINE,
        start <= usize::MAX,
        end <= usize::MAX,
        spec_file_range_anchor(label, start, end).len() <= MAX_FILE_LINE_ANCHOR_LEN,
    ensures
        spec_parse_file_line_anchor(spec_file_range_anchor(label, start, end)) == Some(
            (
                spec_file_anchor(label),
                if start <= end {
                    start
                } else {
                    end
                },
                if start <= end {
                    end
                } else {
                    start
                },
            ),
        ),
{
    let lo = if start <= end {
        start
    } else {
        end
    };
    let hi = if start <= end {
        end
    } else {
        start
    };
    let a = spec_file_anchor(label);
    let s = spec_file_range_anchor(label, start, end);
    lemma_file_anchor_chars(label);
    lemma_decimal_digits(lo);
    lemma_decimal_digits(hi);
    lemma_line_number_decimal(lo);
    lemma_line_number_decimal(hi);
    if lo == hi {
        assert(s == a + line_marker() + decimal(lo));
        lemma_marker_before_number(a, lo);
        assert forall|i: int| 0 <= i < s.len() implies #[trigger] is_anchor_body_char(s[i])
            || s[i] == 'L' by {
            if i >= a.len() + 2 {
                assert(s[i] == decimal(lo)[i - a.len() - 2]);
                assert(is_digit(decimal(lo)[i - a.len() - 2]));
            }
        }
        lemma_anchor_is_ascii(s);
        let head = s.take(a.len() as int);
        assert forall|t: int| 0 <= t < head.len() implies head[t] != 'L' by {
            assert(is_anchor_body_char(a[t]));
        }
        lemma_no_marker_without_l(head, head.len() as int);
    } else {
        let x = a + line_marker() + decimal(lo);
        assert(s == x + line_marker() + decimal(hi));
        lemma_marker_before_number(x, hi);
        lemma_marker_before_number(a, lo);
        assert forall|i: int| 0 <= i < s.len() implies #[trigger] is_anchor_body_char(s[i])
            || s[i] == 'L' by {
            if i >= x.len() + 2 {
                assert(s[i] == decimal(hi)[i - x.len() - 2]);
                assert(is_digit(decimal(hi)[i - x.len() - 2]));
            } else if i < x.len() {
                assert(s[i] == x[i]);
                if i >= a.len() + 2 {
                    assert(x[i] == decimal(lo)[i - a.len() - 2]);
                    assert(is_digit(decimal(lo)[i - a.len() - 2]));
                }
            }
        }
        lemma_anchor_is_ascii(s);
    }
}

} // verus!
