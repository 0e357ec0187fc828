//! Deep-link fragment encoding and decoding.
//!
//! The page supports three kinds of URL fragments for deep-linking:
//!
//! - `#f-<path>` — file section anchors (lossy, for the nav bar and
//!   guided-review links). This module does not produce them.
//! - `#comment-<id>` — a specific comment on a line or range.
//! - `#sel-<base64url(path)>-<side>-<start>[-<end>]` — a line or range
//!   selection, deep-linkable and highlighted on load.
//!
//! The `sel-` prefix uses base64url (no padding) for the file path, making it
//! round-trippable, collision-safe with file anchors, and CSS-safe.

use base64::Engine;
use vstd::prelude::*;

use crate::text::{
    all_digits, chars_eq, chars_of, decimal, is_digit, lemma_decimal_digits, lemma_parse_decimal,
    parse_bounded, parse_u64_range, parse_unsigned, push_chars, push_decimal, push_str,
    slice_chars, string_of, utf8_len_exceeds,
};
use crate::MAX_SAFE_LINE;

verus! {

/// Maximum length, in bytes, of an encoded path segment in a fragment.
pub const MAX_ENCODED_PATH_LEN: usize = 4096;

/// Maximum length, in bytes, of an entire fragment string.
pub const MAX_FRAGMENT_LEN: usize = 8192;

// ---------------------------------------------------------------------------
// base64url, through the `base64` crate.
// ---------------------------------------------------------------------------

/// The URL-safe base64 digit for `v` (below 64): `A`–`Z`, `a`–`z`, `0`–`9`,
/// `-`, `_`.
pub open spec fn base64url_digit(v: nat) -> char {
    if v < 26 {
        (65 + v) as char
    } else if v < 52 {
        (97 + (v - 26)) as char
    } else if v < 62 {
        (48 + (v - 52)) as char
    } else if v == 62 {
        '-'
    } else {
        '_'
    }
}

/// Unpadded URL-safe base64, as `URL_SAFE_NO_PAD.encode` writes it: each
/// three bytes become four digits of six bits each, most significant first;
/// a last one or two bytes become two or three digits, the spare low bits
/// zero.
pub open spec fn base64url_encode(b: Seq<u8>) -> Seq<char>
    decreases b.len(),
{
    if b.len() == 0 {
        Seq::empty()
    } else if b.len() == 1 {
        seq![base64url_digit(b[0] as nat / 4), base64url_digit((b[0] as nat % 4) * 16)]
    } else if b.len() == 2 {
        seq![
            base64url_digit(b[0] as nat / 4),
            base64url_digit((b[0] as nat % 4) * 16 + b[1] as nat / 16),
            base64url_digit((b[1] as nat % 16) * 4),
        ]
    } else {
        seq![
            base64url_digit(b[0] as nat / 4),
            base64url_digit((b[0] as nat % 4) * 16 + b[1] as nat / 16),
            base64url_digit((b[1] as nat % 16) * 4 + b[2] as nat / 64),
            base64url_digit(b[2] as nat % 64),
        ] + base64url_encode(b.skip(3))
    }
}

/// Every digit is from the URL-safe alphabet.
proof fn base64url_digit_is_safe(v: nat)
    requires
        v < 64,
    ensures
        is_base64url_char(base64url_digit(v)),
{
}

/// Unpadded base64url of `n` bytes has `(4n + 2) / 3` digits, all from the
/// URL-safe alphabet.
pub proof fn base64url_encode_shape(b: Seq<u8>)
    ensures
        base64url_encode(b).len() == (4 * b.len() + 2) / 3,
        forall|i: int| 0 <= i < base64url_encode(b).len() ==> #[trigger] is_base64url_char(base64url_encode(b)[i]),
    decreases b.len(),
{
    if b.len() >= 1 {
        base64url_digit_is_safe(b[0] as nat / 4);
        base64url_digit_is_safe((b[0] as nat % 4) * 16);
    }
    if b.len() >= 2 {
        base64url_digit_is_safe((b[0] as nat % 4) * 16 + b[1] as nat / 16);
        base64url_digit_is_safe((b[1] as nat % 16) * 4);
    }
    if b.len() >= 3 {
        base64url_digit_is_safe((b[1] as nat % 16) * 4 + b[2] as nat / 64);
        base64url_digit_is_safe(b[2] as nat % 64);
        base64url_encode_shape(b.skip(3));
        let head = seq![
            base64url_digit(b[0] as nat / 4),
            base64url_digit((b[0] as nat % 4) * 16 + b[1] as nat / 16),
            base64url_digit((b[1] as nat % 16) * 4 + b[2] as nat / 64),
            base64url_digit(b[2] as nat % 64),
        ];
        let rest = base64url_encode(b.skip(3));
        assert(base64url_encode(b) == head + rest);
        assert forall|i: int| 0 <= i < base64url_encode(b).len() implies #[trigger] is_base64url_char(
            base64url_encode(b)[i],
        ) by {
            if i >= 4 {
                assert(base64url_encode(b)[i] == rest[i - 4]);
            }
        }
    }
}

/// What `URL_SAFE_NO_PAD.decode` makes of a text: the bytes, or `None` when it
/// is not valid unpadded base64url.
pub uninterp spec fn base64url_decode(text: Seq<char>) -> Option<Seq<u8>>;

/// The URL-safe base64 alphabet: letters, digits, `-` and `_`.
pub open spec fn is_base64url_char(c: char) -> bool {
    ('A' <= c && c <= 'Z') || ('a' <= c && c <= 'z') || ('0' <= c && c <= '9') || c == '-' || c
        == '_'
}

/// `base64::engine::general_purpose::URL_SAFE_NO_PAD.encode`.
///
/// Trusted, as the crate's source shows it: the output is the unpadded
/// base64url that `base64url_encode` states, and decoding it with the same
/// engine gives back the input. The length must not overflow, which the
/// crate checks with a panic.
#[verifier::external_body]
fn encode_url_safe(bytes: &[u8]) -> (r: String)
    requires
        bytes@.len() * 4 <= usize::MAX,
    ensures
        r@ == base64url_encode(bytes@),
        base64url_decode(r@) == Some(bytes@),
{
    base64::engine::general_purpose::URL_SAFE_NO_PAD.encode(bytes)
}

/// `base64::engine::general_purpose::URL_SAFE_NO_PAD.decode`, keeping only
/// whether it succeeded and what it produced.
#[verifier::external_body]
fn decode_url_safe(text: &str) -> (r: Option<Vec<u8>>)
    ensures
        match r {
            Some(v) => base64url_decode(text@) == Some(v@),
            None => base64url_decode(text@) is None,
        },
{
    base64::engine::general_purpose::URL_SAFE_NO_PAD.decode(text).ok()
}

/// `String::from_utf8`, which succeeds exactly on valid UTF-8.
#[verifier::external_body]
fn string_from_utf8(bytes: Vec<u8>) -> (r: Option<String>)
    ensures
        match r {
            Some(s) => vstd::utf8::valid_utf8(bytes@) && s@ == vstd::utf8::decode_utf8(bytes@),
            None => !vstd::utf8::valid_utf8(bytes@),
        },
{
    String::from_utf8(bytes).ok()
}

// ---------------------------------------------------------------------------
// Paths.
// ---------------------------------------------------------------------------

/// The encoded form of a path: base64url of its UTF-8 bytes.
pub open spec fn spec_encode_path(path: Seq<char>) -> Seq<char> {
    base64url_encode(vstd::utf8::encode_utf8(path))
}

/// Encodes a file path for use in a `sel-` fragment.
pub fn encode_path(path: &str) -> (r: String)
    requires
        vstd::utf8::encode_utf8(path@).len() * 4 <= usize::MAX,
    ensures
        r@ == spec_encode_path(path@),
        r@.len() == (4 * vstd::utf8::encode_utf8(path@).len() + 2) / 3,
        forall|i: int| 0 <= i < r@.len() ==> #[trigger] is_base64url_char(r@[i]),
        base64url_decode(r@) == Some(vstd::utf8::encode_utf8(path@)),
{
    proof {
        base64url_encode_shape(vstd::utf8::encode_utf8(path@));
    }
    encode_url_safe(path.as_bytes())
}

/// What a `sel-` fragment's path segment decodes to: a non-empty UTF-8 path,
/// or `None` for an empty or oversized segment or one that is not base64url of
/// UTF-8.
pub open spec fn spec_decode_path(encoded: Seq<char>) -> Option<Seq<char>> {
    if encoded.len() == 0 || vstd::utf8::encode_utf8(encoded).len() > MAX_ENCODED_PATH_LEN {
        None
    } else {
        match base64url_decode(encoded) {
            None => None,
            Some(bytes) => if vstd::utf8::valid_utf8(bytes) && vstd::utf8::decode_utf8(bytes).len()
                > 0 {
                Some(vstd::utf8::decode_utf8(bytes))
            } else {
                None
            },
        }
    }
}

/// Decodes a base64url-encoded file path from a `sel-` fragment.
/// Returns `None` for empty paths or paths that exceed the length limit.
pub fn decode_path(encoded: &str) -> (r: Option<String>)
    ensures
        match spec_decode_path(encoded@) {
            Some(p) => r matches Some(s) && s@ == p,
            None => r is None,
        },
{
    let cs = chars_of(encoded);
    if cs.len() == 0 || utf8_len_exceeds(&cs, MAX_ENCODED_PATH_LEN) {
        return None;
    }
    let bytes = match decode_url_safe(encoded) {
        Some(b) => b,
        None => return None,
    };
    let s = match string_from_utf8(bytes) {
        Some(s) => s,
        None => return None,
    };
    if s.as_str().is_empty() {
        return None;
    }
    Some(s)
}

// ---------------------------------------------------------------------------
// Building fragments.
// ---------------------------------------------------------------------------

/// Whether a line number is within safe bounds: non-zero and at most
/// `MAX_SAFE_LINE`.
pub open spec fn spec_safe_line(n: nat) -> bool {
    n > 0 && n <= MAX_SAFE_LINE
}

pub fn safe_line(n: usize) -> (r: bool)
    ensures
        r == spec_safe_line(n as nat),
{
    n > 0 && (n as u64) <= MAX_SAFE_LINE
}

pub open spec fn sel_prefix() -> Seq<char> {
    seq!['s', 'e', 'l', '-']
}

/// `sel-<encoded path>-<side>-<line>`.
pub open spec fn spec_line_fragment(path: Seq<char>, side: Seq<char>, line: nat) -> Seq<char> {
    sel_prefix() + spec_encode_path(path) + seq!['-'] + side + seq!['-'] + decimal(line)
}

/// The canonical fragment for a range, ends in order; a one-line range is the
/// single-line fragment.
pub open spec fn spec_range_fragment(path: Seq<char>, side: Seq<char>, start: nat, end: nat) -> Seq<
    char,
> {
    let lo = if start <= end {
        start
    } else {
        end
    };
    let hi = if start <= end {
        end
    } else {
        start
    };
    if lo == hi {
        spec_line_fragment(path, side, lo)
    } else {
        spec_line_fragment(path, side, lo) + seq!['-'] + decimal(hi)
    }
}

/// Builds the canonical fragment for a single line selection.
///
/// The fragment parses back to the selection it was built from, whenever the
/// path is non-empty, the side is `old` or `new`, the line is safe, and the
/// path and fragment are within the parser's length limits.
pub fn line_fragment(path: &str, side: &str, line: usize) -> (r: String)
    requires
        vstd::utf8::encode_utf8(path@).len() * 4 <= usize::MAX,
    ensures
        r@ == spec_line_fragment(path@, side@, line as nat),
        path@.len() > 0 && is_side(side@) && spec_safe_line(line as nat)
            && vstd::utf8::encode_utf8(path@).len() <= 3072 && r@.len() <= MAX_FRAGMENT_LEN
            ==> spec_parse_selection(r@) == Some((path@, side@, line as nat, line as nat)),
{
    let out = line_fragment_chars(path, side, line);
    proof {
        if path@.len() > 0 && is_side(side@) && spec_safe_line(line as nat)
            && vstd::utf8::encode_utf8(path@).len() <= 3072 && out@.len() <= MAX_FRAGMENT_LEN {
            lemma_encode_nonempty(path@);
            assert(spec_range_fragment(path@, side@, line as nat, line as nat) == out@);
            lemma_selection_round_trip(
                path@,
                side@,
                line as nat,
                line as nat,
                spec_encode_path(path@),
            );
        }
    }
    string_of(&out)
}

fn line_fragment_chars(path: &str, side: &str, line: usize) -> (r: Vec<char>)
    requires
        vstd::utf8::encode_utf8(path@).len() * 4 <= usize::MAX,
    ensures
        r@ == spec_line_fragment(path@, side@, line as nat),
        spec_encode_path(path@).len() == (4 * vstd::utf8::encode_utf8(path@).len() + 2) / 3,
        forall|i: int|
            0 <= i < spec_encode_path(path@).len() ==> #[trigger] is_base64url_char(
                spec_encode_path(path@)[i],
            ),
        base64url_decode(spec_encode_path(path@)) == Some(vstd::utf8::encode_utf8(path@)),
{
    let mut out: Vec<char> = Vec::new();
    out.push('s');
    out.push('e');
    out.push('l');
    out.push('-');
    let encoded = encode_path(path);
    push_str(&mut out, encoded.as_str());
    out.push('-');
    push_str(&mut out, side);
    out.push('-');
    push_decimal(&mut out, line as u64);
    assert(out@ =~= spec_line_fragment(path@, side@, line as nat));
    out
}

/// Builds the canonical fragment for a range selection.
///
/// The fragment parses back to the path, the side and the span with its ends in
/// order, under the same conditions as [`line_fragment`].
pub fn range_fragment(path: &str, side: &str, start: usize, end: usize) -> (r: String)
    requires
        vstd::utf8::encode_utf8(path@).len() * 4 <= usize::MAX,
    ensures
        r@ == spec_range_fragment(path@, side@, start as nat, end as nat),
        path@.len() > 0 && is_side(side@) && spec_safe_line(start as nat) && spec_safe_line(
            end as nat,
        ) && vstd::utf8::encode_utf8(path@).len() <= 3072 && r@.len() <= MAX_FRAGMENT_LEN
            ==> spec_parse_selection(r@) == Some(
            (
                path@,
                side@,
                if start <= end {
                    start as nat
                } else {
                    end as nat
                },
                if start <= end {
                    end as nat
                } else {
                    start as nat
                },
            ),
        ),
{
    let (lo, hi) = if start <= end {
        (start, end)
    } else {
        (end, start)
    };
    if lo == hi {
        line_fragment(path, side, lo)
    } else {
        let mut out = line_fragment_chars(path, side, lo);
        out.push('-');
        push_decimal(&mut out, hi as u64);
        proof {
            assert(out@ =~= spec_range_fragment(path@, side@, start as nat, end as nat));
            if path@.len() > 0 && is_side(side@) && spec_safe_line(start as nat) && spec_safe_line(
                end as nat,
            ) && vstd::utf8::encode_utf8(path@).len() <= 3072 && out@.len() <= MAX_FRAGMENT_LEN {
                lemma_encode_nonempty(path@);
                assert(spec_range_fragment(path@, side@, lo as nat, hi as nat) == out@);
                lemma_selection_round_trip(path@, side@, lo as nat, hi as nat, spec_encode_path(path@));
            }
        }
        string_of(&out)
    }
}

pub open spec fn spec_comment_fragment(id: nat) -> Seq<char> {
    "comment-"@ + decimal(id)
}

/// Builds the canonical fragment for a comment anchor; it parses back to `id`.
pub fn comment_fragment(id: u64) -> (r: String)
    ensures
        r@ == spec_comment_fragment(id as nat),
        spec_parse_comment(r@) == Some(id as nat),
{
    let mut out: Vec<char> = Vec::new();
    push_str(&mut out, "comment-");
    push_decimal(&mut out, id);
    proof {
        reveal_strlit("comment-");
        let f = spec_comment_fragment(id as nat);
        assert(f.take(8) =~= "comment-"@);
        assert(f.skip(8) =~= decimal(id as nat));
        lemma_parse_decimal(id as nat);
    }
    string_of(&out)
}

// ---------------------------------------------------------------------------
// Parsing fragments.
// ---------------------------------------------------------------------------

/// A parsed selection fragment.
#[derive(Debug, Clone, PartialEq, Eq)]
pub struct Selection {
    pub path: String,
    pub side: String,
    pub start: usize,
    pub end: usize,
}

/// The last `c` strictly before index `k`.
pub open spec fn last_index_before(s: Seq<char>, c: char, k: int) -> Option<int>
    decreases k,
{
    if k <= 0 {
        None
    } else if s[k - 1] == c {
        Some(k - 1)
    } else {
        last_index_before(s, c, k - 1)
    }
}

/// Where `str::rsplit_once(c)` splits `s`: the last occurrence of `c`.
pub open spec fn last_index_of(s: Seq<char>, c: char) -> Option<int> {
    last_index_before(s, c, s.len() as int)
}

/// The last `c` within `s[lo..hi]`, as an index into `s`.
fn last_index_exec(s: &Vec<char>, c: char, lo: usize, hi: usize) -> (r: Option<usize>)
    requires
        lo <= hi <= s.len(),
    ensures
        r is None <==> last_index_of(s@.subrange(lo as int, hi as int), c) is None,
        r matches Some(i) ==> lo <= i < hi && last_index_of(s@.subrange(lo as int, hi as int), c)
            == Some(i - lo),
{
    let ghost t = s@.subrange(lo as int, hi as int);
    let mut k = hi;
    while k > lo
        invariant
            lo <= k <= hi <= s.len(),
            t == s@.subrange(lo as int, hi as int),
            last_index_before(t, c, k - lo) == last_index_before(t, c, hi - lo),
        decreases k,
    {
        if s[k - 1] == c {
            assert(t[k - 1 - lo] == c);
            return Some(k - 1);
        }
        assert(t[k - 1 - lo] != c);
        k = k - 1;
    }
    None
}

/// A line number as `str::parse::<usize>` reads it, or `None`.
pub open spec fn parse_line(s: Seq<char>) -> Option<nat> {
    parse_bounded(s, usize::MAX as nat)
}

fn parse_line_exec(s: &Vec<char>, lo: usize, hi: usize) -> (r: Option<usize>)
    requires
        lo <= hi <= s.len(),
    ensures
        r is None <==> parse_line(s@.subrange(lo as int, hi as int)) is None,
        r matches Some(v) ==> parse_line(s@.subrange(lo as int, hi as int)) == Some(v as nat),
{
    match parse_u64_range(s, lo, hi) {
        Some(v) => {
            if v <= usize::MAX as u64 {
                Some(v as usize)
            } else {
                None
            }
        },
        None => {
            proof {
                let sub = s@.subrange(lo as int, hi as int);
                if parse_unsigned(sub) is Some {
                    assert(parse_unsigned(sub)->0 > u64::MAX);
                }
            }
            None
        },
    }
}

pub open spec fn is_side(s: Seq<char>) -> bool {
    s == "old"@ || s == "new"@
}

/// The meaning of a `sel-...` fragment: path, side and ordered span, or `None`
/// when it does not match the format. Rejects zero line numbers, numbers above
/// `MAX_SAFE_LINE`, empty paths, and oversized fragments or paths.
pub open spec fn spec_parse_selection(f: Seq<char>) -> Option<(Seq<char>, Seq<char>, nat, nat)> {
    if vstd::utf8::encode_utf8(f).len() > MAX_FRAGMENT_LEN || !(f.len() >= 4 && f.take(4)
        == sel_prefix()) {
        None
    } else {
        let rest = f.skip(4);
        match last_index_of(rest, '-') {
            None => None,
            Some(i) => match parse_line(rest.skip(i + 1)) {
                None => None,
                Some(last) => if !spec_safe_line(last) {
                    None
                } else {
                    spec_selection_head(rest.take(i), last)
                },
            },
        }
    }
}

/// The rest of [`spec_parse_selection`], once the last number is read: `head`
/// is what lies before it.
pub open spec fn spec_selection_head(head: Seq<char>, last: nat) -> Option<
    (Seq<char>, Seq<char>, nat, nat),
> {
    match last_index_of(head, '-') {
        None => None,
        Some(j) => {
            let previous = head.skip(j + 1);
            let before = head.take(j);
            if is_side(previous) {
                match spec_decode_path(before) {
                    None => None,
                    Some(p) => Some((p, previous, last, last)),
                }
            } else {
                match parse_line(previous) {
                    None => None,
                    Some(start) => if !spec_safe_line(start) {
                        None
                    } else {
                        match last_index_of(before, '-') {
                            None => None,
                            Some(k) => {
                                let side = before.skip(k + 1);
                                if !is_side(side) {
                                    None
                                } else {
                                    match spec_decode_path(before.take(k)) {
                                        None => None,
                                        Some(p) => Some(
                                            (
                                                p,
                                                side,
                                                if start <= last {
                                                    start
                                                } else {
                                                    last
                                                },
                                                if start <= last {
                                                    last
                                                } else {
                                                    start
                                                },
                                            ),
                                        ),
                                    }
                                }
                            },
                        }
                    },
                }
            }
        },
    }
}

fn is_side_exec(s: &Vec<char>, lo: usize, hi: usize) -> (r: bool)
    requires
        lo <= hi <= s.len(),
    ensures
        r == is_side(s@.subrange(lo as int, hi as int)),
{
    let sub = slice_chars(s, lo, hi);
    let old_side = chars_of("old");
    let new_side = chars_of("new");
    chars_eq(&sub, &old_side) || chars_eq(&sub, &new_side)
}

fn decode_segment(s: &Vec<char>, lo: usize, hi: usize) -> (r: Option<String>)
    requires
        lo <= hi <= s.len(),
    ensures
        match spec_decode_path(s@.subrange(lo as int, hi as int)) {
            Some(p) => r matches Some(x) && x@ == p,
            None => r is None,
        },
{
    let seg = slice_chars(s, lo, hi);
    let text = string_of(&seg);
    decode_path(text.as_str())
}

/// Parses a `sel-...` fragment (without the leading `#`).
///
/// Returns `None` for anything that does not match the expected format.
/// Rejects: zero line numbers, numbers > MAX_SAFE_LINE, empty paths,
/// oversized fragments/paths.
pub fn parse_selection(fragment: &str) -> (r: Option<Selection>)
    ensures
        match spec_parse_selection(fragment@) {
            Some((path, side, start, end)) => r matches Some(s) && s.path@ == path && s.side@
                == side && s.start == start && s.end == end,
            None => r is None,
        },
{
    let cs = chars_of(fragment);
    if utf8_len_exceeds(&cs, MAX_FRAGMENT_LEN) {
        return None;
    }
    if !(cs.len() >= 4 && cs[0] == 's' && cs[1] == 'e' && cs[2] == 'l' && cs[3] == '-') {
        proof {
            if cs@.len() >= 4 && cs@.take(4) == sel_prefix() {
                assert(cs@.take(4)[0] == 's');
                assert(cs@.take(4)[1] == 'e');
                assert(cs@.take(4)[2] == 'l');
                assert(cs@.take(4)[3] == '-');
            }
        }
        return None;
    }
    assert(cs@.take(4) =~= sel_prefix());
    let ghost rest = cs@.skip(4);
    assert(rest == cs@.subrange(4, cs.len() as int));
    let i = match last_index_exec(&cs, '-', 4, cs.len()) {
        Some(i) => i,
        None => return None,
    };
    assert(rest.skip(i - 4 + 1) == cs@.subrange(i + 1, cs.len() as int));
    let last = match parse_line_exec(&cs, i + 1, cs.len()) {
        Some(v) => v,
        None => return None,
    };
    if !safe_line(last) {
        return None;
    }
    assert(rest.take(i - 4) == cs@.subrange(4, i as int));
    selection_head(&cs, i, last)
}

/// [`spec_selection_head`] over `cs[4..i]`.
fn selection_head(cs: &Vec<char>, i: usize, last: usize) -> (r: Option<Selection>)
    requires
        4 <= i <= cs.len(),
    ensures
        match spec_selection_head(cs@.subrange(4, i as int), last as nat) {
            Some((path, side, start, end)) => r matches Some(s) && s.path@ == path && s.side@
                == side && s.start == start && s.end == end,
            None => r is None,
        },
{
    let ghost head = cs@.subrange(4, i as int);
    let j = match last_index_exec(cs, '-', 4, i) {
        Some(j) => j,
        None => return None,
    };
    assert(head.skip(j - 4 + 1) == cs@.subrange(j + 1, i as int));
    assert(head.take(j - 4) == cs@.subrange(4, j as int));
    if is_side_exec(cs, j + 1, i) {
        let path = match decode_segment(cs, 4, j) {
            Some(p) => p,
            None => return None,
        };
        let side = slice_chars(cs, j + 1, i);
        return Some(Selection { path, side: string_of(&side), start: last, end: last });
    }
    let start = match parse_line_exec(cs, j + 1, i) {
        Some(v) => v,
        None => return None,
    };
    if !safe_line(start) {
        return None;
    }
    let ghost before = cs@.subrange(4, j as int);
    let k = match last_index_exec(cs, '-', 4, j) {
        Some(k) => k,
        None => return None,
    };
    assert(before.skip(k - 4 + 1) == cs@.subrange(k + 1, j as int));
    assert(before.take(k - 4) == cs@.subrange(4, k as int));
    if !is_side_exec(cs, k + 1, j) {
        return None;
    }
    let path = match decode_segment(cs, 4, k) {
        Some(p) => p,
        None => return None,
    };
    let side = slice_chars(cs, k + 1, j);
    let lo = if start <= last {
        start
    } else {
        last
    };
    let hi = if start <= last {
        last
    } else {
        start
    };
    Some(Selection { path, side: string_of(&side), start: lo, end: hi })
}

/// The meaning of a `comment-<id>` fragment.
pub open spec fn spec_parse_comment(f: Seq<char>) -> Option<nat> {
    if f.len() >= 8 && f.take(8) == "comment-"@ {
        parse_bounded(f.skip(8), u64::MAX as nat)
    } else {
        None
    }
}

/// Parses a `comment-<id>` fragment (without the leading `#`).
pub fn parse_comment(fragment: &str) -> (r: Option<u64>)
    ensures
        match spec_parse_comment(fragment@) {
            Some(id) => r == Some(id as u64),
            None => r is None,
        },
{
    let cs = chars_of(fragment);
    let prefix = chars_of("comment-");
    proof {
        reveal_strlit("comment-");
    }
    if cs.len() < 8 {
        return None;
    }
    let head = slice_chars(&cs, 0, 8);
    assert(head@ == cs@.take(8));
    if !chars_eq(&head, &prefix) {
        return None;
    }
    assert(cs@.skip(8) == cs@.subrange(8, cs.len() as int));
    parse_u64_range(&cs, 8, cs.len())
}

} // verus!

verus! {

// ---------------------------------------------------------------------------
// Why a built fragment parses back to what it was built from.
// ---------------------------------------------------------------------------

/// Scanning leftwards from `k` meets no `c` above `m` when there is none there.
proof fn lemma_scan_to(s: Seq<char>, c: char, m: int, k: int)
    requires
        0 <= m < k <= s.len(),
        forall|t: int| m < t < k ==> s[t] != c,
    ensures
        last_index_before(s, c, k) == last_index_before(s, c, m + 1),
    decreases k,
{
    if k > m + 1 {
        lemma_scan_to(s, c, m, k - 1);
    }
}

/// In `x + "-" + tail`, with no dash in `tail`, the last dash is the one after `x`.
proof fn lemma_last_dash(x: Seq<char>, tail: Seq<char>)
    requires
        forall|t: int| 0 <= t < tail.len() ==> tail[t] != '-',
    ensures
        last_index_of(x + seq!['-'] + tail, '-') == Some(x.len() as int),
        (x + seq!['-'] + tail).take(x.len() as int) == x,
        (x + seq!['-'] + tail).skip(x.len() as int + 1) == tail,
{
    let s = x + seq!['-'] + tail;
    let m = x.len() as int;
    assert forall|t: int| m < t < s.len() implies s[t] != '-' by {
        assert(s[t] == tail[t - m - 1]);
    }
    lemma_scan_to(s, '-', m, s.len() as int);
    assert(s[m] == '-');
    assert(s.take(m) =~= x);
    assert(s.skip(m + 1) =~= tail);
}

proof fn lemma_decimal_has_no_dash(n: nat)
    ensures
        forall|t: int| 0 <= t < decimal(n).len() ==> decimal(n)[t] != '-',
        parse_line(decimal(n)) == (if n <= usize::MAX {
            Some(n)
        } else {
            None
        }),
        !is_side(decimal(n)),
{
    lemma_decimal_digits(n);
    lemma_parse_decimal(n);
    assert forall|t: int| 0 <= t < decimal(n).len() implies decimal(n)[t] != '-' by {
        assert(is_digit(decimal(n)[t]));
    }
    reveal_strlit("old");
    reveal_strlit("new");
    if decimal(n) == "old"@ {
        assert(is_digit(decimal(n)[0]));
    }
    if decimal(n) == "new"@ {
        assert(is_digit(decimal(n)[0]));
    }
}

proof fn lemma_ascii_len(s: Seq<char>)
    requires
        forall|i: int| 0 <= i < s.len() ==> ('\0' <= #[trigger] s[i] && s[i] <= '\u{7f}'),
    ensures
        vstd::utf8::encode_utf8(s).len() == s.len(),
{
    assert(vstd::utf8::is_ascii_chars(s));
    vstd::utf8::is_ascii_chars_encode_utf8(s);
}

/// The round trip, given what the base64 engine promises of the encoding.
proof fn lemma_selection_round_trip(
    path: Seq<char>,
    side: Seq<char>,
    lo: nat,
    hi: nat,
    enc: Seq<char>,
)
    requires
        enc == spec_encode_path(path),
        enc.len() > 0,
        enc.len() <= MAX_ENCODED_PATH_LEN,
        forall|i: int| 0 <= i < enc.len() ==> #[trigger] is_base64url_char(enc[i]),
        base64url_decode(enc) == Some(vstd::utf8::encode_utf8(path)),
        path.len() > 0,
        is_side(side),
        spec_safe_line(lo),
        spec_safe_line(hi),
        lo <= hi,
        lo <= usize::MAX,
        hi <= usize::MAX,
        spec_range_fragment(path, side, lo, hi).len() <= MAX_FRAGMENT_LEN,
    ensures
        spec_parse_selection(spec_range_fragment(path, side, lo, hi)) == Some((path, side, lo, hi)),
{
    broadcast use vstd::utf8::encode_utf8_valid_utf8, vstd::utf8::encode_utf8_decode_utf8;

    reveal_strlit("old");
    reveal_strlit("new");
    let f = spec_range_fragment(path, side, lo, hi);
    lemma_decimal_has_no_dash(lo);
    lemma_decimal_has_no_dash(hi);
    // Everything in the fragment is ASCII, so bytes and characters agree.
    assert forall|i: int| 0 <= i < enc.len() implies ('\0' <= #[trigger] enc[i] && enc[i]
        <= '\u{7f}') by {
        assert(is_base64url_char(enc[i]));
    }
    lemma_ascii_len(enc);
    assert(spec_decode_path(enc) == Some(path));
    let x = enc + seq!['-'] + side;
    assert forall|t: int| 0 <= t < side.len() implies side[t] != '-' by {}
    lemma_last_dash(enc, side);
    let line = sel_prefix() + x + seq!['-'] + decimal(lo);
    assert(spec_line_fragment(path, side, lo) == line);
    assert forall|i: int| 0 <= i < f.len() implies ('\0' <= #[trigger] f[i] && f[i] <= '\u{7f}') by {
        lemma_decimal_digits(lo);
        lemma_decimal_digits(hi);
        let e = enc.len() as int;
        let d = 4 + e + 1 + side.len() + 1;
        if i < 4 {
        } else if i < 4 + e {
            assert(f[i] == enc[i - 4]);
            assert(is_base64url_char(enc[i - 4]));
        } else if i < d - 1 && i > 4 + e {
            assert(f[i] == side[i - 5 - e]);
        } else if i >= d && i < d + decimal(lo).len() {
            assert(f[i] == decimal(lo)[i - d]);
            assert(is_digit(decimal(lo)[i - d]));
        } else if i > d + decimal(lo).len() {
            assert(f[i] == decimal(hi)[i - d - decimal(lo).len() - 1]);
            assert(is_digit(decimal(hi)[i - d - decimal(lo).len() - 1]));
        }
    }
    lemma_ascii_len(f);
    assert(f.take(4) =~= sel_prefix());
    if lo == hi {
        let rest = f.skip(4);
        assert(rest =~= x + seq!['-'] + decimal(lo));
        lemma_last_dash(x, decimal(lo));
        assert(rest.take(x.len() as int) == x);
        assert(rest.skip(x.len() as int + 1) == decimal(lo));
    } else {
        let y = x + seq!['-'] + decimal(lo);
        let rest = f.skip(4);
        assert(rest =~= y + seq!['-'] + decimal(hi));
        lemma_last_dash(y, decimal(hi));
        lemma_last_dash(x, decimal(lo));
        assert(rest.take(y.len() as int) == y);
        assert(rest.skip(y.len() as int + 1) == decimal(hi));
    }
}

/// Decoding what encoding produced: the path itself.
proof fn lemma_encode_nonempty(path: Seq<char>)
    requires
        path.len() > 0,
    ensures
        vstd::utf8::encode_utf8(path).len() > 0,
{
    broadcast use vstd::utf8::char_is_scalar;

}

} // verus!
