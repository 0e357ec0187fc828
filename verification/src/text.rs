//! Character-level building blocks shared by the parsers and formatters:
//! decimal numbers, ASCII classes, escaping, and conversions between `&str`
//! and the character vectors the verified code works on.

use vstd::prelude::*;

verus! {

// ---------------------------------------------------------------------------
// Conversions between strings and character vectors.
// ---------------------------------------------------------------------------

/// The characters of `s`, in order.
///
/// Trusted: `str::chars` yields exactly the Unicode scalar values the view of a
/// `str` is made of, and collecting them keeps their order.
#[verifier::external_body]
pub(crate) fn chars_of(s: &str) -> (r: Vec<char>)
    ensures
        r@ == s@,
{
    s.chars().collect()
}

/// A `String` holding exactly the characters of `v`.
///
/// Trusted: collecting characters into a `String` appends them in order.
#[verifier::external_body]
pub(crate) fn string_of(v: &Vec<char>) -> (r: String)
    ensures
        r@ == v@,
{
    v.iter().collect()
}

/// Appends the characters of `s` to `out`.
pub(crate) fn push_str(out: &mut Vec<char>, s: &str)
    ensures
        final(out)@ == old(out)@ + s@,
{
    let cs = chars_of(s);
    push_chars(out, &cs);
}

/// Appends `cs` to `out`.
pub(crate) fn push_chars(out: &mut Vec<char>, cs: &Vec<char>)
    ensures
        final(out)@ == old(out)@ + cs@,
{
    let ghost start = out@;
    let mut i: usize = 0;
    while i < cs.len()
        invariant
            i <= cs.len(),
            out@ == start + cs@.take(i as int),
        decreases cs.len() - i,
    {
        out.push(cs[i]);
        i = i + 1;
        assert(cs@.take(i as int) == cs@.take(i - 1) + seq![cs@[i - 1]]);
    }
    assert(cs@.take(cs.len() as int) == cs@);
}

// ---------------------------------------------------------------------------
// Character classes.
// ---------------------------------------------------------------------------

pub open spec fn is_digit(c: char) -> bool {
    '0' <= c && c <= '9'
}

pub open spec fn is_ascii_lower(c: char) -> bool {
    'a' <= c && c <= 'z'
}

pub open spec fn is_ascii_upper(c: char) -> bool {
    'A' <= c && c <= 'Z'
}

pub open spec fn is_ascii_alnum(c: char) -> bool {
    is_digit(c) || is_ascii_lower(c) || is_ascii_upper(c)
}

/// `char::to_ascii_lowercase`: ASCII capitals become small letters, every other
/// character is unchanged.
pub open spec fn ascii_lower(c: char) -> char {
    if is_ascii_upper(c) {
        ((c as u32) + 32) as char
    } else {
        c
    }
}

pub fn is_digit_exec(c: char) -> (r: bool)
    ensures
        r == is_digit(c),
{
    '0' <= c && c <= '9'
}

pub fn is_ascii_alnum_exec(c: char) -> (r: bool)
    ensures
        r == is_ascii_alnum(c),
{
    ('0' <= c && c <= '9') || ('a' <= c && c <= 'z') || ('A' <= c && c <= 'Z')
}

pub fn ascii_lower_exec(c: char) -> (r: char)
    ensures
        r == ascii_lower(c),
{
    if 'A' <= c && c <= 'Z' {
        let b: u8 = (c as u8) + 32;
        let r = b as char;
        assert(r == ((c as u32) + 32) as char);
        r
    } else {
        c
    }
}

// ---------------------------------------------------------------------------
// Decimal numbers.
// ---------------------------------------------------------------------------

pub open spec fn digit_char(d: nat) -> char
    recommends
        d < 10,
{
    (('0' as u32) + d) as char
}

pub open spec fn digit_value(c: char) -> nat {
    ((c as u32) - ('0' as u32)) as nat
}

/// The value of a run of decimal digits, most significant first.
pub open spec fn digits_value(s: Seq<char>) -> nat
    decreases s.len(),
{
    if s.len() == 0 {
        0
    } else {
        digits_value(s.drop_last()) * 10 + digit_value(s.last())
    }
}

pub open spec fn all_digits(s: Seq<char>) -> bool {
    forall|i: int| 0 <= i < s.len() ==> #[trigger] is_digit(s[i])
}

/// What `str::parse` reads as an unsigned integer, before the bound of the
/// target type is applied: an optional `+` followed by at least one digit.
pub open spec fn parse_unsigned(s: Seq<char>) -> Option<nat> {
    let d = if s.len() > 0 && s[0] == '+' {
        s.drop_first()
    } else {
        s
    };
    if d.len() > 0 && all_digits(d) {
        Some(digits_value(d))
    } else {
        None
    }
}

/// `str::parse` into an unsigned type whose largest value is `max`.
pub open spec fn parse_bounded(s: Seq<char>, max: nat) -> Option<nat> {
    match parse_unsigned(s) {
        Some(v) => if v <= max {
            Some(v)
        } else {
            None
        },
        None => None,
    }
}

/// The decimal form of `n`, as `Display` writes it.
pub open spec fn decimal(n: nat) -> Seq<char>
    decreases n,
{
    if n < 10 {
        seq![digit_char(n)]
    } else {
        decimal(n / 10).push(digit_char(n % 10))
    }
}

pub proof fn lemma_decimal_digits(n: nat)
    ensures
        decimal(n).len() > 0,
        all_digits(decimal(n)),
        digits_value(decimal(n)) == n,
        decimal(n)[0] != '+',
    decreases n,
{
    if n < 10 {
        assert(decimal(n) == seq![digit_char(n)]);
        let s = decimal(n);
        assert(s.drop_last() =~= Seq::<char>::empty());
        assert(digits_value(s.drop_last()) == 0);
    } else {
        lemma_decimal_digits(n / 10);
        let s = decimal(n);
        let p = decimal(n / 10);
        assert(s == p.push(digit_char(n % 10)));
        assert(s.drop_last() =~= p);
        assert forall|i: int| 0 <= i < s.len() implies #[trigger] is_digit(s[i]) by {
            if i < p.len() {
                assert(s[i] == p[i]);
            }
        }
        assert(s[0] == p[0]);
        assert((n / 10) * 10 + n % 10 == n);
    }
}

/// A decimal rendering reads back as the number it came from.
pub proof fn lemma_parse_decimal(n: nat)
    ensures
        parse_unsigned(decimal(n)) == Some(n),
{
    lemma_decimal_digits(n);
}

/// The decimal digits of `n`, as characters.
pub fn decimal_chars(n: u64) -> (r: Vec<char>)
    ensures
        r@ == decimal(n as nat),
    decreases n,
{
    if n < 10 {
        let c = digit_char_exec(n as u8);
        let mut v: Vec<char> = Vec::new();
        v.push(c);
        assert(v@ =~= seq![digit_char(n as nat)]);
        v
    } else {
        let mut v = decimal_chars(n / 10);
        let c = digit_char_exec((n % 10) as u8);
        v.push(c);
        v
    }
}

fn digit_char_exec(d: u8) -> (r: char)
    requires
        d < 10,
    ensures
        r == digit_char(d as nat),
{
    let b: u8 = 48 + d;
    let r = b as char;
    assert(r == ((('0' as u32) + d) as char));
    r
}

/// Appends the decimal form of `n` to `out`.
pub fn push_decimal(out: &mut Vec<char>, n: u64)
    ensures
        final(out)@ == old(out)@ + decimal(n as nat),
{
    let d = decimal_chars(n);
    push_chars(out, &d);
}

/// The decimal form of `n` as a `String`.
pub fn decimal_string(n: u64) -> (r: String)
    ensures
        r@ == decimal(n as nat),
{
    let d = decimal_chars(n);
    string_of(&d)
}

/// Parses `s[lo..hi]` the way `str::parse::<u64>` parses a string.
pub fn parse_u64_range(s: &Vec<char>, lo: usize, hi: usize) -> (r: Option<u64>)
    requires
        lo <= hi <= s.len(),
    ensures
        r == (match parse_bounded(s@.subrange(lo as int, hi as int), u64::MAX as nat) {
            Some(v) => Some(v as u64),
            None => None,
        }),
{
    let ghost sub = s@.subrange(lo as int, hi as int);
    let mut i = lo;
    if i < hi && s[i] == '+' {
        i = i + 1;
    }
    let ghost d = s@.subrange(i as int, hi as int);
    assert(d == (if sub.len() > 0 && sub[0] == '+' {
        sub.drop_first()
    } else {
        sub
    }));
    if i == hi {
        return None;
    }
    let start = i;
    let mut value: u64 = 0;
    let mut overflow = false;
    while i < hi
        invariant
            start <= i <= hi <= s.len(),
            sub == s@.subrange(lo as int, hi as int),
            d == s@.subrange(start as int, hi as int),
            d == (if sub.len() > 0 && sub[0] == '+' {
                sub.drop_first()
            } else {
                sub
            }),
            d.len() > 0,
            all_digits(s@.subrange(start as int, i as int)),
            !overflow ==> value as nat == digits_value(s@.subrange(start as int, i as int)),
            overflow ==> digits_value(s@.subrange(start as int, i as int)) > u64::MAX,
        decreases hi - i,
    {
        let c = s[i];
        if !is_digit_exec(c) {
            assert(d[i - start] == c);
            assert(!all_digits(d));
            return None;
        }
        let ghost prev = s@.subrange(start as int, i as int);
        let ghost next = s@.subrange(start as int, i + 1);
        assert(next.drop_last() =~= prev);
        assert(next.last() == c);
        assert forall|k: int| 0 <= k < next.len() implies #[trigger] is_digit(next[k]) by {
            if k < prev.len() {
                assert(next[k] == prev[k]);
            }
        }
        let dv: u64 = ((c as u32) - 48) as u64;
        if !overflow {
            if value > (u64::MAX - dv) / 10 {
                overflow = true;
                assert(value * 10 + dv > u64::MAX) by (nonlinear_arith)
                    requires
                        value > (u64::MAX - dv) / 10,
                        dv <= 9,
                ;
            } else {
                assert(value * 10 + dv <= u64::MAX) by (nonlinear_arith)
                    requires
                        value <= (u64::MAX - dv) / 10,
                        dv <= 9,
                ;
                value = value * 10 + dv;
            }
        } else {
            assert(digits_value(next) >= digits_value(prev)) by (nonlinear_arith)
                requires
                    digits_value(next) == digits_value(prev) * 10 + digit_value(c),
            ;
        }
        i = i + 1;
    }
    assert(s@.subrange(start as int, hi as int) == d);
    if overflow {
        None
    } else {
        Some(value)
    }
}

// ---------------------------------------------------------------------------
// Searching.
// ---------------------------------------------------------------------------

/// Whether `s` begins with `p`.
pub open spec fn starts_with(s: Seq<char>, p: Seq<char>) -> bool {
    p.len() <= s.len() && s.take(p.len() as int) == p
}

/// Whether `s` ends with `p`.
pub open spec fn ends_with(s: Seq<char>, p: Seq<char>) -> bool {
    p.len() <= s.len() && s.skip(s.len() - p.len()) == p
}

/// Whether `p` occurs in `s` starting at index `i`.
pub open spec fn occurs_at(s: Seq<char>, p: Seq<char>, i: int) -> bool {
    0 <= i && i + p.len() <= s.len() && s.subrange(i, i + p.len()) == p
}

/// Whether `p` occurs anywhere in `s`.
pub open spec fn contains(s: Seq<char>, p: Seq<char>) -> bool {
    exists|i: int| occurs_at(s, p, i)
}

pub fn starts_with_exec(s: &Vec<char>, p: &Vec<char>) -> (r: bool)
    ensures
        r == starts_with(s@, p@),
{
    occurs_at_exec(s, p, 0)
}

pub fn ends_with_exec(s: &Vec<char>, p: &Vec<char>) -> (r: bool)
    ensures
        r == ends_with(s@, p@),
{
    if p.len() > s.len() {
        return false;
    }
    let r = occurs_at_exec(s, p, s.len() - p.len());
    assert(s@.skip(s.len() - p.len()) == s@.subrange(s.len() - p.len(), s.len() as int));
    r
}

/// Whether `p` occurs in `s` at index `i`.
pub fn occurs_at_exec(s: &Vec<char>, p: &Vec<char>, i: usize) -> (r: bool)
    ensures
        r == occurs_at(s@, p@, i as int),
{
    if i > s.len() || p.len() > s.len() - i {
        return false;
    }
    let mut k: usize = 0;
    while k < p.len()
        invariant
            i + p.len() <= s.len(),
            k <= p.len(),
            forall|j: int| 0 <= j < k ==> s@[i + j] == p@[j],
        decreases p.len() - k,
    {
        if s[i + k] != p[k] {
            assert(s@.subrange(i as int, i + p.len())[k as int] != p@[k as int]);
            return false;
        }
        k = k + 1;
    }
    assert(s@.subrange(i as int, i + p.len()) =~= p@);
    true
}

pub fn contains_exec(s: &Vec<char>, p: &Vec<char>) -> (r: bool)
    ensures
        r == contains(s@, p@),
{
    let mut i: usize = 0;
    while i < s.len()
        invariant
            i <= s.len(),
            forall|j: int| 0 <= j < i ==> !occurs_at(s@, p@, j),
        decreases s.len() - i,
    {
        if occurs_at_exec(s, p, i) {
            return true;
        }
        i = i + 1;
    }
    occurs_at_exec(s, p, i)
}

// ---------------------------------------------------------------------------
// Escaping.
// ---------------------------------------------------------------------------

/// The HTML-escaped form of one character: `&`, `<` and `>` become entities.
pub open spec fn escape_char(c: char) -> Seq<char> {
    if c == '&' {
        seq!['&', 'a', 'm', 'p', ';']
    } else if c == '<' {
        seq!['&', 'l', 't', ';']
    } else if c == '>' {
        seq!['&', 'g', 't', ';']
    } else {
        seq![c]
    }
}

/// `&`, `<` and `>` replaced by their entities, everything else kept.
pub open spec fn escape_markup(s: Seq<char>) -> Seq<char>
    decreases s.len(),
{
    if s.len() == 0 {
        Seq::empty()
    } else {
        escape_markup(s.drop_last()) + escape_char(s.last())
    }
}

/// Escapes the three characters that HTML and Slack's markup treat as control
/// characters.
pub fn escape_markup_exec(text: &str) -> (r: String)
    ensures
        r@ == escape_markup(text@),
{
    let cs = chars_of(text);
    let mut out: Vec<char> = Vec::new();
    let mut i: usize = 0;
    while i < cs.len()
        invariant
            i <= cs.len(),
            out@ == escape_markup(cs@.take(i as int)),
        decreases cs.len() - i,
    {
        let c = cs[i];
        if c == '&' {
            push_str(&mut out, "&amp;");
        } else if c == '<' {
            push_str(&mut out, "&lt;");
        } else if c == '>' {
            push_str(&mut out, "&gt;");
        } else {
            out.push(c);
        }
        proof {
            reveal_strlit("&amp;");
            reveal_strlit("&lt;");
            reveal_strlit("&gt;");
            assert(cs@.take(i + 1).drop_last() == cs@.take(i as int));
        }
        i = i + 1;
    }
    assert(cs@.take(cs.len() as int) == cs@);
    string_of(&out)
}


/// One character as it stands inside a double-quoted HTML attribute.
pub open spec fn attr_char(c: char) -> Seq<char> {
    if c == '"' {
        seq!['&', 'q', 'u', 'o', 't', ';']
    } else {
        escape_char(c)
    }
}

/// `s` made safe inside a double-quoted HTML attribute: `&`, `<`, `>` and
/// `"` replaced by their entities.
pub open spec fn escape_attr(s: Seq<char>) -> Seq<char>
    decreases s.len(),
{
    if s.len() == 0 {
        Seq::empty()
    } else {
        escape_attr(s.drop_last()) + attr_char(s.last())
    }
}

/// Escapes text for a double-quoted HTML attribute.
pub fn escape_attr_exec(text: &str) -> (r: String)
    ensures
        r@ == escape_attr(text@),
{
    let cs = chars_of(text);
    let mut out: Vec<char> = Vec::new();
    let mut i: usize = 0;
    while i < cs.len()
        invariant
            i <= cs.len(),
            out@ == escape_attr(cs@.take(i as int)),
        decreases cs.len() - i,
    {
        let c = cs[i];
        if c == '&' {
            push_str(&mut out, "&amp;");
        } else if c == '<' {
            push_str(&mut out, "&lt;");
        } else if c == '>' {
            push_str(&mut out, "&gt;");
        } else if c == '"' {
            push_str(&mut out, "&quot;");
        } else {
            out.push(c);
        }
        proof {
            reveal_strlit("&amp;");
            reveal_strlit("&lt;");
            reveal_strlit("&gt;");
            reveal_strlit("&quot;");
            assert(cs@.take(i + 1).drop_last() == cs@.take(i as int));
        }
        i = i + 1;
    }
    assert(cs@.take(cs.len() as int) == cs@);
    string_of(&out)
}

} // verus!

verus! {

/// Whether two character vectors hold the same characters.
pub fn chars_eq(a: &Vec<char>, b: &Vec<char>) -> (r: bool)
    ensures
        r == (a@ == b@),
{
    if a.len() != b.len() {
        return false;
    }
    let mut i: usize = 0;
    while i < a.len()
        invariant
            a.len() == b.len(),
            i <= a.len(),
            forall|j: int| 0 <= j < i ==> a@[j] == b@[j],
        decreases a.len() - i,
    {
        if a[i] != b[i] {
            return false;
        }
        i = i + 1;
    }
    assert(a@ =~= b@);
    true
}

/// The characters `v[lo..hi]` as a new vector.
pub fn slice_chars(v: &Vec<char>, lo: usize, hi: usize) -> (r: Vec<char>)
    requires
        lo <= hi <= v.len(),
    ensures
        r@ == v@.subrange(lo as int, hi as int),
{
    let mut out: Vec<char> = Vec::new();
    let mut i = lo;
    while i < hi
        invariant
            lo <= i <= hi <= v.len(),
            out@ == v@.subrange(lo as int, i as int),
        decreases hi - i,
    {
        out.push(v[i]);
        i = i + 1;
        assert(out@ =~= v@.subrange(lo as int, i as int));
    }
    out
}

/// The `Debug` rendering of a string: quoted, with quotes, backslashes and
/// unprintable characters escaped.
pub uninterp spec fn debug_quoted(s: Seq<char>) -> Seq<char>;

/// `format!("{:?}", s)`.
///
/// Trusted: std's `Debug` for `str` is a function of the string alone; its
/// escaping rules are not restated here, only named.
#[verifier::external_body]
pub(crate) fn debug_str(s: &str) -> (r: String)
    ensures
        r@ == debug_quoted(s@),
{
    format!("{:?}", s)
}

} // verus!

verus! {

/// How many bytes the UTF-8 encoding of `c` takes.
pub open spec fn utf8_width(c: char) -> nat {
    if (c as u32) <= 0x7F {
        1
    } else if (c as u32) <= 0x7FF {
        2
    } else if (c as u32) <= 0xFFFF {
        3
    } else {
        4
    }
}

pub proof fn lemma_encode_push_len(s: Seq<char>, c: char)
    ensures
        vstd::utf8::encode_utf8(s.push(c)).len() == vstd::utf8::encode_utf8(s).len() + utf8_width(c),
    decreases s.len(),
{
    broadcast use vstd::utf8::char_is_scalar;
    let t = s.push(c);
    if s.len() == 0 {
        assert(t.drop_first() =~= Seq::<char>::empty());
        assert(vstd::utf8::encode_utf8(t.drop_first()) =~= Seq::<u8>::empty());
    } else {
        assert(t.drop_first() =~= s.drop_first().push(c));
        lemma_encode_push_len(s.drop_first(), c);
    }
}

/// Whether the UTF-8 encoding of `cs` is longer than `limit` bytes: what
/// `str::len() > limit` asks of the string the characters came from.
pub fn utf8_len_exceeds(cs: &Vec<char>, limit: usize) -> (r: bool)
    requires
        limit <= usize::MAX - 4,
    ensures
        r == (vstd::utf8::encode_utf8(cs@).len() > limit),
{
    let mut total: usize = 0;
    let mut i: usize = 0;
    assert(cs@.take(0) =~= Seq::<char>::empty());
    while i < cs.len()
        invariant
            i <= cs.len(),
            limit <= usize::MAX - 4,
            total <= limit,
            total == vstd::utf8::encode_utf8(cs@.take(i as int)).len(),
        decreases cs.len() - i,
    {
        let c = cs[i];
        let v = c as u32;
        let w: usize = if v <= 0x7F {
            1
        } else if v <= 0x7FF {
            2
        } else if v <= 0xFFFF {
            3
        } else {
            4
        };
        proof {
            assert(cs@.take(i + 1) == cs@.take(i as int).push(c));
            lemma_encode_push_len(cs@.take(i as int), c);
        }
        if total + w > limit {
            proof {
                lemma_encode_prefix_len(cs@, i + 1);
            }
            return true;
        }
        total = total + w;
        i = i + 1;
    }
    assert(cs@.take(cs.len() as int) == cs@);
    false
}

/// The length in bytes of the UTF-8 encoding of `cs`: `str::len` of the
/// string the characters came from.
pub fn utf8_len(cs: &Vec<char>) -> (r: usize)
    requires
        vstd::utf8::encode_utf8(cs@).len() <= usize::MAX,
    ensures
        r == vstd::utf8::encode_utf8(cs@).len(),
{
    let mut total: usize = 0;
    let mut i: usize = 0;
    assert(cs@.take(0) =~= Seq::<char>::empty());
    while i < cs.len()
        invariant
            i <= cs.len(),
            vstd::utf8::encode_utf8(cs@).len() <= usize::MAX,
            total == vstd::utf8::encode_utf8(cs@.take(i as int)).len(),
        decreases cs.len() - i,
    {
        let c = cs[i];
        let v = c as u32;
        let w: usize = if v <= 0x7F {
            1
        } else if v <= 0x7FF {
            2
        } else if v <= 0xFFFF {
            3
        } else {
            4
        };
        proof {
            assert(cs@.take(i + 1) == cs@.take(i as int).push(c));
            lemma_encode_push_len(cs@.take(i as int), c);
            lemma_encode_prefix_len(cs@, i + 1);
        }
        total = total + w;
        i = i + 1;
    }
    assert(cs@.take(cs.len() as int) == cs@);
    total
}

/// The encoding of a prefix is no longer than the encoding of the whole.
pub proof fn lemma_encode_prefix_len(s: Seq<char>, n: int)
    requires
        0 <= n <= s.len(),
    ensures
        vstd::utf8::encode_utf8(s.take(n)).len() <= vstd::utf8::encode_utf8(s).len(),
    decreases s.len() - n,
{
    if n < s.len() {
        lemma_encode_prefix_len(s, n + 1);
        assert(s.take(n + 1) == s.take(n).push(s[n]));
        lemma_encode_push_len(s.take(n), s[n]);
    } else {
        assert(s.take(n) == s);
    }
}

} // verus!

verus! {

// ---------------------------------------------------------------------------
// Whitespace and trimming.
// ---------------------------------------------------------------------------

/// `char::is_whitespace`: the Unicode `White_Space` property.
pub open spec fn is_whitespace(c: char) -> bool {
    let v = c as u32;
    (0x09 <= v && v <= 0x0D) || v == 0x20 || v == 0x85 || v == 0xA0 || v == 0x1680 || (0x2000 <= v
        && v <= 0x200A) || v == 0x2028 || v == 0x2029 || v == 0x202F || v == 0x205F || v == 0x3000
}

pub fn is_whitespace_exec(c: char) -> (r: bool)
    ensures
        r == is_whitespace(c),
{
    let v = c as u32;
    (0x09 <= v && v <= 0x0D) || v == 0x20 || v == 0x85 || v == 0xA0 || v == 0x1680 || (0x2000 <= v
        && v <= 0x200A) || v == 0x2028 || v == 0x2029 || v == 0x202F || v == 0x205F || v == 0x3000
}

/// `str::trim_start`.
pub open spec fn trim_start(s: Seq<char>) -> Seq<char>
    decreases s.len(),
{
    if s.len() > 0 && is_whitespace(s[0]) {
        trim_start(s.drop_first())
    } else {
        s
    }
}

/// `str::trim_end`.
pub open spec fn trim_end(s: Seq<char>) -> Seq<char>
    decreases s.len(),
{
    if s.len() > 0 && is_whitespace(s.last()) {
        trim_end(s.drop_last())
    } else {
        s
    }
}

/// `str::trim`.
pub open spec fn trim(s: Seq<char>) -> Seq<char> {
    trim_end(trim_start(s))
}

/// The bounds of `trim(s[lo..hi])` within `s`.
pub fn trim_bounds(s: &Vec<char>, lo: usize, hi: usize) -> (r: (usize, usize))
    requires
        lo <= hi <= s.len(),
    ensures
        lo <= r.0 <= r.1 <= hi,
        s@.subrange(r.0 as int, r.1 as int) == trim(s@.subrange(lo as int, hi as int)),
{
    let mut a = lo;
    while a < hi && is_whitespace_exec(s[a])
        invariant
            lo <= a <= hi <= s.len(),
            trim_start(s@.subrange(a as int, hi as int)) == trim_start(
                s@.subrange(lo as int, hi as int),
            ),
        decreases hi - a,
    {
        assert(s@.subrange(a as int, hi as int).drop_first() == s@.subrange(a + 1, hi as int));
        a = a + 1;
    }
    let mut b = hi;
    while b > a && is_whitespace_exec(s[b - 1])
        invariant
            lo <= a <= b <= hi <= s.len(),
            trim_end(s@.subrange(a as int, b as int)) == trim_end(s@.subrange(a as int, hi as int)),
        decreases b,
    {
        assert(s@.subrange(a as int, b as int).drop_last() == s@.subrange(a as int, b - 1));
        b = b - 1;
    }
    (a, b)
}

pub fn trim_chars(s: &Vec<char>) -> (r: Vec<char>)
    ensures
        r@ == trim(s@),
{
    let (a, b) = trim_bounds(s, 0, s.len());
    assert(s@.subrange(0, s.len() as int) == s@);
    slice_chars(s, a, b)
}

// ---------------------------------------------------------------------------
// Lines and splitting.
// ---------------------------------------------------------------------------

/// The first index at or after `k` where `p` occurs in `s`.
pub open spec fn find_from(s: Seq<char>, p: Seq<char>, k: int) -> Option<int>
    decreases s.len() + 1 - k,
{
    if k < 0 || k + p.len() > s.len() {
        None
    } else if s.subrange(k, k + p.len()) == p {
        Some(k)
    } else {
        find_from(s, p, k + 1)
    }
}

/// The first occurrence of `p` in `s`.
pub open spec fn find(s: Seq<char>, p: Seq<char>) -> Option<int> {
    find_from(s, p, 0)
}

pub proof fn lemma_find_from_bounds(s: Seq<char>, p: Seq<char>, k: int)
    ensures
        find_from(s, p, k) matches Some(i) ==> k <= i && i + p.len() <= s.len() && s.subrange(
            i,
            i + p.len(),
        ) == p,
    decreases s.len() + 1 - k,
{
    if !(k < 0 || k + p.len() > s.len()) && s.subrange(k, k + p.len()) != p {
        lemma_find_from_bounds(s, p, k + 1);
    }
}

/// The first occurrence of `p` in `s[lo..hi]`, as an index into `s`.
pub fn find_exec(s: &Vec<char>, p: &Vec<char>, lo: usize, hi: usize) -> (r: Option<usize>)
    requires
        lo <= hi <= s.len(),
    ensures
        r is None <==> find(s@.subrange(lo as int, hi as int), p@) is None,
        r matches Some(i) ==> lo <= i && i + p.len() <= hi && find(
            s@.subrange(lo as int, hi as int),
            p@,
        ) == Some(i - lo),
{
    let ghost t = s@.subrange(lo as int, hi as int);
    if p.len() > hi - lo {
        return None;
    }
    let last = hi - p.len();
    let mut k = lo;
    loop
        invariant
            lo <= k <= last,
            last == hi - p.len(),
            hi <= s.len(),
            t == s@.subrange(lo as int, hi as int),
            find_from(t, p@, k - lo) == find_from(t, p@, 0),
        decreases last - k,
    {
        let sub = slice_chars(s, k, k + p.len());
        assert(t.subrange(k - lo, k - lo + p.len()) == sub@);
        if chars_eq(&sub, p) {
            return Some(k);
        }
        if k == last {
            assert(find_from(t, p@, k - lo + 1) is None);
            return None;
        }
        k = k + 1;
    }
}

/// `str::split(p)` for a non-empty pattern: the pieces between left-to-right,
/// non-overlapping occurrences of `p`.
pub open spec fn split_on(s: Seq<char>, p: Seq<char>) -> Seq<Seq<char>>
    decreases s.len(),
{
    match find(s, p) {
        None => seq![s],
        Some(i) => if p.len() > 0 && i + p.len() <= s.len() && 0 <= i {
            seq![s.take(i)] + split_on(s.skip(i + p.len()), p)
        } else {
            seq![s]
        },
    }
}

/// The views of a vector of character vectors.
pub open spec fn views(v: Seq<Vec<char>>) -> Seq<Seq<char>> {
    v.map_values(|x: Vec<char>| x@)
}

/// Splits `s` on every non-overlapping occurrence of `p`, left to right.
pub fn split_exec(s: &Vec<char>, p: &Vec<char>) -> (r: Vec<Vec<char>>)
    requires
        p.len() > 0,
    ensures
        views(r@) == split_on(s@, p@),
{
    let mut out: Vec<Vec<char>> = Vec::new();
    let mut start: usize = 0;
    assert(s@.skip(0) == s@);
    assert(views(out@) =~= Seq::<Seq<char>>::empty());
    while start <= s.len()
        invariant
            p.len() > 0,
            start <= s.len(),
            split_on(s@, p@) == views(out@) + split_on(s@.skip(start as int), p@),
        decreases s.len() + 1 - start,
    {
        let ghost rest = s@.skip(start as int);
        assert(rest == s@.subrange(start as int, s.len() as int));
        match find_exec(s, p, start, s.len()) {
            None => {
                let piece = slice_chars(s, start, s.len());
                out.push(piece);
                assert(views(out@) =~= views(out@.drop_last()) + seq![piece@]);
                assert(split_on(rest, p@) == seq![rest]);
                return out;
            },
            Some(i) => {
                proof {
                    lemma_find_from_bounds(rest, p@, 0);
                }
                let piece = slice_chars(s, start, i);
                assert(piece@ == rest.take(i - start));
                assert(rest.skip(i - start + p.len()) == s@.skip(i + p.len()));
                out.push(piece);
                assert(views(out@) =~= views(out@.drop_last()) + seq![piece@]);
                start = i + p.len();
            },
        }
    }
    out
}

/// One line of `str::lines`: a trailing `\r` is dropped when a `\n` follows it.
pub open spec fn strip_cr(line: Seq<char>) -> Seq<char> {
    if line.len() > 0 && line.last() == '\r' {
        line.drop_last()
    } else {
        line
    }
}

/// `str::lines`: pieces between `\n`s, with `\r\n` line endings and the final
/// line ending removed.
pub open spec fn lines_of(s: Seq<char>) -> Seq<Seq<char>>
    decreases s.len(),
{
    if s.len() == 0 {
        Seq::empty()
    } else {
        match find(s, seq!['\n']) {
            None => seq![s],
            Some(i) => if 0 <= i < s.len() {
                seq![strip_cr(s.take(i))] + lines_of(s.skip(i + 1))
            } else {
                seq![s]
            },
        }
    }
}

/// The lines of `s`, as `str::lines` yields them.
pub fn lines_exec(s: &Vec<char>) -> (r: Vec<Vec<char>>)
    ensures
        views(r@) == lines_of(s@),
{
    let mut out: Vec<Vec<char>> = Vec::new();
    let mut nl: Vec<char> = Vec::new();
    nl.push('\n');
    let mut start: usize = 0;
    assert(s@.skip(0) == s@);
    while start < s.len()
        invariant
            nl@ == seq!['\n'],
            start <= s.len(),
            lines_of(s@) == views(out@) + lines_of(s@.skip(start as int)),
        decreases s.len() - start,
    {
        let ghost rest = s@.skip(start as int);
        assert(rest == s@.subrange(start as int, s.len() as int));
        match find_exec(s, &nl, start, s.len()) {
            None => {
                let piece = slice_chars(s, start, s.len());
                out.push(piece);
                assert(views(out@) =~= views(out@.drop_last()) + seq![piece@]);
                assert(s@.skip(s.len() as int) =~= Seq::<char>::empty());
                start = s.len();
            },
            Some(i) => {
                proof {
                    lemma_find_from_bounds(rest, nl@, 0);
                }
                let mut end = i;
                if end > start && s[end - 1] == '\r' {
                    end = end - 1;
                }
                let piece = slice_chars(s, start, end);
                assert(piece@ == strip_cr(rest.take(i - start)));
                assert(rest.skip(i - start + 1) == s@.skip(i + 1));
                out.push(piece);
                assert(views(out@) =~= views(out@.drop_last()) + seq![piece@]);
                start = i + 1;
            },
        }
    }
    assert(s@.skip(start as int) =~= Seq::<char>::empty());
    out
}

} // verus!

verus! {

/// `parts.join(sep)`.
pub open spec fn join(parts: Seq<Seq<char>>, sep: Seq<char>) -> Seq<char>
    decreases parts.len(),
{
    if parts.len() == 0 {
        Seq::empty()
    } else if parts.len() == 1 {
        parts[0]
    } else {
        join(parts.drop_last(), sep) + sep + parts.last()
    }
}

/// Joins `parts` with `sep` between them.
pub fn join_exec(parts: &Vec<Vec<char>>, sep: &str) -> (r: Vec<char>)
    ensures
        r@ == join(views(parts@), sep@),
{
    let mut out: Vec<char> = Vec::new();
    let mut i: usize = 0;
    while i < parts.len()
        invariant
            i <= parts.len(),
            out@ == join(views(parts@).take(i as int), sep@),
        decreases parts.len() - i,
    {
        let ghost before = views(parts@).take(i as int);
        let ghost after = views(parts@).take(i + 1);
        assert(after.drop_last() == before);
        assert(after.last() == parts@[i as int]@);
        if i > 0 {
            push_str(&mut out, sep);
        } else {
            assert(after =~= seq![parts@[0]@]);
        }
        push_chars(&mut out, &parts[i]);
        i = i + 1;
    }
    assert(views(parts@).take(parts.len() as int) == views(parts@));
    out
}

} // verus!

verus! {

/// Parses `s[lo..hi]` the way `str::parse::<usize>` parses a string.
pub fn parse_usize_range(s: &Vec<char>, lo: usize, hi: usize) -> (r: Option<usize>)
    requires
        lo <= hi <= s.len(),
    ensures
        r == (match parse_bounded(s@.subrange(lo as int, hi as int), usize::MAX as nat) {
            Some(v) => Some(v as usize),
            None => None,
        }),
{
    match parse_u64_range(s, lo, hi) {
        Some(v) => {
            if v as u128 <= usize::MAX as u128 {
                Some(v as usize)
            } else {
                None
            }
        },
        None => None,
    }
}

/// Whether `s` holds exactly the characters of `lit`.
pub fn eq_lit(s: &Vec<char>, lit: &str) -> (r: bool)
    ensures
        r == (s@ == lit@),
{
    let l = chars_of(lit);
    chars_eq(s, &l)
}

/// Whether `s` starts with `lit`.
pub fn starts_with_lit(s: &Vec<char>, lit: &str) -> (r: bool)
    ensures
        r == starts_with(s@, lit@),
{
    let l = chars_of(lit);
    starts_with_exec(s, &l)
}

/// Whether `s` ends with `lit`.
pub fn ends_with_lit(s: &Vec<char>, lit: &str) -> (r: bool)
    ensures
        r == ends_with(s@, lit@),
{
    let l = chars_of(lit);
    ends_with_exec(s, &l)
}

/// Whether `lit` occurs in `s`.
pub fn contains_lit(s: &Vec<char>, lit: &str) -> (r: bool)
    ensures
        r == contains(s@, lit@),
{
    let l = chars_of(lit);
    contains_exec(s, &l)
}

/// `s` with ASCII letters lowered (`to_ascii_lowercase`).
pub open spec fn lower(s: Seq<char>) -> Seq<char> {
    s.map_values(|c: char| ascii_lower(c))
}

pub fn lower_chars(s: &Vec<char>) -> (r: Vec<char>)
    ensures
        r@ == lower(s@),
{
    let mut out: Vec<char> = Vec::new();
    let mut i: usize = 0;
    while i < s.len()
        invariant
            i <= s.len(),
            out@ == lower(s@).take(i as int),
        decreases s.len() - i,
    {
        out.push(ascii_lower_exec(s[i]));
        i = i + 1;
        assert(out@ =~= lower(s@).take(i as int));
    }
    assert(lower(s@).take(i as int) =~= lower(s@));
    out
}

/// `p` without the trailing separators and `.` components that a path's
/// last component is read past.
pub open spec fn trim_tail(p: Seq<char>) -> Seq<char>
    decreases p.len(),
{
    if p.len() > 0 && p.last() == '/' {
        trim_tail(p.drop_last())
    } else if p.len() >= 2 && p.last() == '.' && p[p.len() - 2] == '/' {
        trim_tail(p.drop_last())
    } else {
        p
    }
}

/// What follows the last `/` of `q` (all of it when there is none).
pub open spec fn last_segment(q: Seq<char>) -> Seq<char>
    decreases q.len(),
{
    if q.len() == 0 {
        q
    } else if q.last() == '/' {
        Seq::empty()
    } else {
        last_segment(q.drop_last()).push(q.last())
    }
}

/// The last component of a path, as `Path::file_name` reads it on Unix:
/// the last segment once trailing `/` and `.` are read past; nothing when
/// that is empty (the root, or no path), `.` or `..`.
pub open spec fn path_file_name(p: Seq<char>) -> Option<Seq<char>> {
    let s = last_segment(trim_tail(p));
    if s.len() == 0 || s == seq!['.'] || s == seq!['.', '.'] {
        None
    } else {
        Some(s)
    }
}

/// The extension of a file name: what follows its last `.`, unless there is
/// none or the only one starts the name.
pub open spec fn name_extension(n: Seq<char>) -> Option<Seq<char>>
    decreases n.len(),
{
    if n.len() == 0 {
        None
    } else if n.last() == '.' {
        if n.len() == 1 {
            None
        } else {
            Some(Seq::empty())
        }
    } else {
        match name_extension(n.drop_last()) {
            Some(e) => Some(e.push(n.last())),
            None => None,
        }
    }
}

/// The extension of a path's file name, as `Path::extension` reads it.
pub open spec fn path_extension(p: Seq<char>) -> Option<Seq<char>> {
    match path_file_name(p) {
        Some(n) => name_extension(n),
        None => None,
    }
}

/// ASCII lowercasing keeps every `/` and `.` and makes no new one.
proof fn lower_keeps_marks(c: char)
    ensures
        (ascii_lower(c) == '/') == (c == '/'),
        (ascii_lower(c) == '.') == (c == '.'),
        ascii_lower(ascii_lower(c)) == ascii_lower(c),
{
}

proof fn lower_drop_last(p: Seq<char>)
    requires
        p.len() > 0,
    ensures
        lower(p).drop_last() == lower(p.drop_last()),
        lower(p).last() == ascii_lower(p.last()),
        lower(p).len() == p.len(),
{
    assert(lower(p).drop_last() =~= lower(p.drop_last()));
}

proof fn lower_trim_tail(p: Seq<char>)
    ensures
        trim_tail(lower(p)) == lower(trim_tail(p)),
    decreases p.len(),
{
    if p.len() > 0 {
        lower_drop_last(p);
        lower_keeps_marks(p.last());
        if p.len() >= 2 {
            lower_keeps_marks(p[p.len() - 2]);
            assert(lower(p)[p.len() - 2] == ascii_lower(p[p.len() - 2]));
        }
        lower_trim_tail(p.drop_last());
    }
}

proof fn lower_last_segment(q: Seq<char>)
    ensures
        last_segment(lower(q)) == lower(last_segment(q)),
    decreases q.len(),
{
    if q.len() > 0 {
        lower_drop_last(q);
        lower_keeps_marks(q.last());
        lower_last_segment(q.drop_last());
        if q.last() != '/' {
            assert(lower(last_segment(q.drop_last()).push(q.last())) =~= lower(last_segment(q.drop_last())).push(
                ascii_lower(q.last()),
            ));
        } else {
            assert(lower(Seq::<char>::empty()) =~= Seq::<char>::empty());
        }
    } else {
        assert(lower(q) =~= q);
    }
}

/// Lowercasing a name lowercases its extension and moves no dot.
pub proof fn lower_name_extension(n: Seq<char>)
    ensures
        name_extension(lower(n)) == (match name_extension(n) {
            Some(e) => Some(lower(e)),
            None => None,
        }),
    decreases n.len(),
{
    if n.len() > 0 {
        lower_drop_last(n);
        lower_keeps_marks(n.last());
        lower_name_extension(n.drop_last());
        if n.last() == '.' {
            assert(lower(Seq::<char>::empty()) =~= Seq::<char>::empty());
        } else {
            match name_extension(n.drop_last()) {
                Some(e) => {
                    assert(lower(e.push(n.last())) =~= lower(e).push(ascii_lower(n.last())));
                },
                None => {},
            }
        }
    }
}

/// Lowercasing a path lowercases its file name and its extension: the
/// separators and dots that delimit them are where they were.
pub proof fn lower_path_parts(p: Seq<char>)
    ensures
        path_file_name(lower(p)) == (match path_file_name(p) {
            Some(n) => Some(lower(n)),
            None => None,
        }),
        path_extension(lower(p)) == (match path_extension(p) {
            Some(e) => Some(lower(e)),
            None => None,
        }),
{
    lower_trim_tail(p);
    lower_last_segment(trim_tail(p));
    let s = last_segment(trim_tail(p));
    let t = lower(s);
    assert(t.len() == s.len());
    if s.len() == 1 {
        lower_keeps_marks(s[0]);
        assert(t[0] == ascii_lower(s[0]));
        assert(seq!['.'][0] == '.');
        if s[0] == '.' {
            assert(s =~= seq!['.']);
            assert(t =~= seq!['.']);
        } else {
            assert(t[0] != '.');
        }
    }
    if s.len() == 2 {
        lower_keeps_marks(s[0]);
        lower_keeps_marks(s[1]);
        assert(t[0] == ascii_lower(s[0]));
        assert(t[1] == ascii_lower(s[1]));
        assert(seq!['.', '.'][0] == '.' && seq!['.', '.'][1] == '.');
        if s[0] == '.' && s[1] == '.' {
            assert(s =~= seq!['.', '.']);
            assert(t =~= seq!['.', '.']);
        } else {
            assert(t[0] != '.' || t[1] != '.');
        }
    }
    if s.len() != 1 {
        assert(t != seq!['.'] && s != seq!['.']);
    }
    if s.len() != 2 {
        assert(t != seq!['.', '.'] && s != seq!['.', '.']);
    }
    lower_name_extension(s);
}

/// Lowercasing twice is lowercasing once.
pub proof fn lower_idempotent(s: Seq<char>)
    ensures
        lower(lower(s)) == lower(s),
{
    assert forall|i: int| 0 <= i < s.len() implies #[trigger] lower(lower(s))[i] == lower(s)[i] by {
        lower_keeps_marks(s[i]);
    }
    assert(lower(lower(s)) =~= lower(s));
}

/// `Path::new(p).file_name()`, as a string.
///
/// Trusted: std parses Unix paths as `path_file_name` states (separators,
/// `.` components skipped, `..` and the root giving no name).
#[verifier::external_body]
pub(crate) fn file_name_of(p: &str) -> (r: Option<String>)
    ensures
        crate::zellij_origin::opt_view(r) == path_file_name(p@),
{
    match std::path::Path::new(p).file_name() {
        Some(n) => n.to_str().map(|t| t.to_owned()),
        None => None,
    }
}

/// `Path::new(p).extension()`, as a string.
///
/// Trusted: std splits the file name at its last dot as `name_extension`
/// states.
#[verifier::external_body]
pub(crate) fn extension_of(p: &str) -> (r: Option<String>)
    ensures
        crate::zellij_origin::opt_view(r) == path_extension(p@),
{
    match std::path::Path::new(p).extension() {
        Some(n) => n.to_str().map(|t| t.to_owned()),
        None => None,
    }
}

/// The strings `v[lo..hi]` joined by newlines.
pub fn join_lines_range(v: &Vec<String>, lo: usize, hi: usize) -> (r: String)
    requires
        lo <= hi <= v.len(),
    ensures
        r@ == join(crate::session::strings_view(v@).subrange(lo as int, hi as int), seq!['\n']),
{
    let ghost parts = crate::session::strings_view(v@).subrange(lo as int, hi as int);
    let mut out: Vec<char> = Vec::new();
    let mut i: usize = lo;
    while i < hi
        invariant
            lo <= i <= hi <= v.len(),
            parts == crate::session::strings_view(v@).subrange(lo as int, hi as int),
            out@ == join(parts.take(i - lo), seq!['\n']),
        decreases hi - i,
    {
        let ghost before = parts.take(i - lo);
        let ghost after = parts.take(i - lo + 1);
        assert(after.drop_last() == before);
        assert(after.last() == v@[i as int]@);
        if i > lo {
            out.push('\n');
        } else {
            assert(after =~= seq![v@[i as int]@]);
        }
        let cs = chars_of(v[i].as_str());
        push_chars(&mut out, &cs);
        assert(out@ == join(after, seq!['\n']));
        i = i + 1;
    }
    assert(parts.take(hi - lo) =~= parts);
    string_of(&out)
}

/// An optional string slice, as characters.
pub open spec fn str_opt_view(o: Option<&str>) -> Option<Seq<char>> {
    match o {
        Some(s) => Some(s@),
        None => None,
    }
}

} // verus!
