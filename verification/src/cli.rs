//! The small texts and values the command line builds: titles, counts, port
//! ranges and wait labels. Argument parsing and I/O are done around the
//! library.

use vstd::prelude::*;

use crate::session::Content;
use crate::text::{chars_of, decimal, find, push_decimal, push_str, string_of, trim};

verus! {

/// The title a session gets when none is given: the file's label for one
/// file, else how many files of what kind.
pub open spec fn spec_default_title(labels: Seq<Seq<char>>, kind: Seq<char>) -> Seq<char> {
    if labels.len() == 1 {
        labels[0]
    } else {
        decimal(labels.len()) + seq![' '] + kind + " files"@
    }
}

/// The title a session gets when none is given.
pub fn default_title(labels: &Vec<String>, kind: &str) -> (r: String)
    ensures
        r@ == spec_default_title(crate::session::strings_view(labels@), kind@),
{
    if labels.len() == 1 {
        return labels[0].clone();
    }
    let mut out: Vec<char> = Vec::new();
    push_decimal(&mut out, labels.len() as u64);
    out.push(' ');
    push_str(&mut out, kind);
    push_str(&mut out, " files");
    string_of(&out)
}

/// `count` of `noun`, pluralised with an `s` unless there is exactly one.
pub fn summarize(count: usize, noun: &str) -> (r: String)
    ensures
        r@ == decimal(count as nat) + seq![' '] + noun@ + if count == 1 {
            Seq::<char>::empty()
        } else {
            seq!['s']
        },
{
    let mut out: Vec<char> = Vec::new();
    push_decimal(&mut out, count as u64);
    out.push(' ');
    push_str(&mut out, noun);
    if count != 1 {
        out.push('s');
    }
    string_of(&out)
}

/// What `parse_range` gives: `low-high` with `low <= high`; a bare port is
/// refused.
pub open spec fn spec_parse_range(value: Seq<char>) -> Result<(u16, u16), Seq<char>> {
    let t = trim(value);
    match find(t, seq!['-']) {
        None => Err("expected a range like 3000-3010"@),
        Some(i) => match crate::config::port_of(trim(t.take(i))) {
            None => Err("invalid low port"@),
            Some(low) => match crate::config::port_of(trim(t.skip(i + 1))) {
                None => Err("invalid high port"@),
                Some(high) => if low <= high {
                    Ok((low, high))
                } else {
                    Err("range "@ + crate::text::debug_quoted(value) + " is inverted"@)
                },
            },
        },
    }
}

/// Parses a `--ports` range such as `3000-3010`.
pub fn parse_range(value: &str) -> (r: Result<(u16, u16), String>)
    ensures
        match r {
            Ok(p) => spec_parse_range(value@) == Ok::<(u16, u16), Seq<char>>(p),
            Err(e) => spec_parse_range(value@) == Err::<(u16, u16), Seq<char>>(e@),
        },
{
    let t = crate::text::trim_chars(&chars_of(value));
    let mut dash: Vec<char> = Vec::new();
    dash.push('-');
    assert(dash@ =~= seq!['-']);
    assert(t@.subrange(0, t.len() as int) =~= t@);
    let i = match crate::text::find_exec(&t, &dash, 0, t.len()) {
        Some(i) => i,
        None => {
            return Err("expected a range like 3000-3010".to_owned());
        },
    };
    proof {
        crate::text::lemma_find_from_bounds(t@, seq!['-'], 0);
    }
    assert(t@.subrange(0, i as int) =~= t@.take(i as int));
    assert(t@.subrange(i + 1, t.len() as int) =~= t@.skip(i + 1));
    let low = match port_within(&t, 0, i) {
        Some(p) => p,
        None => {
            return Err("invalid low port".to_owned());
        },
    };
    let high = match port_within(&t, i + 1, t.len()) {
        Some(p) => p,
        None => {
            return Err("invalid high port".to_owned());
        },
    };
    if low <= high {
        Ok((low, high))
    } else {
        let q = crate::text::debug_str(value);
        let mut msg = chars_of("range ");
        push_str(&mut msg, q.as_str());
        push_str(&mut msg, " is inverted");
        Err(string_of(&msg))
    }
}

fn port_within(s: &Vec<char>, lo: usize, hi: usize) -> (r: Option<u16>)
    requires
        lo <= hi <= s.len(),
    ensures
        r == crate::config::port_of(trim(s@.subrange(lo as int, hi as int))),
{
    let (a, b) = crate::text::trim_bounds(s, lo, hi);
    match crate::text::parse_u64_range(s, a, b) {
        Some(v) => if v <= 65535 {
            Some(v as u16)
        } else {
            None
        },
        None => None,
    }
}

/// How a wait is described: a bounded number of seconds, or `forever`.
pub fn timeout_label(timeout: Option<u64>) -> (r: String)
    ensures
        r@ == match timeout {
            Some(s) => decimal(s as nat) + seq!['s'],
            None => "forever"@,
        },
{
    match timeout {
        Some(s) => {
            let mut out: Vec<char> = Vec::new();
            push_decimal(&mut out, s);
            out.push('s');
            string_of(&out)
        },
        None => "forever".to_owned(),
    }
}

/// The labels of a session's files, for printing their anchors.
pub fn content_file_labels(content: &Content) -> (r: Vec<String>)
    ensures
        match content {
            Content::Code { files } => crate::session::strings_view(r@)
                == crate::server::code_labels(files@),
            Content::Docs { files } => crate::session::strings_view(r@)
                == crate::server::doc_labels(files@),
            Content::Diff { files } => crate::session::strings_view(r@)
                == crate::server::diff_labels(files@),
            _ => r@.len() == 0,
        },
{
    crate::server::content_labels(content)
}


/// The title of a diff session when none is given: the one file's label, or
/// how many files changed.
pub fn diff_title(labels: &Vec<String>) -> (r: String)
    ensures
        r@ == (if labels@.len() == 1 {
            labels@[0]@
        } else {
            decimal(labels@.len() as nat) + " changed files"@
        }),
{
    if labels.len() == 1 {
        return labels[0].clone();
    }
    let mut out: Vec<char> = Vec::new();
    push_decimal(&mut out, labels.len() as u64);
    push_str(&mut out, " changed files");
    string_of(&out)
}

/// The title of a presentation when none is given.
pub fn presentation_title(count: usize) -> (r: String)
    ensures
        r@ == decimal(count as nat) + " wdyt "@ + if count == 1 {
            "session"@
        } else {
            "sessions"@
        },
{
    let mut out: Vec<char> = Vec::new();
    push_decimal(&mut out, count as u64);
    push_str(&mut out, " wdyt ");
    if count == 1 {
        push_str(&mut out, "session");
    } else {
        push_str(&mut out, "sessions");
    }
    string_of(&out)
}

/// Checks that a theme is one of the bundled ones.
pub fn check_theme(name: &str, names: &Vec<String>) -> (r: Result<(), String>)
    ensures
        r is Ok <==> crate::session::strings_view(names@).contains(name@),
        r matches Err(e) ==> e@ == "unknown theme "@ + crate::text::debug_quoted(name@)
            + ". See `wdyt themes`"@,
{
    let key = name.to_owned();
    match crate::server::label_lookup_first(names, &key) {
        Some(k) => {
            proof {
                crate::server::lemma_first_index_bounds(crate::session::strings_view(names@), name@);
            }
            assert(crate::session::strings_view(names@)[k as int] == name@);
            Ok(())
        },
        None => {
            proof {
                crate::server::lemma_first_index_none(crate::session::strings_view(names@), name@);
            }
            let q = crate::text::debug_str(name);
            let mut msg = chars_of("unknown theme ");
            push_str(&mut msg, q.as_str());
            push_str(&mut msg, ". See `wdyt themes`");
            Err(string_of(&msg))
        },
    }
}

} // verus!
