//! What the CLI checks and builds before it talks to the daemon: session ids,
//! presentation tabs, and query strings. The HTTP calls are made around the
//! library.

use vstd::prelude::*;

use crate::session::strings_view;
use crate::text::{chars_of, decimal, is_ascii_lower, is_digit, push_decimal, push_str, string_of};

verus! {

/// The most tabs one presentation may show.
pub const MAX_PRESENTATION_TABS: usize = 12;

/// The longest session id accepted, in characters.
pub const MAX_SESSION_ID_LEN: usize = 64;

/// A presentation whose sessions were checked, and the URL that shows them.
#[derive(Debug, Clone)]
pub struct PreparedPresentation {
    pub ids: Vec<String>,
    pub url: String,
}

/// The `timeout_secs` query for a long-poll, or nothing when no timeout is
/// set, which tells the daemon to wait indefinitely.
pub fn timeout_query(timeout_secs: Option<u64>) -> (r: String)
    ensures
        r@ == match timeout_secs {
            Some(s) => "timeout_secs="@ + decimal(s as nat),
            None => Seq::<char>::empty(),
        },
{
    match timeout_secs {
        Some(s) => {
            let mut out = chars_of("timeout_secs=");
            push_decimal(&mut out, s);
            string_of(&out)
        },
        None => String::new(),
    }
}

/// A well-formed session id: 1 to 64 lowercase ASCII letters or digits.
pub open spec fn valid_session_id(id: Seq<char>) -> bool {
    1 <= id.len() <= MAX_SESSION_ID_LEN && forall|k: int|
        0 <= k < id.len() ==> is_ascii_lower(#[trigger] id[k]) || is_digit(id[k])
}

/// The error for a malformed session id.
pub open spec fn bad_id_message(id: Seq<char>) -> Seq<char> {
    "invalid session ID "@ + crate::text::debug_quoted(id)
        + ": expected 1-64 lowercase ASCII letters or digits"@
}

/// Checks a session id before it is put in a URL.
pub fn validate_session_id(id: &str) -> (r: Result<(), String>)
    ensures
        r is Ok <==> valid_session_id(id@),
        r matches Err(e) ==> e@ == bad_id_message(id@),
{
    let cs = chars_of(id);
    let mut ok = cs.len() >= 1 && cs.len() <= MAX_SESSION_ID_LEN;
    let mut i: usize = 0;
    while i < cs.len()
        invariant
            i <= cs.len(),
            cs@ == id@,
            ok == (1 <= cs@.len() <= MAX_SESSION_ID_LEN && forall|k: int|
                0 <= k < i ==> is_ascii_lower(#[trigger] cs@[k]) || is_digit(cs@[k])),
        decreases cs.len() - i,
    {
        let c = cs[i];
        let good = ('a' <= c && c <= 'z') || ('0' <= c && c <= '9');
        if !good {
            ok = false;
        }
        i = i + 1;
    }
    if ok {
        Ok(())
    } else {
        let q = crate::text::debug_str(id);
        let mut msg = chars_of("invalid session ID ");
        push_str(&mut msg, q.as_str());
        push_str(&mut msg, ": expected 1-64 lowercase ASCII letters or digits");
        Err(string_of(&msg))
    }
}

/// The ids in first-seen order without repeats, read one at a time: the
/// first malformed id, or the first new id past `MAX_PRESENTATION_TABS`, is
/// the error, whichever comes first.
pub open spec fn distinct_checked(ids: Seq<Seq<char>>) -> Result<Seq<Seq<char>>, Seq<char>>
    decreases ids.len(),
{
    if ids.len() == 0 {
        Ok(Seq::empty())
    } else {
        match distinct_checked(ids.drop_last()) {
            Err(e) => Err(e),
            Ok(seen) => {
                let id = ids.last();
                if !valid_session_id(id) {
                    Err(bad_id_message(id))
                } else if seen.contains(id) {
                    Ok(seen)
                } else if seen.len() >= MAX_PRESENTATION_TABS {
                    Err("a presentation supports at most 12 unique tabs"@)
                } else {
                    Ok(seen.push(id))
                }
            },
        }
    }
}

/// Once a prefix of the ids fails, every longer run fails with the same error.
proof fn lemma_checked_error_stays(ids: Seq<Seq<char>>, n: int)
    requires
        0 <= n <= ids.len(),
        distinct_checked(ids.take(n)) is Err,
    ensures
        distinct_checked(ids) == distinct_checked(ids.take(n)),
    decreases ids.len() - n,
{
    if n < ids.len() {
        assert(ids.take(n + 1).drop_last() =~= ids.take(n));
        lemma_checked_error_stays(ids, n + 1);
    } else {
        assert(ids.take(n) =~= ids);
    }
}

/// What `normalize_presentation_ids` gives: at least one id is needed, then
/// the ids are checked and de-duplicated in order.
pub open spec fn spec_normalized(ids: Seq<Seq<char>>) -> Result<Seq<Seq<char>>, Seq<char>> {
    if ids.len() == 0 {
        Err("a presentation requires at least one session ID"@)
    } else {
        distinct_checked(ids)
    }
}

/// What passes the checks is the ids de-duplicated, nothing more.
proof fn lemma_checked_is_distinct(ids: Seq<Seq<char>>, v: Seq<Seq<char>>)
    requires
        distinct_checked(ids) == Ok::<Seq<Seq<char>>, Seq<char>>(v),
    ensures
        v == crate::server::distinct(ids),
    decreases ids.len(),
{
    if ids.len() > 0 {
        match distinct_checked(ids.drop_last()) {
            Ok(seen) => lemma_checked_is_distinct(ids.drop_last(), seen),
            Err(_) => {},
        }
    }
}

/// A presentation shows one tab per session id, drops none of the ids it
/// was given, adds none, and keeps them in the order they were first named.
pub proof fn law_presentation_tabs_keep_first_seen_order(ids: Seq<Seq<char>>, v: Seq<Seq<char>>)
    requires
        spec_normalized(ids) == Ok::<Seq<Seq<char>>, Seq<char>>(v),
    ensures
        forall|i: int, j: int| 0 <= i < j < v.len() ==> #[trigger] v[i] != #[trigger] v[j],
        forall|k: int| 0 <= k < ids.len() ==> v.contains(#[trigger] ids[k]),
        forall|i: int| 0 <= i < v.len() ==> ids.contains(#[trigger] v[i]),
        forall|i: int, j: int|
            0 <= i < j < v.len() ==> crate::server::seen_before(ids, #[trigger] v[i], #[trigger] v[j]),
{
    lemma_checked_is_distinct(ids, v);
    crate::server::law_distinct_keeps_first_seen_order(ids);
}

/// Checks and de-duplicates presentation ids, keeping first-seen order.
pub fn normalize_presentation_ids(ids: &Vec<String>) -> (r: Result<Vec<String>, String>)
    ensures
        match r {
            Ok(v) => spec_normalized(strings_view(ids@)) == Ok::<Seq<Seq<char>>, Seq<char>>(
                strings_view(v@),
            ),
            Err(e) => spec_normalized(strings_view(ids@)) == Err::<Seq<Seq<char>>, Seq<char>>(
                e@,
            ),
        },
{
    let ghost all = strings_view(ids@);
    if ids.len() == 0 {
        return Err("a presentation requires at least one session ID".to_owned());
    }
    let mut out: Vec<String> = Vec::new();
    let mut i: usize = 0;
    assert(all.take(0) =~= Seq::<Seq<char>>::empty());
    assert(strings_view(out@) =~= Seq::<Seq<char>>::empty());
    while i < ids.len()
        invariant
            i <= ids.len(),
            all == strings_view(ids@),
            all.len() > 0,
            distinct_checked(all.take(i as int)) == Ok::<Seq<Seq<char>>, Seq<char>>(
                strings_view(out@),
            ),
        decreases ids.len() - i,
    {
        assert(all.take(i + 1).drop_last() =~= all.take(i as int));
        assert(all.take(i + 1).last() == all[i as int]);
        match validate_session_id(ids[i].as_str()) {
            Err(e) => {
                proof {
                    lemma_checked_error_stays(all, i + 1);
                }
                return Err(e);
            },
            Ok(()) => {},
        }
        let mut seen = false;
        let mut j: usize = 0;
        while j < out.len()
            invariant
                j <= out.len(),
                i < ids.len(),
                seen == exists|m: int| 0 <= m < j && #[trigger] out@[m]@ == ids@[i as int]@,
            decreases out.len() - j,
        {
            if out[j] == ids[i] {
                seen = true;
            }
            j = j + 1;
        }
        let ghost prev = strings_view(out@);
        assert(seen == prev.contains(all[i as int])) by {
            if seen {
                let m = choose|m: int| 0 <= m < out@.len() && #[trigger] out@[m]@ == ids@[i as int]@;
                assert(prev[m] == all[i as int]);
            }
            if prev.contains(all[i as int]) {
                let m = choose|m: int| 0 <= m < prev.len() && prev[m] == all[i as int];
                assert(out@[m]@ == ids@[i as int]@);
            }
        }
        if !seen {
            if out.len() >= MAX_PRESENTATION_TABS {
                proof {
                    lemma_checked_error_stays(all, i + 1);
                }
                return Err("a presentation supports at most 12 unique tabs".to_owned());
            }
            out.push(ids[i].clone());
            assert(strings_view(out@) =~= prev.push(all[i as int]));
        }
        i = i + 1;
    }
    assert(all.take(i as int) =~= all);
    Ok(out)
}

/// The URL of a presentation: one `s=` parameter per session.
pub open spec fn presentation_link(host: Seq<char>, port: u16, ids: Seq<Seq<char>>) -> Seq<char> {
    "http://"@ + host + seq![':'] + decimal(port as nat) + "/?"@ + crate::text::join(
        ids.map_values(|id: Seq<char>| "s="@ + id),
        seq!['&'],
    )
}

/// Builds the URL that shows the given sessions side by side.
pub fn presentation_url_for(host: &str, port: u16, ids: &Vec<String>) -> (r: String)
    ensures
        r@ == presentation_link(host@, port, strings_view(ids@)),
{
    let mut parts: Vec<Vec<char>> = Vec::new();
    let mut i: usize = 0;
    while i < ids.len()
        invariant
            i <= ids.len(),
            parts@.len() == i,
            forall|k: int| 0 <= k < i ==> #[trigger] parts@[k]@ == "s="@ + ids@[k]@,
        decreases ids.len() - i,
    {
        let mut p = chars_of("s=");
        push_str(&mut p, ids[i].as_str());
        parts.push(p);
        i = i + 1;
    }
    assert(crate::text::views(parts@) =~= strings_view(ids@).map_values(|id: Seq<char>| "s="@ + id));
    let query = crate::text::join_exec(&parts, "&");
    proof {
        reveal_strlit("&");
        assert("&"@ =~= seq!['&']);
    }
    let mut out = chars_of("http://");
    push_str(&mut out, host);
    out.push(':');
    push_decimal(&mut out, port as u64);
    push_str(&mut out, "/?");
    crate::text::push_chars(&mut out, &query);
    string_of(&out)
}


/// The `protocol` field of a JSON object, when the text is JSON and the field
/// is an unsigned integer.
pub uninterp spec fn protocol_field(body: Seq<char>) -> Option<u64>;

/// `serde_json::from_str::<Value>(body)`, then `get("protocol")` and
/// `as_u64()`.
///
/// Trusted: parsing is a function of the text, so the result is named; no
/// more is stated of it.
#[verifier::external_body]
fn json_protocol(body: &str) -> (r: Option<u64>)
    ensures
        r == protocol_field(body@),
{
    serde_json::from_str::<serde_json::Value>(body)
        .ok()
        .and_then(|v| v.get("protocol").and_then(|p| p.as_u64()))
}

/// Whether a `/health` answer comes from a daemon this client can talk to:
/// it carries the daemon's marker and the protocol version this build
/// speaks. Anything else on the port is someone else's server, or an older
/// daemon to be replaced.
pub fn accepts_health(body: &str) -> (r: bool)
    ensures
        r == (crate::text::contains(body@, crate::server::HEALTH_MARKER@) && protocol_field(body@)
            == Some(crate::server::PROTOCOL_VERSION as u64)),
{
    let cs = chars_of(body);
    if !crate::text::contains_lit(&cs, crate::server::HEALTH_MARKER) {
        return false;
    }
    match json_protocol(body) {
        Some(v) => v == crate::server::PROTOCOL_VERSION as u64,
        None => false,
    }
}


// ---------------------------------------------------------------------------
// Starting the daemon.
// ---------------------------------------------------------------------------

/// How many times a freshly started daemon is polled before giving up.
pub const START_POLLS: u32 = 60;

/// How long to wait before each poll, in milliseconds.
pub const START_POLL_MS: u64 = 100;

/// What to do after a poll of a daemon that was just started.
#[derive(Debug, Clone, Copy, PartialEq, Eq, Structural)]
pub enum StartStep {
    /// It answers: done.
    Ready,
    /// Wait `START_POLL_MS` and poll again.
    Wait,
    /// The process that was started has exited: stop polling.
    Exited,
    /// It did not answer within `START_POLLS` polls.
    GaveUp,
}

/// The decision after poll number `poll` (counting from 1): ready when the
/// daemon answers; otherwise stop at once when the process has exited, give
/// up after the last poll, and else wait for the next.
pub open spec fn spec_start_step(poll: u32, up: bool, exited: bool) -> StartStep {
    if up {
        StartStep::Ready
    } else if exited {
        StartStep::Exited
    } else if poll >= START_POLLS {
        StartStep::GaveUp
    } else {
        StartStep::Wait
    }
}

pub fn start_step(poll: u32, up: bool, exited: bool) -> (r: StartStep)
    ensures
        r == spec_start_step(poll, up, exited),
{
    if up {
        StartStep::Ready
    } else if exited {
        StartStep::Exited
    } else if poll >= START_POLLS {
        StartStep::GaveUp
    } else {
        StartStep::Wait
    }
}

/// Why a started daemon did not come up: its own words when its log holds
/// any (trimmed), else whether it exited or just never answered.
pub open spec fn spec_start_failure(log: Option<Seq<char>>, exited: bool) -> Seq<char> {
    match log {
        Some(text) if crate::text::trim(text).len() > 0 => "the wdyt daemon could not start:\n"@
            + crate::text::trim(text),
        _ => if exited {
            "the wdyt daemon exited without starting; try `wdyt serve` to see why"@
        } else {
            "the wdyt daemon did not come up; try `wdyt serve` to see why"@
        },
    }
}

pub fn start_failure(log: Option<String>, exited: bool) -> (r: String)
    ensures
        r@ == spec_start_failure(crate::zellij_origin::opt_view(log), exited),
{
    if let Some(text) = &log {
        let t = crate::text::trim_chars(&chars_of(text.as_str()));
        if t.len() > 0 {
            let mut out = chars_of("the wdyt daemon could not start:\n");
            crate::text::push_chars(&mut out, &t);
            return string_of(&out);
        }
    }
    if exited {
        string_of(&chars_of("the wdyt daemon exited without starting; try `wdyt serve` to see why"))
    } else {
        string_of(&chars_of("the wdyt daemon did not come up; try `wdyt serve` to see why"))
    }
}

} // verus!
