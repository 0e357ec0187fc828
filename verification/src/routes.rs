//! What the daemon's write routes decide: which request is refused and why,
//! and what the store is asked to do with one that is not. Reading the
//! request and writing the response are done around the library.

use vstd::prelude::*;

use crate::server::{
    bounded_text, check_create, comment_prepared, content_label_seq, input_anchor,
    prepare_comment, spec_bounded_text, CommentInput, CreateSession, CreatedSession,
    MAX_COMMENT_LINES,
};
use crate::session::{Author, Comment, Message, Side};
use crate::store::{
    comment_outcome, comment_room, fresh_session, locate, message_outcome, message_room,
    reply_outcome, evicted, Store, StoreError,
};
use crate::text::chars_of;

verus! {

/// Why a route refused a request, as the HTTP status it answers with.
#[derive(Debug, Clone)]
pub enum RouteError {
    /// 400, with the reason.
    BadRequest(String),
    /// 404: no such session, or no such thread in it.
    NotFound,
    /// 500, with what went wrong.
    Internal(String),
}

/// A store error as a route reports it: an unknown session is a 404, a
/// change that could not be saved a 500.
pub fn route_error(e: StoreError) -> (r: RouteError)
    ensures
        e is UnknownSession ==> r is NotFound,
        e matches StoreError::Persistence(m) ==> r matches RouteError::Internal(x) && x@
            == "persisting wdyt state: "@ + m@,
{
    match e {
        StoreError::UnknownSession => RouteError::NotFound,
        StoreError::Persistence(_) => RouteError::Internal(e.message()),
    }
}

/// The store's answer behind a route's answer: a route's 404 is the store's
/// unknown session.
pub open spec fn store_answer<T>(r: Result<T, RouteError>) -> Result<T, StoreError> {
    match r {
        Ok(v) => Ok(v),
        Err(RouteError::NotFound) => Err(StoreError::UnknownSession),
        Err(RouteError::BadRequest(m)) => Err(StoreError::Persistence(m)),
        Err(RouteError::Internal(m)) => Err(StoreError::Persistence(m)),
    }
}

// ---------------------------------------------------------------------------
// The reply.
// ---------------------------------------------------------------------------

/// What the page is told about its reply.
#[derive(Debug, Clone)]
pub struct ReplyOutput {
    pub accepted: bool,
    /// The reply as recorded, trimmed; empty when refused.
    pub text: String,
    /// Why it was not accepted.
    pub message: Option<String>,
}

/// What posting a reply does: trimmed text that is neither empty nor too
/// long is recorded unless the session already has a reply, which is said
/// rather than silently dropped.
pub open spec fn reply_route_outcome(
    s: Seq<crate::session::SessionView>,
    id: Seq<char>,
    text: Seq<char>,
    r: Result<ReplyOutput, RouteError>,
    t: Seq<crate::session::SessionView>,
) -> bool {
    match spec_bounded_text(text, "reply must not be empty"@, "reply is too long"@) {
        Err(e) => r matches Err(RouteError::BadRequest(m)) && m@ == e && t == s,
        Ok(body) => match locate(s, id) {
            None => r matches Err(RouteError::NotFound) && t == s,
            Some(k) => if s[k].reply is Some {
                &&& r matches Ok(o) && !o.accepted && o.text@.len() == 0 && (o.message matches Some(m)
                    && m@ == "this session already has a reply"@)
                &&& t == s
            } else {
                &&& r matches Ok(o) && o.accepted && o.text@ == body && o.message is None
                &&& exists|now: u64| #[trigger] reply_outcome(s, id, body, now, Ok(true), t)
            },
        },
    }
}

/// Records the reply typed into the page of session `id`.
pub fn submit_reply(store: &mut Store, id: &str, text: &str) -> (r: Result<ReplyOutput, RouteError>)
    ensures
        final(store).time_to_live() == old(store).time_to_live(),
        reply_route_outcome(old(store)@, id@, text@, r, final(store)@),
{
    let body = match bounded_text(text, "reply must not be empty", "reply is too long") {
        Ok(b) => b,
        Err(e) => {
            return Err(RouteError::BadRequest(e));
        },
    };
    let kept = body.clone();
    match store.reply(id, body) {
        Ok(true) => Ok(ReplyOutput { accepted: true, text: kept, message: None }),
        Ok(false) => Ok(
            ReplyOutput {
                accepted: false,
                text: String::new(),
                message: Some("this session already has a reply".to_owned()),
            },
        ),
        Err(e) => Err(route_error(e)),
    }
}

// ---------------------------------------------------------------------------
// Acknowledging the reply.
// ---------------------------------------------------------------------------

/// What an agent's acknowledgement at `now` does: a trimmed, non-empty note
/// is recorded on the reply (which counts as delivered); with no reply there
/// is nothing to acknowledge.
pub open spec fn ack_route_outcome(
    s: Seq<crate::session::SessionView>,
    id: Seq<char>,
    note: Seq<char>,
    now: u64,
    r: Result<crate::server::Acked, RouteError>,
    t: Seq<crate::session::SessionView>,
) -> bool {
    let n = crate::text::trim(note);
    if n.len() == 0 {
        r matches Err(RouteError::BadRequest(m)) && m@ == "an ack needs a note saying what you are doing"@
            && t == s
    } else {
        match locate(s, id) {
            None => r matches Err(RouteError::NotFound) && t == s,
            Some(k) => if s[k].reply is None {
                r matches Err(RouteError::BadRequest(m)) && m@
                    == "there is no reply on this session to acknowledge"@ && t == s
            } else {
                r matches Ok(a) && a.acked && crate::store::ack_outcome(s, id, n, now, Ok(true), t)
            },
        }
    }
}

/// Records an agent's acknowledgement of the reply to session `id`.
pub fn submit_ack(store: &mut Store, id: &str, note: &str) -> (r: Result<crate::server::Acked, RouteError>)
    ensures
        final(store).time_to_live() == old(store).time_to_live(),
        exists|now: u64| #[trigger] ack_route_outcome(old(store)@, id@, note@, now, r, final(store)@),
{
    let n = match crate::server::ack_note(note) {
        Ok(n) => n,
        Err(e) => {
            assert(ack_route_outcome(store@, id@, note@, 0, Err(RouteError::BadRequest(e)), store@));
            return Err(RouteError::BadRequest(e));
        },
    };
    let ghost before = store@;
    let ghost nv = n@;
    let rr = store.ack(id, n);
    let ghost now = choose|now: u64| #[trigger]
        crate::store::ack_outcome(before, id@, nv, now, rr, store@);
    let r = match rr {
        Ok(true) => Ok(crate::server::Acked { acked: true }),
        Ok(false) => Err(
            RouteError::BadRequest("there is no reply on this session to acknowledge".to_owned()),
        ),
        Err(e) => Err(route_error(e)),
    };
    assert(ack_route_outcome(before, id@, note@, now, r, store@));
    r
}

// ---------------------------------------------------------------------------
// Thread messages.
// ---------------------------------------------------------------------------

/// What posting to a thread does: trimmed text that is neither empty nor too
/// long is added to the thread at `now`, by the author the route says.
pub open spec fn message_route_outcome(
    s: Seq<crate::session::SessionView>,
    id: Seq<char>,
    cid: u64,
    from: Author,
    text: Seq<char>,
    now: u64,
    r: Result<Message, RouteError>,
    t: Seq<crate::session::SessionView>,
) -> bool {
    match spec_bounded_text(text, "a message must not be empty"@, "that message is too long"@) {
        Err(e) => r matches Err(RouteError::BadRequest(m)) && m@ == e && t == s,
        Ok(body) => message_outcome(s, id, cid, from, body, now, store_answer(r), t),
    }
}

/// Adds a message to the thread under comment `cid` of session `id`.
pub fn submit_message(store: &mut Store, id: &str, cid: u64, from: Author, text: &str) -> (r: Result<
    Message,
    RouteError,
>)
    requires
        message_room(old(store)@, id@, cid),
    ensures
        final(store).time_to_live() == old(store).time_to_live(),
        exists|now: u64| #[trigger]
            message_route_outcome(old(store)@, id@, cid, from, text@, now, r, final(store)@),
{
    let body = match bounded_text(text, "a message must not be empty", "that message is too long") {
        Ok(b) => b,
        Err(e) => {
            assert(message_route_outcome(store@, id@, cid, from, text@, 0, Err(RouteError::BadRequest(e)), store@));
            return Err(RouteError::BadRequest(e));
        },
    };
    let ghost before = store@;
    let ghost b = body@;
    let rr = store.message(id, cid, from, body);
    let ghost now = choose|now: u64| #[trigger]
        message_outcome(before, id@, cid, from, b, now, rr, store@);
    let r = match rr {
        Ok(m) => Ok(m),
        Err(e) => {
            assert(e is UnknownSession);
            Err(route_error(e))
        },
    };
    assert(store_answer(r) == rr);
    assert(message_route_outcome(before, id@, cid, from, text@, now, r, store@));
    r
}

// ---------------------------------------------------------------------------
// Comments.
// ---------------------------------------------------------------------------

/// What a comment on a session that does not exist is answered with: the
/// checks that need no session come first, in order, and then a 404. With an
/// explicit target the session is needed at once.
pub open spec fn orphan_comment_problem(input: CommentInput) -> Option<Seq<char>> {
    let side = if input.side@ == "old"@ {
        Some(Side::Old)
    } else if input.side@ == "new"@ {
        Some(Side::New)
    } else {
        None
    };
    match spec_bounded_text(input.text@, "comment must not be empty"@, "comment is too long"@) {
        Err(e) => Some(e),
        Ok(_) => match side {
            None => Some("side must be old or new"@),
            Some(side) => if input.target is Some {
                None
            } else if input.line == 0 {
                Some("line must be >= 1"@)
            } else if input.end_line == Some(0usize) {
                Some("end_line must be >= 1"@)
            } else if input.file@ == "brief:"@ && side != Side::New {
                Some("side must be new for code/docs/brief comments"@)
            } else {
                let a = input_anchor(input.file@, None, input.line, input.end_line, side);
                if a.spec_last() - a.line + 1 > MAX_COMMENT_LINES {
                    Some("comment covers too many lines"@)
                } else {
                    None
                }
            },
        },
    }
}

/// What posting a comment does: validated against the session and quoted
/// from it (see `comment_prepared`), then added to the session's comments.
pub open spec fn comment_route_outcome(
    store: Store,
    id: Seq<char>,
    input: CommentInput,
    r: Result<Comment, RouteError>,
    t: Seq<crate::session::SessionView>,
) -> bool {
    let s = store@;
    match locate(s, id) {
        None => t == s && match orphan_comment_problem(input) {
            Some(m) => r matches Err(RouteError::BadRequest(x)) && x@ == m,
            None => r is Err && r->Err_0 is NotFound,
        },
        Some(k) => exists|p: Result<(crate::session::Anchor, String, String), String>|
            #[trigger] comment_prepared(store.stored(k), input, p) && match p {
                Err(e) => r matches Err(RouteError::BadRequest(x)) && x@ == e@ && t == s,
                Ok((a, snippet, text)) => exists|now: u64| #[trigger]
                    comment_outcome(s, id, a, snippet@, text@, now, store_answer(r), t),
            },
    }
}

/// Adds the comment the page posted to session `id`.
pub fn submit_comment(store: &mut Store, id: &str, input: CommentInput) -> (r: Result<Comment, RouteError>)
    requires
        comment_room(old(store)@, id@),
    ensures
        final(store).time_to_live() == old(store).time_to_live(),
        comment_route_outcome(*old(store), id@, input, r, final(store)@),
{
    proof {
        crate::store::lemma_locate(store@, id@);
        reveal_strlit("brief:");
        reveal_strlit("old");
        reveal_strlit("new");
    }
    if !store.contains(id) {
        let text = match bounded_text(input.text.as_str(), "comment must not be empty", "comment is too long") {
            Ok(t) => t,
            Err(e) => {
                return Err(RouteError::BadRequest(e));
            },
        };
        let side = match Side::parse(input.side.as_str()) {
            Some(s) => s,
            None => {
                return Err(RouteError::BadRequest("side must be old or new".to_owned()));
            },
        };
        if input.target.is_some() {
            return Err(RouteError::NotFound);
        }
        if input.line == 0 {
            return Err(RouteError::BadRequest("line must be >= 1".to_owned()));
        }
        if input.end_line == Some(0usize) {
            return Err(RouteError::BadRequest("end_line must be >= 1".to_owned()));
        }
        if crate::text::eq_lit(&chars_of(input.file.as_str()), "brief:") && side != Side::New {
            return Err(
                RouteError::BadRequest("side must be new for code/docs/brief comments".to_owned()),
            );
        }
        let anchor = match input.end_line {
            Some(end) => crate::session::Anchor::range(input.file.clone(), input.line, end, side),
            None => crate::session::Anchor::line(input.file.clone(), input.line, side),
        };
        assert(anchor@ == input_anchor(input.file@, None, input.line, input.end_line, side));
        if anchor.span() > MAX_COMMENT_LINES {
            return Err(RouteError::BadRequest("comment covers too many lines".to_owned()));
        }
        return Err(RouteError::NotFound);
    }
    let prepared = match store.get(id) {
        Some(session) => prepare_comment(session, input),
        None => {
            return Err(RouteError::NotFound);
        },
    };
    match prepared {
        Err(e) => Err(RouteError::BadRequest(e)),
        Ok((anchor, snippet, text)) => match store.comment(id, anchor, snippet, text) {
            Ok(c) => Ok(c),
            Err(e) => {
                assert(e is UnknownSession);
                Err(route_error(e))
            },
        },
    }
}

// ---------------------------------------------------------------------------
// Creating a session.
// ---------------------------------------------------------------------------

/// What creating a session does: content whose labels would share an anchor
/// is refused with the first colliding pair; anything else becomes a new
/// session, a missing origin an empty one.
pub open spec fn create_route_outcome(
    s: Seq<crate::session::SessionView>,
    ttl: Option<u64>,
    input: CreateSession,
    r: Result<CreatedSession, RouteError>,
    t: Seq<crate::session::SessionView>,
) -> bool {
    let labels = content_label_seq(input.content);
    if exists|i: int, j: int| #[trigger] crate::anchors_collide(labels, i, j) {
        &&& t == s
        &&& r matches Err(RouteError::BadRequest(m)) && exists|i: int, j: int|
            #[trigger] crate::first_collision(labels, i, j) && m@ == crate::collision_message(
                labels[i],
                labels[j],
            )
    } else {
        &&& r matches Ok(c) && locate(s, c.id@) is None
        &&& exists|n: crate::session::NewSession, now: u64|
            n.title == input.title && n.content == input.content && n.note == input.note
                && n.theme == input.theme && n.brief == input.brief && n.brief_sources
                == input.brief_sources && t == #[trigger] evicted(
                s.push(fresh_session(n, r->Ok_0.id@, now)),
                ttl,
                now,
            )
    }
}

/// Creates the session a request describes.
pub fn create_session(store: &mut Store, input: CreateSession) -> (r: Result<CreatedSession, RouteError>)
    ensures
        final(store).time_to_live() == old(store).time_to_live(),
        create_route_outcome(old(store)@, old(store).time_to_live(), input, r, final(store)@),
{
    match check_create(&input) {
        Err(m) => {
            return Err(RouteError::BadRequest(m));
        },
        Ok(()) => {},
    }
    let ghost g = input;
    let new = input.into_new_session();
    match store.try_insert_new(new) {
        Ok(id) => {
            proof {
                let now = choose|now: u64|
                    final(store)@ == #[trigger] evicted(
                        old(store)@.push(fresh_session(new, id@, now)),
                        old(store).time_to_live(),
                        now,
                    );
                assert(final(store)@ == evicted(
                    old(store)@.push(fresh_session(new, id@, now)),
                    old(store).time_to_live(),
                    now,
                ));
            }
            Ok(CreatedSession { id })
        },
        Err(e) => Err(route_error(e)),
    }
}

} // verus!
