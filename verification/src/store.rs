//! The session store: the sessions a daemon holds, and every change the reader
//! and the agents make to them.
//!
//! Each change that depends on the time has an `_at` form taking the time in
//! whole seconds since the Unix epoch; its contract says exactly what the change
//! does. The plain form reads the clock once and calls it.

use vstd::prelude::*;

use crate::session::{
    Ack, Anchor, Author, Comment, CommentView, Content, Message, MessageView, NewSession, Reply,
    ReplyView, Session, SessionView, comments_view, messages_view,
};
use crate::text::chars_of;

verus! {

// ---------------------------------------------------------------------------
// The model.
// ---------------------------------------------------------------------------

/// No two sessions share an id.
pub open spec fn ids_unique(s: Seq<SessionView>) -> bool {
    forall|i: int, j: int|
        0 <= i < s.len() && 0 <= j < s.len() && i != j ==> #[trigger] s[i].id != #[trigger] s[j].id
}

/// Where the session named `id` stands, if anywhere.
pub open spec fn locate(s: Seq<SessionView>, id: Seq<char>) -> Option<int>
    decreases s.len(),
{
    if s.len() == 0 {
        None
    } else if s.last().id == id {
        Some(s.len() - 1)
    } else {
        locate(s.drop_last(), id)
    }
}

/// Whether a session is past its time to live: strictly more than `ttl`
/// seconds old at `now`.
pub open spec fn expired(v: SessionView, ttl: u64, now: u64) -> bool {
    now >= v.created && now - v.created > ttl
}

/// The sessions still alive at `now`, in their order.
pub open spec fn live(s: Seq<SessionView>, ttl: u64, now: u64) -> Seq<SessionView>
    decreases s.len(),
{
    if s.len() == 0 {
        s
    } else {
        let rest = live(s.drop_last(), ttl, now);
        if expired(s.last(), ttl, now) {
            rest
        } else {
            rest.push(s.last())
        }
    }
}

/// What eviction leaves: everything, without a time to live.
pub open spec fn evicted(s: Seq<SessionView>, ttl: Option<u64>, now: u64) -> Seq<SessionView> {
    match ttl {
        Some(t) => live(s, t, now),
        None => s,
    }
}

pub proof fn lemma_locate(s: Seq<SessionView>, id: Seq<char>)
    ensures
        match locate(s, id) {
            Some(k) => 0 <= k < s.len() && s[k].id == id,
            None => forall|j: int| 0 <= j < s.len() ==> s[j].id != id,
        },
    decreases s.len(),
{
    if s.len() > 0 && s.last().id != id {
        lemma_locate(s.drop_last(), id);
        if locate(s, id) is None {
            assert forall|j: int| 0 <= j < s.len() implies s[j].id != id by {
                if j < s.len() - 1 {
                    assert(s.drop_last()[j] == s[j]);
                }
            }
        }
    }
}

/// `locate` reads ids only.
pub proof fn lemma_locate_same_ids(s: Seq<SessionView>, t: Seq<SessionView>, id: Seq<char>)
    requires
        s.len() == t.len(),
        forall|j: int| 0 <= j < s.len() ==> #[trigger] s[j].id == t[j].id,
    ensures
        locate(s, id) == locate(t, id),
    decreases s.len(),
{
    if s.len() > 0 {
        assert(s.last().id == t.last().id);
        assert forall|j: int| 0 <= j < s.drop_last().len() implies #[trigger] s.drop_last()[j].id
            == t.drop_last()[j].id by {
            assert(s[j].id == t[j].id);
        }
        lemma_locate_same_ids(s.drop_last(), t.drop_last(), id);
    }
}

/// Changing one session but not its id keeps ids unique.
pub proof fn lemma_update_keeps_ids(s: Seq<SessionView>, k: int, v: SessionView)
    requires
        ids_unique(s),
        0 <= k < s.len(),
        v.id == s[k].id,
    ensures
        ids_unique(s.update(k, v)),
        forall|id: Seq<char>| locate(s.update(k, v), id) == #[trigger] locate(s, id),
{
    let t = s.update(k, v);
    assert forall|i: int, j: int|
        0 <= i < t.len() && 0 <= j < t.len() && i != j implies #[trigger] t[i].id
        != #[trigger] t[j].id by {
        assert(t[i].id == s[i].id && t[j].id == s[j].id);
    }
    assert forall|id: Seq<char>| locate(t, id) == #[trigger] locate(s, id) by {
        assert forall|j: int| 0 <= j < s.len() implies #[trigger] s[j].id == t[j].id by {}
        lemma_locate_same_ids(s, t, id);
    }
}

/// Every session that survives eviction was there before, and ids stay unique.
pub proof fn lemma_live(s: Seq<SessionView>, ttl: u64, now: u64)
    requires
        ids_unique(s),
    ensures
        ids_unique(live(s, ttl, now)),
        forall|k: int|
            0 <= k < live(s, ttl, now).len() ==> exists|j: int|
                0 <= j < s.len() && #[trigger] live(s, ttl, now)[k] == s[j],
    decreases s.len(),
{
    if s.len() > 0 {
        let d = s.drop_last();
        assert forall|i: int, j: int|
            0 <= i < d.len() && 0 <= j < d.len() && i != j implies #[trigger] d[i].id
            != #[trigger] d[j].id by {
            assert(d[i] == s[i] && d[j] == s[j]);
        }
        lemma_live(d, ttl, now);
        let rest = live(d, ttl, now);
        assert forall|k: int| 0 <= k < rest.len() implies exists|j: int|
            0 <= j < s.len() && #[trigger] rest[k] == s[j] by {
            let j = choose|j: int| 0 <= j < d.len() && #[trigger] rest[k] == d[j];
            assert(rest[k] == s[j]);
        }
        if !expired(s.last(), ttl, now) {
            let out = rest.push(s.last());
            assert forall|i: int, j: int|
                0 <= i < out.len() && 0 <= j < out.len() && i != j implies #[trigger] out[i].id
                != #[trigger] out[j].id by {
                if i < rest.len() && j < rest.len() {
                    assert(out[i] == rest[i] && out[j] == rest[j]);
                } else if i < rest.len() {
                    let a = choose|a: int| 0 <= a < d.len() && #[trigger] rest[i] == d[a];
                    assert(d[a] == s[a]);
                    assert(s[a].id != s[s.len() - 1].id);
                } else {
                    let a = choose|a: int| 0 <= a < d.len() && #[trigger] rest[j] == d[a];
                    assert(d[a] == s[a]);
                    assert(s[a].id != s[s.len() - 1].id);
                }
            }
            assert forall|k: int| 0 <= k < out.len() implies exists|j: int|
                0 <= j < s.len() && #[trigger] out[k] == s[j] by {
                if k == rest.len() {
                    assert(out[k] == s[s.len() - 1]);
                } else {
                    assert(out[k] == rest[k]);
                }
            }
        }
    }
}

// ---------------------------------------------------------------------------
// Errors.
// ---------------------------------------------------------------------------

/// Why a change to the store failed.
#[derive(Debug)]
pub enum StoreError {
    /// No session has the id (or, for a thread message, no comment has the
    /// thread id, or the thread is full).
    UnknownSession,
    /// The change could not be written to disk, so it was not made.
    Persistence(String),
}

/// No session has the id.
#[derive(Debug, Clone, Copy)]
pub struct UnknownSession;

impl StoreError {
    /// The error as the daemon reports it.
    pub fn message(&self) -> (r: String)
        ensures
            self is UnknownSession ==> r@ == "no such session"@,
            self matches StoreError::Persistence(e) ==> r@ == "persisting wdyt state: "@ + e@,
    {
        match self {
            StoreError::UnknownSession => "no such session".to_owned(),
            StoreError::Persistence(e) => {
                let mut out = chars_of("persisting wdyt state: ");
                let tail = chars_of(e.as_str());
                crate::text::push_chars(&mut out, &tail);
                crate::text::string_of(&out)
            },
        }
    }
}

impl UnknownSession {
    /// The error as the daemon reports it.
    pub fn message(&self) -> (r: String)
        ensures
            r@ == "no such session"@,
    {
        "no such session".to_owned()
    }
}

// ---------------------------------------------------------------------------
// Session ids.
// ---------------------------------------------------------------------------

/// The base-36 digit for `d`: `0`–`9`, then `a`–`z`.
pub open spec fn base36_digit(d: nat) -> char {
    if d < 10 {
        (48 + d) as char
    } else {
        (87 + d) as char
    }
}

/// The base-36 digits of `n`, most significant first.
pub open spec fn base36_digits(n: nat) -> Seq<char>
    decreases n,
{
    if n < 36 {
        seq![base36_digit(n)]
    } else {
        base36_digits(n / 36).push(base36_digit(n % 36))
    }
}

/// A session id made from `n`: its base-36 digits, cut to the six most
/// significant.
pub open spec fn short_id(n: nat) -> Seq<char> {
    let d = base36_digits(n);
    if d.len() > 6 {
        d.take(6)
    } else {
        d
    }
}

fn base36_digit_exec(d: u64) -> (r: char)
    requires
        d < 36,
    ensures
        r == base36_digit(d as nat),
{
    let b: u8 = if d < 10 {
        48 + (d as u8)
    } else {
        87 + (d as u8)
    };
    b as char
}

fn base36_digit_chars(n: u64) -> (r: Vec<char>)
    ensures
        r@ == base36_digits(n as nat),
    decreases n,
{
    if n < 36 {
        let mut v: Vec<char> = Vec::new();
        v.push(base36_digit_exec(n));
        assert(v@ =~= seq![base36_digit(n as nat)]);
        v
    } else {
        let mut v = base36_digit_chars(n / 36);
        v.push(base36_digit_exec(n % 36));
        v
    }
}

/// Base 36 of `value`, cut to six characters: compact and URL-safe.
pub fn base36(value: u64) -> (r: String)
    ensures
        r@ == short_id(value as nat),
{
    let mut v = base36_digit_chars(value);
    v.truncate(6);
    assert(v@ =~= short_id(value as nat));
    crate::text::string_of(&v)
}

/// `stamp` rotated left by 17 bits, exclusive-or `seq` times the 64-bit
/// golden ratio, wrapping.
pub open spec fn spec_mix(stamp: u64, seq: u64) -> u64 {
    ((stamp << 17u64) | (stamp >> 47u64)) ^ (((seq as nat) * 0x9E37_79B9_7F4A_7C15nat)
        % 0x1_0000_0000_0000_0000nat) as u64
}

/// A time and a sequence number mixed into one value, so consecutive ids do
/// not look alike.
fn mix(stamp: u64, seq: u64) -> (r: u64)
    ensures
        r == spec_mix(stamp, seq),
{
    let rotated = (stamp << 17u64) | (stamp >> 47u64);
    rotated ^ seq.wrapping_mul(0x9E37_79B9_7F4A_7C15u64)
}

/// The id of draw `j` from counter value `first`: the counter's value then
/// (wrapping round after `u64::MAX`) mixed with `stamp`, in base 36.
pub open spec fn drawn_id(stamp: u64, first: u64, j: nat) -> Seq<char> {
    short_id(spec_mix(stamp, ((first + j) % 0x1_0000_0000_0000_0000int) as u64) as nat)
}

/// Draw `j` is the first, within one turn of the counter, whose id no
/// session in `s` has.
pub open spec fn first_free_draw(s: Seq<SessionView>, stamp: u64, first: u64, j: nat) -> bool {
    &&& j < 0x1_0000_0000_0000_0000nat
    &&& locate(s, drawn_id(stamp, first, j)) is None
    &&& forall|i: nat| i < j ==> locate(s, #[trigger] drawn_id(stamp, first, i)) is Some
}

// ---------------------------------------------------------------------------
// The store.
// ---------------------------------------------------------------------------

/// The sessions, as values.
pub open spec fn sessions_view(v: Seq<Session>) -> Seq<SessionView> {
    v.map_values(|s: Session| s@)
}

/// The session a `NewSession` becomes, under `id`, created at `now`.
pub open spec fn fresh_session(new: NewSession, id: Seq<char>, now: u64) -> SessionView {
    SessionView {
        id,
        title: new.title@,
        note: crate::zellij_origin::opt_view(new.note),
        content: new.content,
        origin: new.origin,
        brief: crate::zellij_origin::opt_view(new.brief),
        brief_sources: crate::session::strings_view(new.brief_sources@),
        theme: crate::zellij_origin::opt_view(new.theme),
        created: now,
        reply: None,
        comments: Seq::empty(),
    }
}

/// The sessions a daemon holds, oldest first.
pub struct Store {
    sessions: Vec<Session>,
    counter: u64,
    ttl: Option<u64>,
}

impl View for Store {
    type V = Seq<SessionView>;

    closed spec fn view(&self) -> Seq<SessionView> {
        sessions_view(self.sessions@)
    }
}

impl Store {
    #[verifier::type_invariant]
    closed spec fn ids_are_unique(&self) -> bool {
        ids_unique(self@)
    }

    /// How long a session lives, in seconds; `None` for ever.
    pub closed spec fn time_to_live(&self) -> Option<u64> {
        self.ttl
    }

    /// The counter value the next id is drawn from.
    pub closed spec fn next_seq(&self) -> u64 {
        self.counter
    }

    /// The session at `k`, as stored.
    pub closed spec fn stored(&self, k: int) -> Session {
        self.sessions@[k]
    }

    /// An empty store whose sessions live for `ttl` seconds.
    pub fn new(ttl: Option<u64>) -> (r: Store)
        ensures
            r@ == Seq::<SessionView>::empty(),
            r.time_to_live() == ttl,
    {
        let r = Store { sessions: Vec::new(), counter: 0, ttl };
        assert(r@ =~= Seq::<SessionView>::empty());
        r
    }

    /// Where the session named `id` is held.
    fn find(&self, id: &str) -> (r: Option<usize>)
        ensures
            match r {
                Some(k) => locate(self@, id@) == Some(k as int),
                None => locate(self@, id@) is None,
            },
    {
        let key = id.to_owned();
        let mut i = self.sessions.len();
        assert(self@.take(i as int) =~= self@);
        while i > 0
            invariant
                i <= self.sessions.len(),
                key@ == id@,
                self@.len() == self.sessions@.len(),
                locate(self@, id@) == locate(self@.take(i as int), id@),
            decreases i,
        {
            if self.sessions[i - 1].id == key {
                assert(self@.take(i as int).last() == self@[i - 1]);
                return Some(i - 1);
            }
            assert(self@.take(i as int).drop_last() =~= self@.take(i - 1));
            i = i - 1;
        }
        None
    }

    /// Whether a session has the id.
    pub fn contains(&self, id: &str) -> (r: bool)
        ensures
            r == locate(self@, id@) is Some,
    {
        self.find(id).is_some()
    }

    /// The session named `id`, if there is one.
    pub fn get(&self, id: &str) -> (r: Option<&Session>)
        ensures
            match locate(self@, id@) {
                None => r is None,
                Some(k) => r matches Some(s) && *s == self.stored(k) && self.stored(k)@ == self@[k],
            },
    {
        proof {
            lemma_locate(self@, id@);
        }
        match self.find(id) {
            Some(k) => Some(&self.sessions[k]),
            None => None,
        }
    }

    /// Whether session `id` can take another comment id: see `comment_room`.
    pub fn comment_has_room(&self, id: &str) -> (r: bool)
        ensures
            r == comment_room(self@, id@),
    {
        proof {
            lemma_locate(self@, id@);
        }
        match self.find(id) {
            None => true,
            Some(k) => {
                let cs = &self.sessions[k].comments;
                assert(self@[k as int] == self.sessions@[k as int]@);
                if cs.len() == 0 {
                    true
                } else {
                    cs[cs.len() - 1].id < u64::MAX
                }
            },
        }
    }

    /// Whether the thread under comment `cid` of session `id` can take
    /// another message id: see `message_room`.
    pub fn message_has_room(&self, id: &str, cid: u64) -> (r: bool)
        ensures
            r == message_room(self@, id@, cid),
    {
        proof {
            lemma_locate(self@, id@);
        }
        let k = match self.find(id) {
            None => {
                return true;
            },
            Some(k) => k,
        };
        assert(self@[k as int] == self.sessions@[k as int]@);
        let ghost cs = self@[k as int].comments;
        let n = self.sessions[k].comments.len();
        let mut ci: usize = 0;
        while ci < n && self.sessions[k].comments[ci].id != cid
            invariant
                k < self.sessions@.len(),
                cs == self@[k as int].comments,
                self@[k as int] == self.sessions@[k as int]@,
                n == cs.len(),
                n == self.sessions@[k as int].comments@.len(),
                ci <= n,
                forall|i: int| 0 <= i < ci ==> #[trigger] cs[i].id != cid,
            decreases n - ci,
        {
            assert(cs[ci as int] == self.sessions@[k as int].comments@[ci as int]@);
            ci = ci + 1;
        }
        if ci == n {
            assert(!exists|j: int| first_comment_at(cs, cid, j));
            return true;
        }
        assert(cs[ci as int] == self.sessions@[k as int].comments@[ci as int]@);
        proof {
            lemma_comment_index(cs, cid, ci as int);
        }
        let rs = &self.sessions[k].comments[ci].replies;
        if rs.len() == 0 {
            true
        } else {
            rs[rs.len() - 1].id < u64::MAX
        }
    }

    /// Runs `f` against the session named `id`, if there is one.
    pub fn with<T, F: FnOnce(&Session) -> T>(&self, id: &str, f: F) -> (r: Option<T>)
        requires
            forall|s: &Session| f.requires((s,)),
        ensures
            match locate(self@, id@) {
                None => r is None,
                Some(k) => r matches Some(v) && self.stored(k)@ == self@[k] && f.ensures(
                    (&self.stored(k),),
                    v,
                ),
            },
    {
        proof {
            lemma_locate(self@, id@);
        }
        match self.find(id) {
            Some(k) => Some(f(&self.sessions[k])),
            None => None,
        }
    }

    /// An id longer than every id in use.
    fn fallback_id(&self) -> (r: String)
        ensures
            locate(self@, r@) is None,
    {
        let mut out: Vec<char> = Vec::new();
        out.push('z');
        let mut i: usize = 0;
        while i < self.sessions.len()
            invariant
                i <= self.sessions.len(),
                self@.len() == self.sessions@.len(),
                out@.len() >= 1,
                forall|j: int| 0 <= j < i ==> out@.len() > #[trigger] self@[j].id.len(),
            decreases self.sessions.len() - i,
        {
            let id = chars_of(self.sessions[i].id.as_str());
            assert(self@[i as int].id == id@);
            crate::text::push_chars(&mut out, &id);
            i = i + 1;
        }
        let r = crate::text::string_of(&out);
        proof {
            lemma_locate(self@, r@);
            if let Some(k) = locate(self@, r@) {
                assert(out@.len() > self@[k].id.len());
            }
        }
        r
    }

    /// An id no session has: the first draw from the counter, mixed with
    /// `stamp`, that is free. Should a whole turn of the counter find none,
    /// an id longer than every id in use.
    fn fresh_id(&mut self, stamp: u64) -> (r: String)
        ensures
            final(self)@ == old(self)@,
            final(self).time_to_live() == old(self).time_to_live(),
            locate(final(self)@, r@) is None,
            forall|j: nat|
                #[trigger] first_free_draw(old(self)@, stamp, old(self).next_seq(), j) ==> r@ == drawn_id(
                    stamp,
                    old(self).next_seq(),
                    j,
                ) && final(self).next_seq() == ((old(self).next_seq() + j + 1) % 0x1_0000_0000_0000_0000int) as u64,
    {
        proof {
            use_type_invariant(&*self);
        }
        let ghost first = self.counter;
        let c0 = self.counter as u128;
        let mut found: Option<String> = None;
        let mut tries: u128 = 0;
        while found.is_none() && tries < 0x1_0000_0000_0000_0000u128
            invariant
                ids_unique(self@),
                self@ == old(self)@,
                self.time_to_live() == old(self).time_to_live(),
                first == old(self).next_seq(),
                c0 == first,
                tries <= 0x1_0000_0000_0000_0000u128,
                self.counter == ((first + tries) % 0x1_0000_0000_0000_0000int) as u64,
                found is None ==> forall|i: nat| i < tries ==> locate(self@, #[trigger] drawn_id(stamp, first, i)) is Some,
                found matches Some(c) ==> {
                    &&& tries >= 1
                    &&& c@ == drawn_id(stamp, first, (tries - 1) as nat)
                    &&& first_free_draw(self@, stamp, first, (tries - 1) as nat)
                },
            decreases 0x1_0000_0000_0000_0000u128 - tries,
        {
            let seq = ((c0 + tries) % 0x1_0000_0000_0000_0000u128) as u64;
            let candidate = base36(mix(stamp, seq));
            assert(candidate@ == drawn_id(stamp, first, tries as nat));
            tries = tries + 1;
            self.counter = ((c0 + tries) % 0x1_0000_0000_0000_0000u128) as u64;
            proof {
                lemma_locate(self@, candidate@);
            }
            if self.find(candidate.as_str()).is_none() {
                found = Some(candidate);
            }
        }
        proof {
            assert forall|j: nat| #[trigger] first_free_draw(old(self)@, stamp, first, j) implies found is Some
                && j == (tries - 1) as nat by {
                if found is None {
                    assert(locate(self@, drawn_id(stamp, first, j)) is Some);
                } else {
                    let t = (tries - 1) as nat;
                    if j < t {
                        assert(locate(self@, drawn_id(stamp, first, j)) is Some);
                    } else if j > t {
                        assert(locate(self@, drawn_id(stamp, first, t)) is Some);
                    }
                }
            }
        }
        match found {
            Some(c) => c,
            None => self.fallback_id(),
        }
    }

    /// Drops the sessions past their time to live at `now`.
    fn evict(&mut self, now: u64)
        ensures
            final(self)@ == evicted(old(self)@, old(self).time_to_live(), now),
            final(self).time_to_live() == old(self).time_to_live(),
            final(self).next_seq() == old(self).next_seq(),
    {
        proof {
            use_type_invariant(&*self);
        }
        if let Some(t) = self.ttl {
            let mut rest: Vec<Session> = Vec::new();
            std::mem::swap(&mut rest, &mut self.sessions);
            let ghost all = sessions_view(rest@);
            proof {
                lemma_live(all, t, now);
            }
            let mut kept: Vec<Session> = Vec::new();
            let ghost mut k: int = 0;
            assert(sessions_view(rest@) =~= all.subrange(0, all.len() as int));
            assert(sessions_view(kept@) =~= live(all.take(0), t, now));
            while rest.len() > 0
                invariant
                    0 <= k <= all.len(),
                    sessions_view(rest@) == all.subrange(k, all.len() as int),
                    sessions_view(kept@) == live(all.take(k), t, now),
                decreases rest.len(),
            {
                let ghost r0 = rest@;
                assert(sessions_view(r0).len() > 0);
                let s = rest.remove(0);
                assert(s@ == sessions_view(r0)[0]);
                assert(sessions_view(r0)[0] == all[k]);
                assert(rest@ =~= r0.subrange(1, r0.len() as int));
                let gone = s.expired(t, now);
                if !gone {
                    kept.push(s);
                }
                proof {
                    assert(all.take(k + 1).drop_last() =~= all.take(k));
                    assert(all.take(k + 1).last() == all[k]);
                    k = k + 1;
                }
                assert forall|m: int| 0 <= m < rest@.len() implies #[trigger] sessions_view(rest@)[m]
                    == all.subrange(k, all.len() as int)[m] by {
                    assert(rest@[m] == r0[m + 1]);
                    assert(sessions_view(r0)[m + 1] == all.subrange(k - 1, all.len() as int)[m + 1]);
                }
                assert(sessions_view(rest@) =~= all.subrange(k, all.len() as int));
                assert(sessions_view(kept@) =~= live(all.take(k), t, now));
            }
            assert(all.take(k) =~= all);
            self.sessions = kept;
        }
    }

    /// Inserts a session described in full, created at `now`, and returns its
    /// id; `stamp` (any number that changes with time) is mixed into the id.
    /// Expired sessions are dropped afterwards.
    pub fn insert_new_at(&mut self, new: NewSession, now: u64, stamp: u64) -> (r: String)
        ensures
            locate(old(self)@, r@) is None,
            forall|j: nat|
                #[trigger] first_free_draw(old(self)@, stamp, old(self).next_seq(), j) ==> r@ == drawn_id(
                    stamp,
                    old(self).next_seq(),
                    j,
                ) && final(self).next_seq() == ((old(self).next_seq() + j + 1) % 0x1_0000_0000_0000_0000int) as u64,
            final(self).time_to_live() == old(self).time_to_live(),
            final(self)@ == evicted(
                old(self)@.push(fresh_session(new, r@, now)),
                old(self).time_to_live(),
                now,
            ),
    {
        proof {
            use_type_invariant(&*self);
        }
        let id = self.fresh_id(stamp);
        proof {
            use_type_invariant(&*self);
            lemma_locate(self@, id@);
        }
        let NewSession { title, content, note, origin, theme, brief, brief_sources } = new;
        let session = Session {
            id: id.clone(),
            title,
            note,
            content,
            origin,
            brief,
            brief_sources,
            theme,
            created: now,
            reply: None,
            comments: Vec::new(),
        };
        assert(session@ == fresh_session(new, id@, now)) by {
            assert(comments_view(session.comments@) =~= Seq::<CommentView>::empty());
        }
        let ghost before = self@;
        let mut all: Vec<Session> = Vec::new();
        std::mem::swap(&mut all, &mut self.sessions);
        all.push(session);
        assert(sessions_view(all@) =~= before.push(fresh_session(new, id@, now)));
        proof {
            assert forall|i: int, j: int|
                0 <= i < all@.len() && 0 <= j < all@.len() && i != j implies #[trigger] sessions_view(all@)[i].id
                != #[trigger] sessions_view(all@)[j].id by {
                if i == before.len() as int {
                    assert(before[j].id != id@);
                } else if j == before.len() as int {
                    assert(before[i].id != id@);
                } else {
                    assert(before[i].id != before[j].id);
                }
            }
        }
        self.sessions = all;
        self.evict(now);
        id
    }
}

// ---------------------------------------------------------------------------
// The reply.
// ---------------------------------------------------------------------------

/// What a reply at `now` does: records `text` if the session has no reply yet.
/// The session accepts a single reply; a second is refused with `Ok(false)`.
pub open spec fn reply_outcome(
    s: Seq<SessionView>,
    id: Seq<char>,
    text: Seq<char>,
    now: u64,
    r: Result<bool, StoreError>,
    t: Seq<SessionView>,
) -> bool {
    match locate(s, id) {
        None => r matches Err(StoreError::UnknownSession) && t == s,
        Some(k) => if s[k].reply is Some {
            r matches Ok(false) && t == s
        } else {
            r matches Ok(true) && t == s.update(
                k,
                SessionView {
                    reply: Some(ReplyView { text, at: now, delivered_at: None, ack: None }),
                    ..s[k]
                },
            )
        },
    }
}

impl Store {
    /// Records a reply sent at `now`.
    ///
    /// `Err` if the session is unknown, `Ok(false)` if it already had a reply:
    /// a session takes one reply.
    pub fn reply_at(&mut self, id: &str, text: String, now: u64) -> (r: Result<bool, StoreError>)
        ensures
            final(self).time_to_live() == old(self).time_to_live(),
            reply_outcome(old(self)@, id@, text@, now, r, final(self)@),
    {
        proof {
            use_type_invariant(&*self);
            lemma_locate(self@, id@);
        }
        let k = match self.find(id) {
            Some(k) => k,
            None => {
                return Err(StoreError::UnknownSession);
            },
        };
        if self.sessions[k].reply.is_some() {
            return Ok(false);
        }
        let ghost before = self@;
        let mut all: Vec<Session> = Vec::new();
        std::mem::swap(&mut all, &mut self.sessions);
        all[k].reply = Some(Reply { text, at: now, delivered_at: None, ack: None });
        proof {
            let v = SessionView {
                reply: Some(ReplyView { text: text@, at: now, delivered_at: None, ack: None }),
                ..before[k as int]
            };
            assert(sessions_view(all@) =~= before.update(k as int, v));
            lemma_update_keeps_ids(before, k as int, v);
        }
        self.sessions = all;
        Ok(true)
    }
}

// ---------------------------------------------------------------------------
// The clock.
// ---------------------------------------------------------------------------

#[verifier::external_type_specification]
#[verifier::external_body]
pub struct ExSystemTime(std::time::SystemTime);

/// `SystemTime::now()`: the current time. Nothing is stated of it.
#[verifier::external_body]
fn clock_now() -> (t: std::time::SystemTime) {
    std::time::SystemTime::now()
}

/// Whether `nanos` is the nanosecond count of a time `secs` whole seconds
/// and a fraction past the epoch, cut to 64 bits.
pub open spec fn one_reading(secs: u64, nanos: u64) -> bool {
    exists|sub: int| 0 <= sub < 1_000_000_000 && #[trigger] cut_nanos(secs, sub) == nanos
}

/// `secs` seconds and `sub` nanoseconds, in nanoseconds, cut to 64 bits.
pub open spec fn cut_nanos(secs: u64, sub: int) -> int {
    (secs * 1_000_000_000int + sub) % 0x1_0000_0000_0000_0000int
}

/// `t.duration_since(UNIX_EPOCH)`, as whole seconds and as nanoseconds cut to
/// 64 bits; `(0, 0)` for a time before the epoch.
///
/// Trusted: `as_secs` is the whole seconds and `as_nanos` the total
/// nanoseconds of one duration, so the two agree; what time it is, is not
/// stated.
#[verifier::external_body]
fn since_epoch(t: &std::time::SystemTime) -> (r: (u64, u64))
    ensures
        one_reading(r.0, r.1),
{
    match t.duration_since(std::time::UNIX_EPOCH) {
        Ok(d) => (d.as_secs(), d.as_nanos() as u64),
        Err(_) => (0, 0),
    }
}

/// The current time: whole seconds since the epoch, and nanoseconds, both
/// of one reading of the clock.
pub(crate) fn now_pair() -> (r: (u64, u64))
    ensures
        one_reading(r.0, r.1),
{
    let t = clock_now();
    since_epoch(&t)
}

// ---------------------------------------------------------------------------
// Collecting and acknowledging the reply.
// ---------------------------------------------------------------------------

/// The reply with `delivered_at` set to `now` unless it was set already.
pub open spec fn delivered(rep: ReplyView, now: u64) -> ReplyView {
    ReplyView {
        delivered_at: if rep.delivered_at is Some {
            rep.delivered_at
        } else {
            Some(now)
        },
        ..rep
    }
}

/// What taking the reply at `now` does: hands it out once, stamped, if it is
/// waiting undelivered.
pub open spec fn take_reply_outcome(
    s: Seq<SessionView>,
    id: Seq<char>,
    now: u64,
    r: Result<Option<Reply>, StoreError>,
    t: Seq<SessionView>,
) -> bool {
    match locate(s, id) {
        None => r matches Err(StoreError::UnknownSession) && t == s,
        Some(k) => if s[k].reply matches Some(rep) && rep.delivered_at is None {
            let stamped = ReplyView { delivered_at: Some(now), ..s[k].reply->0 };
            &&& r matches Ok(Some(x)) && x@ == stamped
            &&& t == s.update(k, SessionView { reply: Some(stamped), ..s[k] })
        } else {
            r matches Ok(None) && t == s
        },
    }
}

/// What collecting the reply at `now` does: stamps the first delivery, and
/// hands the reply out every time.
pub open spec fn mark_delivered_outcome(
    s: Seq<SessionView>,
    id: Seq<char>,
    now: u64,
    r: Result<Option<Reply>, StoreError>,
    t: Seq<SessionView>,
) -> bool {
    match locate(s, id) {
        None => r matches Err(StoreError::UnknownSession) && t == s,
        Some(k) => match s[k].reply {
            None => r matches Ok(None) && t == s,
            Some(rep) => {
                &&& r matches Ok(Some(x)) && x@ == delivered(rep, now)
                &&& t == s.update(k, SessionView { reply: Some(delivered(rep, now)), ..s[k] })
            },
        },
    }
}

/// What an acknowledgement at `now` does: records the note, replacing an
/// earlier one, and counts as delivery.
pub open spec fn ack_outcome(
    s: Seq<SessionView>,
    id: Seq<char>,
    note: Seq<char>,
    now: u64,
    r: Result<bool, StoreError>,
    t: Seq<SessionView>,
) -> bool {
    match locate(s, id) {
        None => r matches Err(StoreError::UnknownSession) && t == s,
        Some(k) => match s[k].reply {
            None => r matches Ok(false) && t == s,
            Some(rep) => {
                let acked = ReplyView {
                    ack: Some(crate::session::AckView { note, at: now }),
                    ..delivered(rep, now)
                };
                &&& r matches Ok(true)
                &&& t == s.update(k, SessionView { reply: Some(acked), ..s[k] })
            },
        },
    }
}

impl Store {
    /// Replaces the reply of the session at `k`, keeping everything else.
    fn set_reply(&mut self, k: usize, rep: Reply)
        requires
            k < old(self)@.len(),
        ensures
            final(self).time_to_live() == old(self).time_to_live(),
            final(self)@ == old(self)@.update(
                k as int,
                SessionView { reply: Some(rep@), ..old(self)@[k as int] },
            ),
    {
        proof {
            use_type_invariant(&*self);
        }
        let ghost before = self@;
        let ghost v = SessionView { reply: Some(rep@), ..before[k as int] };
        let mut all: Vec<Session> = Vec::new();
        std::mem::swap(&mut all, &mut self.sessions);
        all[k].reply = Some(rep);
        proof {
            assert(sessions_view(all@) =~= before.update(k as int, v));
            lemma_update_keeps_ids(before, k as int, v);
        }
        self.sessions = all;
    }

    /// Records a reply; see [`Store::reply_at`]. The time is read from the
    /// clock.
    pub fn reply(&mut self, id: &str, text: String) -> (r: Result<bool, StoreError>)
        ensures
            final(self).time_to_live() == old(self).time_to_live(),
            exists|now: u64| #[trigger] reply_outcome(old(self)@, id@, text@, now, r, final(self)@),
    {
        let (now, _) = now_pair();
        self.reply_at(id, text, now)
    }

    /// Takes the reply if one is waiting undelivered, stamping it delivered at
    /// `now`: `Some` only the first time, so a reply surfaces in a stream once.
    pub fn take_reply_at(&mut self, id: &str, now: u64) -> (r: Result<Option<Reply>, StoreError>)
        ensures
            final(self).time_to_live() == old(self).time_to_live(),
            take_reply_outcome(old(self)@, id@, now, r, final(self)@),
    {
        proof {
            lemma_locate(self@, id@);
        }
        let k = match self.find(id) {
            Some(k) => k,
            None => {
                return Err(StoreError::UnknownSession);
            },
        };
        let stamped = match &self.sessions[k].reply {
            Some(rep) => {
                if rep.delivered_at.is_some() {
                    return Ok(None);
                }
                Reply { delivered_at: Some(now), ..rep.duplicate() }
            },
            None => {
                return Ok(None);
            },
        };
        let out = stamped.duplicate();
        self.set_reply(k, stamped);
        Ok(Some(out))
    }

    /// Takes the reply; see [`Store::take_reply_at`]. The time is read from the
    /// clock.
    pub fn take_reply(&mut self, id: &str) -> (r: Result<Option<Reply>, StoreError>)
        ensures
            final(self).time_to_live() == old(self).time_to_live(),
            exists|now: u64| #[trigger] take_reply_outcome(old(self)@, id@, now, r, final(self)@),
    {
        let (now, _) = now_pair();
        self.take_reply_at(id, now)
    }

    /// Marks the reply delivered to an agent process at `now`, returning it.
    ///
    /// The first call stamps `delivered_at`; later ones return the reply with
    /// the first stamp, so a re-fetch does not look like a fresh delivery.
    pub fn mark_delivered_at(&mut self, id: &str, now: u64) -> (r: Result<Option<Reply>, StoreError>)
        ensures
            final(self).time_to_live() == old(self).time_to_live(),
            mark_delivered_outcome(old(self)@, id@, now, r, final(self)@),
    {
        proof {
            lemma_locate(self@, id@);
        }
        let k = match self.find(id) {
            Some(k) => k,
            None => {
                return Err(StoreError::UnknownSession);
            },
        };
        let stamped = match &self.sessions[k].reply {
            Some(rep) => {
                let when = match rep.delivered_at {
                    Some(t) => Some(t),
                    None => Some(now),
                };
                Reply { delivered_at: when, ..rep.duplicate() }
            },
            None => {
                return Ok(None);
            },
        };
        let out = stamped.duplicate();
        self.set_reply(k, stamped);
        Ok(Some(out))
    }

    /// Marks the reply delivered; see [`Store::mark_delivered_at`]. The time is
    /// read from the clock.
    pub fn mark_delivered(&mut self, id: &str) -> (r: Result<Option<Reply>, StoreError>)
        ensures
            final(self).time_to_live() == old(self).time_to_live(),
            exists|now: u64| #[trigger] mark_delivered_outcome(old(self)@, id@, now, r, final(self)@),
    {
        let (now, _) = now_pair();
        self.mark_delivered_at(id, now)
    }

    /// Records an agent's acknowledgement at `now` that it read the reply.
    ///
    /// `Ok(false)` when there is no reply to acknowledge. A later ack replaces
    /// an earlier one, and an ack implies delivery.
    pub fn ack_at(&mut self, id: &str, note: String, now: u64) -> (r: Result<bool, StoreError>)
        ensures
            final(self).time_to_live() == old(self).time_to_live(),
            ack_outcome(old(self)@, id@, note@, now, r, final(self)@),
    {
        proof {
            lemma_locate(self@, id@);
        }
        let k = match self.find(id) {
            Some(k) => k,
            None => {
                return Err(StoreError::UnknownSession);
            },
        };
        let acked = match &self.sessions[k].reply {
            Some(rep) => {
                let when = match rep.delivered_at {
                    Some(t) => Some(t),
                    None => Some(now),
                };
                Reply { delivered_at: when, ack: Some(Ack { note, at: now }), ..rep.duplicate() }
            },
            None => {
                return Ok(false);
            },
        };
        self.set_reply(k, acked);
        Ok(true)
    }

    /// Records an acknowledgement; see [`Store::ack_at`]. The time is read from
    /// the clock.
    pub fn ack(&mut self, id: &str, note: String) -> (r: Result<bool, StoreError>)
        ensures
            final(self).time_to_live() == old(self).time_to_live(),
            exists|now: u64| #[trigger] ack_outcome(old(self)@, id@, note@, now, r, final(self)@),
    {
        let (now, _) = now_pair();
        self.ack_at(id, note, now)
    }
}

// ---------------------------------------------------------------------------
// Creating sessions.
// ---------------------------------------------------------------------------

/// The session `insert` makes: the title, note and content given, nothing else.
pub open spec fn plain_session(
    title: Seq<char>,
    note: Option<Seq<char>>,
    content: Content,
    id: Seq<char>,
    now: u64,
) -> SessionView {
    SessionView {
        id,
        title,
        note,
        content,
        origin: crate::zellij_origin::Origin { cwd: None, session: None, tab: None, pane: None },
        brief: None,
        brief_sources: Seq::empty(),
        theme: None,
        created: now,
        reply: None,
        comments: Seq::empty(),
    }
}

impl Store {
    /// Inserts a session described in full and returns its id; the time is read
    /// from the clock. Expired sessions are dropped afterwards.
    pub fn insert_new(&mut self, new: NewSession) -> (r: String)
        ensures
            locate(old(self)@, r@) is None,
            final(self).time_to_live() == old(self).time_to_live(),
            exists|now: u64|
                final(self)@ == #[trigger] evicted(
                    old(self)@.push(fresh_session(new, r@, now)),
                    old(self).time_to_live(),
                    now,
                ),
    {
        let (now, nanos) = now_pair();
        self.insert_new_at(new, now, nanos)
    }

    /// Insertion that reports failure instead of panicking. In memory it
    /// cannot fail; a store that persists its sessions reports disk errors
    /// through it.
    pub fn try_insert_new(&mut self, new: NewSession) -> (r: Result<String, StoreError>)
        ensures
            r matches Ok(id) && locate(old(self)@, id@) is None && exists|now: u64|
                final(self)@ == #[trigger] evicted(
                    old(self)@.push(fresh_session(new, id@, now)),
                    old(self).time_to_live(),
                    now,
                ),
            final(self).time_to_live() == old(self).time_to_live(),
    {
        Ok(self.insert_new(new))
    }

    /// Inserts a session with a title, an optional note and its content, and
    /// returns its id.
    pub fn insert(&mut self, title: String, note: Option<String>, content: Content) -> (r: String)
        ensures
            locate(old(self)@, r@) is None,
            final(self).time_to_live() == old(self).time_to_live(),
            exists|now: u64|
                final(self)@ == #[trigger] evicted(
                    old(self)@.push(
                        plain_session(
                            title@,
                            crate::zellij_origin::opt_view(note),
                            content,
                            r@,
                            now,
                        ),
                    ),
                    old(self).time_to_live(),
                    now,
                ),
    {
        let mut new = NewSession::new(title, content);
        new.note = note;
        let ghost g = new;
        assert(crate::session::strings_view(g.brief_sources@) =~= Seq::<Seq<char>>::empty());
        let (now, nanos) = now_pair();
        let r = self.insert_new_at(new, now, nanos);
        assert(fresh_session(g, r@, now) == plain_session(
            title@,
            crate::zellij_origin::opt_view(note),
            content,
            r@,
            now,
        ));
        r
    }
}

// ---------------------------------------------------------------------------
// Comments and their threads.
// ---------------------------------------------------------------------------

/// The id the next comment (or thread message) gets: one past the last, from 1.
pub open spec fn next_id_after(n: nat, last: u64) -> u64 {
    if n == 0 {
        1
    } else {
        (last + 1) as u64
    }
}

/// The comment `comment_at` records.
pub open spec fn new_comment(
    anchor: Anchor,
    snippet: Seq<char>,
    text: Seq<char>,
    now: u64,
    id: u64,
) -> CommentView {
    CommentView {
        id,
        file: anchor.file@,
        target: crate::zellij_origin::opt_view(anchor.target),
        line: anchor.line,
        end_line: match anchor.end_line {
            Some(e) => if e > anchor.line {
                Some(e)
            } else {
                None
            },
            None => None,
        },
        side: anchor.side,
        snippet,
        text,
        at: now,
        replies: Seq::empty(),
        delivered_at: None,
    }
}

/// The id a new comment on `v` gets.
pub open spec fn next_comment_id(v: SessionView) -> u64 {
    next_id_after(
        v.comments.len(),
        if v.comments.len() > 0 {
            v.comments.last().id
        } else {
            0
        },
    )
}

/// The session's last comment id leaves room for one more.
pub open spec fn comment_room(s: Seq<SessionView>, id: Seq<char>) -> bool {
    match locate(s, id) {
        Some(k) => s[k].comments.len() == 0 || s[k].comments.last().id < u64::MAX,
        None => true,
    }
}

/// What a comment at `now` does: appends it with the next id, a one-line range
/// normalised to a single line.
pub open spec fn comment_outcome(
    s: Seq<SessionView>,
    id: Seq<char>,
    anchor: Anchor,
    snippet: Seq<char>,
    text: Seq<char>,
    now: u64,
    r: Result<Comment, StoreError>,
    t: Seq<SessionView>,
) -> bool {
    match locate(s, id) {
        None => r matches Err(StoreError::UnknownSession) && t == s,
        Some(k) => {
            let c = new_comment(anchor, snippet, text, now, next_comment_id(s[k]));
            &&& r matches Ok(x) && x@ == c
            &&& t == s.update(k, SessionView { comments: s[k].comments.push(c), ..s[k] })
        },
    }
}

/// Where the first comment with id `cid` stands.
pub open spec fn first_comment_at(cs: Seq<CommentView>, cid: u64, j: int) -> bool {
    &&& 0 <= j < cs.len()
    &&& cs[j].id == cid
    &&& forall|i: int| 0 <= i < j ==> #[trigger] cs[i].id != cid
}

/// The position of the first comment with id `cid`, if any.
pub open spec fn comment_index(cs: Seq<CommentView>, cid: u64) -> Option<int> {
    if exists|j: int| first_comment_at(cs, cid, j) {
        Some(choose|j: int| first_comment_at(cs, cid, j))
    } else {
        None
    }
}

pub proof fn lemma_comment_index(cs: Seq<CommentView>, cid: u64, j: int)
    requires
        first_comment_at(cs, cid, j),
    ensures
        comment_index(cs, cid) == Some(j),
{
    let c = choose|c: int| first_comment_at(cs, cid, c);
    if c < j {
        assert(cs[c].id != cid);
    } else if j < c {
        assert(cs[j].id != cid);
    }
}

/// The thread's last message id leaves room for one more.
pub open spec fn message_room(s: Seq<SessionView>, id: Seq<char>, cid: u64) -> bool {
    match locate(s, id) {
        Some(k) => match comment_index(s[k].comments, cid) {
            Some(ci) => s[k].comments[ci].replies.len() == 0
                || s[k].comments[ci].replies.last().id < u64::MAX,
            None => true,
        },
        None => true,
    }
}

/// What a thread message at `now` does: appends it to the first comment with
/// the id, unless the thread already holds the most messages it may.
pub open spec fn message_outcome(
    s: Seq<SessionView>,
    id: Seq<char>,
    cid: u64,
    from: Author,
    text: Seq<char>,
    now: u64,
    r: Result<Message, StoreError>,
    t: Seq<SessionView>,
) -> bool {
    match locate(s, id) {
        None => r matches Err(StoreError::UnknownSession) && t == s,
        Some(k) => match comment_index(s[k].comments, cid) {
            None => r matches Err(StoreError::UnknownSession) && t == s,
            Some(ci) => {
                let c = s[k].comments[ci];
                if c.replies.len() >= crate::session::MAX_THREAD_MESSAGES {
                    r matches Err(StoreError::UnknownSession) && t == s
                } else {
                    let m = MessageView {
                        id: next_id_after(
                            c.replies.len(),
                            if c.replies.len() > 0 {
                                c.replies.last().id
                            } else {
                                0
                            },
                        ),
                        from,
                        text,
                        at: now,
                        delivered_at: None,
                    };
                    &&& r matches Ok(x) && x@ == m
                    &&& t == s.update(
                        k,
                        SessionView {
                            comments: s[k].comments.update(
                                ci,
                                CommentView { replies: c.replies.push(m), ..c },
                            ),
                            ..s[k]
                        },
                    )
                }
            },
        },
    }
}

impl Store {
    /// Adds a comment made at `now`, returning it with its assigned id.
    ///
    /// Ids are per session and rising, so a page can address the comment it
    /// just made; a range that covers one line is recorded as that line.
    pub fn comment_at(
        &mut self,
        id: &str,
        anchor: Anchor,
        snippet: String,
        text: String,
        now: u64,
    ) -> (r: Result<Comment, StoreError>)
        requires
            comment_room(old(self)@, id@),
        ensures
            final(self).time_to_live() == old(self).time_to_live(),
            comment_outcome(old(self)@, id@, anchor, snippet@, text@, now, r, final(self)@),
    {
        proof {
            use_type_invariant(&*self);
            lemma_locate(self@, id@);
        }
        let k = match self.find(id) {
            Some(k) => k,
            None => {
                return Err(StoreError::UnknownSession);
            },
        };
        let ghost before = self@;
        let n = self.sessions[k].comments.len();
        let next: u64 = if n == 0 {
            1
        } else {
            assert(before[k as int].comments.last() == self.sessions@[k as int].comments@[n - 1]@);
            self.sessions[k].comments[n - 1].id + 1
        };
        let ghost a = anchor;
        let Anchor { file, target, line, end_line, side } = anchor;
        let end = match end_line {
            Some(e) => if e > line {
                Some(e)
            } else {
                None
            },
            None => None,
        };
        let c = Comment {
            id: next,
            file,
            target,
            line,
            end_line: end,
            side,
            snippet,
            text,
            at: now,
            replies: Vec::new(),
            delivered_at: None,
        };
        assert(c@ == new_comment(a, snippet@, text@, now, next_comment_id(before[k as int]))) by {
            assert(messages_view(c.replies@) =~= Seq::<MessageView>::empty());
        }
        let out = c.duplicate();
        let ghost v = SessionView { comments: before[k as int].comments.push(c@), ..before[k as int] };
        let mut all: Vec<Session> = Vec::new();
        std::mem::swap(&mut all, &mut self.sessions);
        all[k].comments.push(c);
        proof {
            assert(comments_view(all@[k as int].comments@) =~= before[k as int].comments.push(c@));
            assert(sessions_view(all@) =~= before.update(k as int, v));
            lemma_update_keeps_ids(before, k as int, v);
        }
        self.sessions = all;
        Ok(out)
    }

    /// Adds a comment; see [`Store::comment_at`]. The time is read from the
    /// clock.
    pub fn comment(&mut self, id: &str, anchor: Anchor, snippet: String, text: String) -> (r: Result<
        Comment,
        StoreError,
    >)
        requires
            comment_room(old(self)@, id@),
        ensures
            final(self).time_to_live() == old(self).time_to_live(),
            exists|now: u64| #[trigger]
                comment_outcome(old(self)@, id@, anchor, snippet@, text@, now, r, final(self)@),
    {
        let (now, _) = now_pair();
        self.comment_at(id, anchor, snippet, text, now)
    }

    /// Adds a message written at `now` to the thread under comment `comment_id`.
    ///
    /// The author comes from the caller, the route the message arrived on. A
    /// thread holds at most `MAX_THREAD_MESSAGES` messages.
    pub fn message_at(
        &mut self,
        id: &str,
        comment_id: u64,
        from: Author,
        text: String,
        now: u64,
    ) -> (r: Result<Message, StoreError>)
        requires
            message_room(old(self)@, id@, comment_id),
        ensures
            final(self).time_to_live() == old(self).time_to_live(),
            message_outcome(old(self)@, id@, comment_id, from, text@, now, r, final(self)@),
    {
        proof {
            use_type_invariant(&*self);
            lemma_locate(self@, id@);
        }
        let k = match self.find(id) {
            Some(k) => k,
            None => {
                return Err(StoreError::UnknownSession);
            },
        };
        let ghost before = self@;
        let ghost cs = before[k as int].comments;
        let mut ci: usize = 0;
        let n = self.sessions[k].comments.len();
        while ci < n && self.sessions[k].comments[ci].id != comment_id
            invariant
                k < self.sessions@.len(),
                self@ == before,
                cs == before[k as int].comments,
                n == cs.len(),
                n == self.sessions@[k as int].comments@.len(),
                ci <= n,
                forall|i: int| 0 <= i < ci ==> #[trigger] cs[i].id != comment_id,
            decreases n - ci,
        {
            assert(cs[ci as int] == self.sessions@[k as int].comments@[ci as int]@);
            ci = ci + 1;
        }
        if ci == n {
            assert(!exists|j: int| first_comment_at(cs, comment_id, j));
            return Err(StoreError::UnknownSession);
        }
        assert(cs[ci as int] == self.sessions@[k as int].comments@[ci as int]@);
        proof {
            lemma_comment_index(cs, comment_id, ci as int);
        }
        let ghost c = cs[ci as int];
        let len = self.sessions[k].comments[ci].replies.len();
        if len >= crate::session::MAX_THREAD_MESSAGES {
            return Err(StoreError::UnknownSession);
        }
        let next: u64 = if len == 0 {
            1
        } else {
            assert(c.replies.last() == self.sessions@[k as int].comments@[ci as int].replies@[len - 1]@);
            self.sessions[k].comments[ci].replies[len - 1].id + 1
        };
        let m = Message { id: next, from, text, at: now, delivered_at: None };
        let out = m.duplicate();
        let ghost c2 = CommentView { replies: c.replies.push(m@), ..c };
        let ghost v = SessionView { comments: cs.update(ci as int, c2), ..before[k as int] };
        let mut all: Vec<Session> = Vec::new();
        std::mem::swap(&mut all, &mut self.sessions);
        all[k].comments[ci].replies.push(m);
        proof {
            assert(messages_view(all@[k as int].comments@[ci as int].replies@) =~= c.replies.push(m@));
            assert(comments_view(all@[k as int].comments@) =~= cs.update(ci as int, c2));
            assert(sessions_view(all@) =~= before.update(k as int, v));
            lemma_update_keeps_ids(before, k as int, v);
        }
        self.sessions = all;
        Ok(out)
    }

    /// Adds a thread message; see [`Store::message_at`]. The time is read from
    /// the clock.
    pub fn message(&mut self, id: &str, comment_id: u64, from: Author, text: String) -> (r: Result<
        Message,
        StoreError,
    >)
        requires
            message_room(old(self)@, id@, comment_id),
        ensures
            final(self).time_to_live() == old(self).time_to_live(),
            exists|now: u64| #[trigger]
                message_outcome(old(self)@, id@, comment_id, from, text@, now, r, final(self)@),
    {
        let (now, _) = now_pair();
        self.message_at(id, comment_id, from, text, now)
    }
}

// ---------------------------------------------------------------------------
// Questions: what the reader said that no agent has taken.
// ---------------------------------------------------------------------------

/// A message from the reader that no agent has taken yet.
pub open spec fn asks(m: MessageView) -> bool {
    m.from == Author::User && m.delivered_at is None
}

/// `j` is the first message of `ms` that asks.
pub open spec fn first_ask_at(ms: Seq<MessageView>, j: int) -> bool {
    &&& 0 <= j < ms.len()
    &&& asks(ms[j])
    &&& forall|i: int| 0 <= i < j ==> !asks(#[trigger] ms[i])
}

/// The first message of `ms` that asks, if any.
pub open spec fn first_ask(ms: Seq<MessageView>) -> Option<int> {
    if exists|j: int| first_ask_at(ms, j) {
        Some(choose|j: int| first_ask_at(ms, j))
    } else {
        None
    }
}

/// Whether a thread holds something the reader said that no agent has taken:
/// the comment itself counts as the thread's first message.
pub open spec fn has_question(c: CommentView) -> bool {
    c.delivered_at is None || first_ask(c.replies) is Some
}

/// `i` is the first comment with a question.
pub open spec fn first_question_at(cs: Seq<CommentView>, i: int) -> bool {
    &&& 0 <= i < cs.len()
    &&& has_question(cs[i])
    &&& forall|h: int| 0 <= h < i ==> !has_question(#[trigger] cs[h])
}

/// The first comment with a question, if any.
pub open spec fn first_question(cs: Seq<CommentView>) -> Option<int> {
    if exists|i: int| first_question_at(cs, i) {
        Some(choose|i: int| first_question_at(cs, i))
    } else {
        None
    }
}

/// Whether the reader has said anything undelivered in a session: an
/// uncollected reply, or a comment or follow-up no agent has taken.
pub open spec fn pending_event(v: SessionView) -> bool {
    (v.reply matches Some(rep) && rep.delivered_at is None) || first_question(v.comments) is Some
}

pub proof fn lemma_first_ask(ms: Seq<MessageView>, j: int)
    requires
        first_ask_at(ms, j),
    ensures
        first_ask(ms) == Some(j),
{
    let c = choose|c: int| first_ask_at(ms, c);
    if c < j {
        assert(!asks(ms[c]));
    } else if j < c {
        assert(!asks(ms[j]));
    }
}

pub proof fn lemma_first_question(cs: Seq<CommentView>, i: int)
    requires
        first_question_at(cs, i),
    ensures
        first_question(cs) == Some(i),
{
    let c = choose|c: int| first_question_at(cs, c);
    if c < i {
        assert(!has_question(cs[c]));
    } else if i < c {
        assert(!has_question(cs[i]));
    }
}

/// What taking the next question at `now` does: stamps and hands out the oldest
/// thing the reader said that no agent has taken, with the thread it belongs
/// to. A comment nobody took is handed out as a message with id 0.
pub open spec fn take_question_outcome(
    s: Seq<SessionView>,
    id: Seq<char>,
    now: u64,
    r: Result<Option<(Comment, Message)>, StoreError>,
    t: Seq<SessionView>,
) -> bool {
    match locate(s, id) {
        None => r matches Err(StoreError::UnknownSession) && t == s,
        Some(k) => match first_question(s[k].comments) {
            None => r matches Ok(None) && t == s,
            Some(ci) => {
                let c = s[k].comments[ci];
                if c.delivered_at is None {
                    let c2 = CommentView { delivered_at: Some(now), ..c };
                    let head = MessageView {
                        id: 0,
                        from: Author::User,
                        text: c.text,
                        at: c.at,
                        delivered_at: Some(now),
                    };
                    &&& r matches Ok(Some((x, m))) && x@ == c2 && m@ == head
                    &&& t == s.update(
                        k,
                        SessionView { comments: s[k].comments.update(ci, c2), ..s[k] },
                    )
                } else {
                    let mi = first_ask(c.replies)->0;
                    let m2 = MessageView { delivered_at: Some(now), ..c.replies[mi] };
                    let c2 = CommentView { replies: c.replies.update(mi, m2), ..c };
                    &&& r matches Ok(Some((x, m))) && x@ == c2 && m@ == m2
                    &&& t == s.update(
                        k,
                        SessionView { comments: s[k].comments.update(ci, c2), ..s[k] },
                    )
                }
            },
        },
    }
}

/// The first message of `ms` that asks.
fn find_ask(ms: &Vec<Message>) -> (r: Option<usize>)
    ensures
        match r {
            Some(j) => first_ask(messages_view(ms@)) == Some(j as int),
            None => first_ask(messages_view(ms@)) is None,
        },
{
    let ghost mv = messages_view(ms@);
    let mut j: usize = 0;
    while j < ms.len()
        invariant
            j <= ms.len(),
            mv == messages_view(ms@),
            forall|i: int| 0 <= i < j ==> !asks(#[trigger] mv[i]),
        decreases ms.len() - j,
    {
        assert(mv[j as int] == ms@[j as int]@);
        if ms[j].from == Author::User && ms[j].delivered_at.is_none() {
            proof {
                lemma_first_ask(mv, j as int);
            }
            return Some(j);
        }
        j = j + 1;
    }
    assert(!exists|c: int| first_ask_at(mv, c));
    None
}

/// The first comment of `cs` with a question, and in it the first message that
/// asks when the comment itself was taken already.
fn find_question(cs: &Vec<Comment>) -> (r: Option<(usize, Option<usize>)>)
    ensures
        match r {
            Some((i, m)) => {
                &&& first_question(comments_view(cs@)) == Some(i as int)
                &&& match m {
                    None => comments_view(cs@)[i as int].delivered_at is None,
                    Some(j) => comments_view(cs@)[i as int].delivered_at is Some && first_ask(
                        comments_view(cs@)[i as int].replies,
                    ) == Some(j as int),
                }
            },
            None => first_question(comments_view(cs@)) is None,
        },
{
    let ghost cv = comments_view(cs@);
    let mut i: usize = 0;
    while i < cs.len()
        invariant
            i <= cs.len(),
            cv == comments_view(cs@),
            forall|h: int| 0 <= h < i ==> !has_question(#[trigger] cv[h]),
        decreases cs.len() - i,
    {
        assert(cv[i as int] == cs@[i as int]@);
        if cs[i].delivered_at.is_none() {
            proof {
                lemma_first_question(cv, i as int);
            }
            return Some((i, None));
        }
        match find_ask(&cs[i].replies) {
            Some(j) => {
                proof {
                    lemma_first_question(cv, i as int);
                }
                return Some((i, Some(j)));
            },
            None => {},
        }
        i = i + 1;
    }
    assert(!exists|c: int| first_question_at(cv, c));
    None
}

impl Store {
    /// The oldest thing the reader has said that no agent has taken yet,
    /// stamped as taken at `now`, with its thread.
    pub fn take_question_at(&mut self, id: &str, now: u64) -> (r: Result<
        Option<(Comment, Message)>,
        StoreError,
    >)
        ensures
            final(self).time_to_live() == old(self).time_to_live(),
            take_question_outcome(old(self)@, id@, now, r, final(self)@),
    {
        proof {
            use_type_invariant(&*self);
            lemma_locate(self@, id@);
        }
        let k = match self.find(id) {
            Some(k) => k,
            None => {
                return Err(StoreError::UnknownSession);
            },
        };
        let ghost before = self@;
        let ghost cs = before[k as int].comments;
        assert(cs == comments_view(self.sessions@[k as int].comments@));
        let (ci, inner) = match find_question(&self.sessions[k].comments) {
            Some(q) => q,
            None => {
                return Ok(None);
            },
        };
        let ghost c = cs[ci as int];
        let mut all: Vec<Session> = Vec::new();
        std::mem::swap(&mut all, &mut self.sessions);
        let result = match inner {
            None => {
                let head = Message {
                    id: 0,
                    from: Author::User,
                    text: all[k].comments[ci].text.clone(),
                    at: all[k].comments[ci].at,
                    delivered_at: Some(now),
                };
                all[k].comments[ci].delivered_at = Some(now);
                let taken = all[k].comments[ci].duplicate();
                let ghost c2 = CommentView { delivered_at: Some(now), ..c };
                let ghost v = SessionView { comments: cs.update(ci as int, c2), ..before[k as int] };
                proof {
                    assert(all@[k as int].comments@[ci as int]@ == c2);
                    assert(comments_view(all@[k as int].comments@) =~= cs.update(ci as int, c2));
                    assert(sessions_view(all@) =~= before.update(k as int, v));
                    lemma_update_keeps_ids(before, k as int, v);
                }
                (taken, head)
            },
            Some(j) => {
                let ghost m2 = MessageView { delivered_at: Some(now), ..c.replies[j as int] };
                let ghost c2 = CommentView { replies: c.replies.update(j as int, m2), ..c };
                let ghost v = SessionView { comments: cs.update(ci as int, c2), ..before[k as int] };
                all[k].comments[ci].replies[j].delivered_at = Some(now);
                let message = all[k].comments[ci].replies[j].duplicate();
                let taken = all[k].comments[ci].duplicate();
                proof {
                    assert(messages_view(all@[k as int].comments@[ci as int].replies@) =~= c.replies.update(
                        j as int,
                        m2,
                    ));
                    assert(all@[k as int].comments@[ci as int]@ == c2);
                    assert(comments_view(all@[k as int].comments@) =~= cs.update(ci as int, c2));
                    assert(sessions_view(all@) =~= before.update(k as int, v));
                    lemma_update_keeps_ids(before, k as int, v);
                }
                (taken, message)
            },
        };
        self.sessions = all;
        Ok(Some(result))
    }

    /// Takes the next question; see [`Store::take_question_at`]. The time is
    /// read from the clock.
    pub fn take_question(&mut self, id: &str) -> (r: Result<Option<(Comment, Message)>, StoreError>)
        ensures
            final(self).time_to_live() == old(self).time_to_live(),
            exists|now: u64| #[trigger] take_question_outcome(old(self)@, id@, now, r, final(self)@),
    {
        let (now, _) = now_pair();
        self.take_question_at(id, now)
    }

    /// Whether the reader has said anything undelivered in this session: an
    /// uncollected reply, or a line comment or follow-up no agent has taken.
    pub fn has_pending_event(session: &Session) -> (r: bool)
        ensures
            r == pending_event(session@),
    {
        let undelivered_reply = match &session.reply {
            Some(rep) => rep.delivered_at.is_none(),
            None => false,
        };
        undelivered_reply || find_question(&session.comments).is_some()
    }

    /// A session's comments, oldest first.
    pub fn comments(&self, id: &str) -> (r: Result<Vec<Comment>, UnknownSession>)
        ensures
            match locate(self@, id@) {
                None => r is Err,
                Some(k) => r matches Ok(v) && comments_view(v@) == self@[k].comments,
            },
    {
        proof {
            lemma_locate(self@, id@);
        }
        let k = match self.find(id) {
            Some(k) => k,
            None => {
                return Err(UnknownSession);
            },
        };
        let src = &self.sessions[k].comments;
        let mut out: Vec<Comment> = Vec::new();
        let mut i: usize = 0;
        while i < src.len()
            invariant
                i <= src.len(),
                out@.len() == i,
                forall|j: int| 0 <= j < i ==> #[trigger] out@[j]@ == src@[j]@,
            decreases src.len() - i,
        {
            out.push(src[i].duplicate());
            i = i + 1;
        }
        assert(comments_view(out@) =~= comments_view(src@));
        Ok(out)
    }
}

// ---------------------------------------------------------------------------
// Listings, newest first.
// ---------------------------------------------------------------------------

/// The session at `a` is newer than the one at `b`: created later, or in the
/// same second and inserted later.
pub open spec fn newer(s: Seq<SessionView>, a: int, b: int) -> bool {
    s[a].created > s[b].created || (s[a].created == s[b].created && a > b)
}

/// Whether a listing includes the session: every session, or only those with
/// a reply.
pub open spec fn listed(v: SessionView, replied_only: bool) -> bool {
    replied_only ==> v.reply is Some
}

/// `ord` holds the positions of exactly the listed sessions of `s`, newest
/// first.
pub open spec fn newest_first(s: Seq<SessionView>, ord: Seq<usize>, replied_only: bool) -> bool {
    &&& forall|k: int|
        0 <= k < ord.len() ==> #[trigger] ord[k] < s.len() && listed(s[ord[k] as int], replied_only)
    &&& forall|j: int|
        0 <= j < s.len() && listed(s[j], replied_only) ==> exists|k: int|
            0 <= k < ord.len() && #[trigger] ord[k] == j
    &&& forall|a: int, b: int| 0 <= a < b < ord.len() ==> newer(s, ord[a] as int, ord[b] as int)
}

/// One line of `summaries`: id, title, kind of content, and whether there is a
/// reply.
pub open spec fn summary_of(e: (String, String, &'static str, bool), v: SessionView) -> bool {
    e.0@ == v.id && e.1@ == v.title && e.2@ == v.content.spec_kind() && e.3 == v.reply is Some
}

/// One line of `replied`: id, title, the reply, and how many comments.
pub open spec fn replied_of(e: (String, String, Reply, usize), v: SessionView) -> bool {
    e.0@ == v.id && e.1@ == v.title && v.reply == Some(e.2@) && e.3 == v.comments.len()
}


/// Inserting position `j` before the first listed session that is not newer
/// keeps a listing of the positions before `j` newest first.
proof fn lemma_insert_order(s: Seq<SessionView>, old_ord: Seq<usize>, p: int, j: usize, replied_only: bool)
    requires
        j < s.len(),
        listed(s[j as int], replied_only),
        0 <= p <= old_ord.len(),
        forall|k: int|
            0 <= k < old_ord.len() ==> #[trigger] old_ord[k] < j && listed(
                s[old_ord[k] as int],
                replied_only,
            ),
        forall|jj: int|
            0 <= jj < j && listed(s[jj], replied_only) ==> exists|k: int|
                0 <= k < old_ord.len() && #[trigger] old_ord[k] == jj,
        forall|a: int, b: int|
            0 <= a < b < old_ord.len() ==> newer(s, old_ord[a] as int, old_ord[b] as int),
        forall|q: int| 0 <= q < p ==> s[#[trigger] old_ord[q] as int].created > s[j as int].created,
        p < old_ord.len() ==> s[old_ord[p] as int].created <= s[j as int].created,
    ensures
        ({
            let ord = old_ord.insert(p, j);
            &&& forall|k: int|
                0 <= k < ord.len() ==> #[trigger] ord[k] < j + 1 && listed(
                    s[ord[k] as int],
                    replied_only,
                )
            &&& forall|jj: int|
                0 <= jj < j + 1 && listed(s[jj], replied_only) ==> exists|k: int|
                    0 <= k < ord.len() && #[trigger] ord[k] == jj
            &&& forall|a: int, b: int|
                0 <= a < b < ord.len() ==> newer(s, ord[a] as int, ord[b] as int)
        }),
{
    let ord = old_ord.insert(p, j);
    old_ord.insert_ensures(p, j);
    let created = s[j as int].created;
    assert forall|a: int, b: int| 0 <= a < b < ord.len() implies newer(
        s,
        ord[a] as int,
        ord[b] as int,
    ) by {
        if b < p {
            assert(ord[a] == old_ord[a] && ord[b] == old_ord[b]);
        } else if a > p {
            assert(ord[a] == old_ord[a - 1] && ord[b] == old_ord[b - 1]);
        } else if b == p {
            assert(ord[a] == old_ord[a]);
            assert(s[old_ord[a] as int].created > created);
        } else if a == p {
            assert(ord[b] == old_ord[b - 1]);
            assert(old_ord[b - 1] < j);
            if b - 1 > p {
                assert(newer(s, old_ord[p] as int, old_ord[b - 1] as int));
            }
        } else {
            assert(ord[a] == old_ord[a] && ord[b] == old_ord[b - 1]);
            assert(newer(s, old_ord[a] as int, old_ord[b - 1] as int));
        }
    }
    assert forall|jj: int| 0 <= jj < j + 1 && listed(s[jj], replied_only) implies exists|k: int|
        0 <= k < ord.len() && #[trigger] ord[k] == jj by {
        if jj == j {
            assert(ord[p] == jj);
        } else {
            let k = choose|k: int| 0 <= k < old_ord.len() && #[trigger] old_ord[k] == jj;
            if k < p {
                assert(ord[k] == jj);
            } else {
                assert(ord[k + 1] == jj);
            }
        }
    }
    assert forall|k: int| 0 <= k < ord.len() implies #[trigger] ord[k] < j + 1 && listed(
        s[ord[k] as int],
        replied_only,
    ) by {
        if k < p {
            assert(ord[k] == old_ord[k]);
        } else if k > p {
            assert(ord[k] == old_ord[k - 1]);
        }
    }
}

/// The session at `a` is written before the one at `b` in the state file:
/// created earlier, or in the same second with an id that sorts first.
pub open spec fn stored_before(s: Seq<SessionView>, a: int, b: int) -> bool {
    s[a].created < s[b].created || (s[a].created == s[b].created && crate::render::lex_lt(
        s[a].id,
        s[b].id,
    ))
}

/// `ord` holds every position of `s` once, oldest first, ids breaking ties.
pub open spec fn oldest_first(s: Seq<SessionView>, ord: Seq<usize>) -> bool {
    &&& ord.len() == s.len()
    &&& forall|k: int| 0 <= k < ord.len() ==> #[trigger] ord[k] < s.len()
    &&& forall|j: usize| j < s.len() ==> #[trigger] ord.contains(j)
    &&& forall|a: int, b: int| 0 <= a < b < ord.len() ==> stored_before(s, ord[a] as int, ord[b] as int)
}

proof fn lemma_stored_before_trans(s: Seq<SessionView>, a: int, b: int, c: int)
    requires
        stored_before(s, a, b),
        stored_before(s, b, c),
    ensures
        stored_before(s, a, c),
{
    if s[a].created == s[b].created && s[b].created == s[c].created {
        crate::render::lemma_lex_trans(s[a].id, s[b].id, s[c].id);
    }
}

proof fn lemma_stored_before_total(s: Seq<SessionView>, a: int, b: int)
    requires
        ids_unique(s),
        0 <= a < s.len(),
        0 <= b < s.len(),
        a != b,
        !stored_before(s, a, b),
    ensures
        stored_before(s, b, a),
{
    crate::render::lemma_lex_total(s[a].id, s[b].id);
}

impl Store {
    /// The positions of the sessions in the order the state file holds them:
    /// oldest first, ties broken by id.
    pub fn state_order(&self) -> (r: Vec<usize>)
        ensures
            oldest_first(self@, r@),
    {
        proof {
            use_type_invariant(self);
        }
        let ghost s = self@;
        let n = self.sessions.len();
        let mut ord: Vec<usize> = Vec::new();
        let mut j: usize = 0;
        while j < n
            invariant
                s == self@,
                ids_unique(s),
                n == s.len(),
                n == self.sessions@.len(),
                j <= n,
                ord@.len() == j,
                forall|k: int| 0 <= k < ord@.len() ==> #[trigger] ord@[k] < j,
                forall|jj: usize| jj < j ==> #[trigger] ord@.contains(jj),
                forall|a: int, b: int|
                    0 <= a < b < ord@.len() ==> stored_before(s, ord@[a] as int, ord@[b] as int),
            decreases n - j,
        {
            assert(s[j as int] == self.sessions@[j as int]@);
            let created = self.sessions[j].created;
            let id = chars_of(self.sessions[j].id.as_str());
            let mut p: usize = 0;
            loop
                invariant
                    s == self@,
                    n == s.len(),
                    n == self.sessions@.len(),
                    j < n,
                    created == s[j as int].created,
                    id@ == s[j as int].id,
                    p <= ord@.len(),
                    forall|k: int| 0 <= k < ord@.len() ==> #[trigger] ord@[k] < j,
                    forall|q: int| 0 <= q < p ==> stored_before(s, #[trigger] ord@[q] as int, j as int),
                ensures
                    p <= ord@.len(),
                    forall|q: int| 0 <= q < p ==> stored_before(s, #[trigger] ord@[q] as int, j as int),
                    p < ord@.len() ==> !stored_before(s, ord@[p as int] as int, j as int),
                decreases ord@.len() - p,
            {
                if p >= ord.len() {
                    break;
                }
                let k = ord[p];
                assert(s[k as int] == self.sessions@[k as int]@);
                let c = self.sessions[k].created;
                let before = if c < created {
                    true
                } else if c == created {
                    crate::render::lex_lt_exec(&chars_of(self.sessions[k].id.as_str()), &id)
                } else {
                    false
                };
                if !before {
                    break;
                }
                p = p + 1;
            }
            let ghost old_ord = ord@;
            ord.insert(p, j);
            proof {
                let o = ord@;
                assert(o =~= old_ord.insert(p as int, j));
                old_ord.insert_ensures(p as int, j);
                if p < old_ord.len() {
                    lemma_stored_before_total(s, old_ord[p as int] as int, j as int);
                }
                assert forall|a: int, b: int| 0 <= a < b < o.len() implies stored_before(
                    s,
                    o[a] as int,
                    o[b] as int,
                ) by {
                    if b < p {
                        assert(o[a] == old_ord[a] && o[b] == old_ord[b]);
                    } else if a > p {
                        assert(o[a] == old_ord[a - 1] && o[b] == old_ord[b - 1]);
                    } else if b == p {
                        assert(o[a] == old_ord[a]);
                    } else if a == p {
                        assert(o[b] == old_ord[b - 1]);
                        if b - 1 > p {
                            assert(stored_before(s, old_ord[p as int] as int, old_ord[b - 1] as int));
                            lemma_stored_before_trans(s, j as int, old_ord[p as int] as int, old_ord[b - 1] as int);
                        }
                    } else {
                        assert(o[a] == old_ord[a] && o[b] == old_ord[b - 1]);
                        assert(stored_before(s, old_ord[a] as int, old_ord[b - 1] as int));
                    }
                }
                assert forall|jj: usize| jj < j + 1 implies #[trigger] o.contains(jj) by {
                    if jj == j {
                        assert(o[p as int] == jj);
                    } else {
                        assert(old_ord.contains(jj));
                        let k = choose|k: int| 0 <= k < old_ord.len() && old_ord[k] == jj;
                        if k < p {
                            assert(o[k] == jj);
                        } else {
                            assert(o[k + 1] == jj);
                        }
                    }
                }
                assert forall|k: int| 0 <= k < o.len() implies #[trigger] o[k] < j + 1 by {
                    if k < p {
                        assert(o[k] == old_ord[k]);
                    } else if k > p {
                        assert(o[k] == old_ord[k - 1]);
                    }
                }
            }
            j = j + 1;
        }
        ord
    }
}

impl Store {
    /// The positions of the listed sessions, newest first.
    fn newest_order(&self, replied_only: bool) -> (r: Vec<usize>)
        ensures
            newest_first(self@, r@, replied_only),
    {
        let ghost s = self@;
        let n = self.sessions.len();
        let mut ord: Vec<usize> = Vec::new();
        let mut j: usize = 0;
        while j < n
            invariant
                s == self@,
                n == s.len(),
                n == self.sessions@.len(),
                j <= n,
                forall|k: int|
                    0 <= k < ord@.len() ==> #[trigger] ord@[k] < j && listed(
                        s[ord@[k] as int],
                        replied_only,
                    ),
                forall|jj: int|
                    0 <= jj < j && listed(s[jj], replied_only) ==> exists|k: int|
                        0 <= k < ord@.len() && #[trigger] ord@[k] == jj,
                forall|a: int, b: int|
                    0 <= a < b < ord@.len() ==> newer(s, ord@[a] as int, ord@[b] as int),
            decreases n - j,
        {
            assert(s[j as int] == self.sessions@[j as int]@);
            let keep = !replied_only || self.sessions[j].reply.is_some();
            if keep {
                let created = self.sessions[j].created;
                let mut p: usize = 0;
                while p < ord.len() && self.sessions[ord[p]].created > created
                    invariant
                        s == self@,
                        n == s.len(),
                        n == self.sessions@.len(),
                        j < n,
                        created == s[j as int].created,
                        p <= ord@.len(),
                        forall|k: int| 0 <= k < ord@.len() ==> #[trigger] ord@[k] < j,
                        forall|q: int| 0 <= q < p ==> s[#[trigger] ord@[q] as int].created > created,
                    decreases ord@.len() - p,
                {
                    assert(s[ord@[p as int] as int] == self.sessions@[ord@[p as int] as int]@);
                    p = p + 1;
                }
                if p < ord.len() {
                    assert(s[ord@[p as int] as int] == self.sessions@[ord@[p as int] as int]@);
                }
                let ghost old_ord = ord@;
                ord.insert(p, j);
                proof {
                    lemma_insert_order(s, old_ord, p as int, j, replied_only);
                }
            }
            j = j + 1;
        }
        ord
    }

    /// Every session's id, title, kind of content and whether it has a reply,
    /// newest first.
    pub fn summaries(&self) -> (r: Vec<(String, String, &'static str, bool)>)
        ensures
            exists|ord: Seq<usize>|
                #[trigger] newest_first(self@, ord, false) && r@.len() == ord.len() && forall|k: int|
                    0 <= k < ord.len() ==> summary_of(r@[k], self@[ord[k] as int]),
    {
        let ord = self.newest_order(false);
        let mut out: Vec<(String, String, &'static str, bool)> = Vec::new();
        let mut i: usize = 0;
        while i < ord.len()
            invariant
                i <= ord@.len(),
                out@.len() == i,
                newest_first(self@, ord@, false),
                forall|k: int| 0 <= k < i ==> summary_of(#[trigger] out@[k], self@[ord@[k] as int]),
            decreases ord.len() - i,
        {
            let j = ord[i];
            assert(j < self@.len());
            let s = &self.sessions[j];
            assert(self@[j as int] == s@);
            out.push((s.id.clone(), s.title.clone(), s.content.kind(), s.reply.is_some()));
            i = i + 1;
        }
        out
    }

    /// Every session that has a reply, newest first: its id, title, the reply,
    /// and how many comments it has. Read state is included, so the caller
    /// decides whether it wants the unread ones only.
    pub fn replied(&self) -> (r: Vec<(String, String, Reply, usize)>)
        ensures
            exists|ord: Seq<usize>|
                #[trigger] newest_first(self@, ord, true) && r@.len() == ord.len() && forall|k: int|
                    0 <= k < ord.len() ==> replied_of(r@[k], self@[ord[k] as int]),
    {
        let ord = self.newest_order(true);
        let mut out: Vec<(String, String, Reply, usize)> = Vec::new();
        let mut i: usize = 0;
        while i < ord.len()
            invariant
                i <= ord@.len(),
                out@.len() == i,
                newest_first(self@, ord@, true),
                forall|k: int| 0 <= k < i ==> replied_of(#[trigger] out@[k], self@[ord@[k] as int]),
            decreases ord.len() - i,
        {
            let j = ord[i];
            assert(j < self@.len() && listed(self@[j as int], true));
            let s = &self.sessions[j];
            assert(self@[j as int] == s@);
            let rep = match &s.reply {
                Some(rep) => rep.duplicate(),
                None => {
                    assert(false);
                    return out;
                },
            };
            out.push((s.id.clone(), s.title.clone(), rep, s.comments.len()));
            i = i + 1;
        }
        out
    }
}

// ---------------------------------------------------------------------------
// Restoring and reading back.
// ---------------------------------------------------------------------------

impl Store {
    /// A store holding `sessions` (as read back from disk), with expired ones
    /// dropped at `now`. Refused with the repeated id when two sessions share
    /// one.
    pub fn restore(sessions: Vec<Session>, ttl: Option<u64>, now: u64) -> (r: Result<Store, String>)
        ensures
            match r {
                Ok(store) => ids_unique(sessions_view(sessions@)) && store@ == evicted(
                    sessions_view(sessions@),
                    ttl,
                    now,
                ) && store.time_to_live() == ttl,
                Err(dup) => !ids_unique(sessions_view(sessions@)) && exists|i: int, j: int|
                    0 <= i < j < sessions@.len() && #[trigger] sessions@[i].id@ == dup@
                        && #[trigger] sessions@[j].id@ == dup@,
            },
    {
        let ghost sv = sessions_view(sessions@);
        let n = sessions.len();
        let mut j: usize = 0;
        while j < n
            invariant
                n == sessions@.len(),
                sv == sessions_view(sessions@),
                j <= n,
                ids_unique(sv.take(j as int)),
            decreases n - j,
        {
            let mut i: usize = 0;
            while i < j
                invariant
                    n == sessions@.len(),
                    sv == sessions_view(sessions@),
                    i <= j < n,
                    forall|h: int| 0 <= h < i ==> #[trigger] sv[h].id != sv[j as int].id,
                decreases j - i,
            {
                if sessions[i].id == sessions[j].id {
                    assert(!ids_unique(sv)) by {
                        assert(sv[i as int].id == sv[j as int].id);
                    }
                    return Err(sessions[j].id.clone());
                }
                i = i + 1;
            }
            proof {
                let t = sv.take(j + 1);
                assert forall|a: int, b: int|
                    0 <= a < t.len() && 0 <= b < t.len() && a != b implies #[trigger] t[a].id
                    != #[trigger] t[b].id by {
                    if a < j && b < j {
                        assert(sv.take(j as int)[a] == t[a] && sv.take(j as int)[b] == t[b]);
                    }
                }
            }
            j = j + 1;
        }
        assert(sv.take(n as int) =~= sv);
        let mut store = Store { sessions, counter: 0, ttl };
        store.evict(now);
        Ok(store)
    }

    /// A store holding exactly `sessions`, as read back or saved before a
    /// change; refused with the repeated id when two sessions share one.
    pub fn rebuild(sessions: Vec<Session>, ttl: Option<u64>) -> (r: Result<Store, String>)
        ensures
            match r {
                Ok(store) => ids_unique(sessions_view(sessions@)) && store@ == sessions_view(sessions@)
                    && store.time_to_live() == ttl,
                Err(dup) => !ids_unique(sessions_view(sessions@)) && exists|i: int, j: int|
                    0 <= i < j < sessions@.len() && #[trigger] sessions@[i].id@ == dup@
                        && #[trigger] sessions@[j].id@ == dup@,
            },
    {
        let ghost sv = sessions_view(sessions@);
        proof {
            law_nothing_expires_at_the_epoch(sv, ttl);
        }
        Store::restore(sessions, ttl, 0)
    }

    /// Settles a change that was made on a copy of the store: the copy
    /// becomes the live state when its snapshot was written, and the live
    /// state stays as it was when the write failed, so the daemon is never
    /// ahead of what a restart would restore.
    pub fn settle(&mut self, candidate: Store, written: bool)
        ensures
            final(self)@ == (if written {
                candidate@
            } else {
                old(self)@
            }),
            final(self).time_to_live() == (if written {
                candidate.time_to_live()
            } else {
                old(self).time_to_live()
            }),
    {
        if written {
            *self = candidate;
        }
    }

    /// The sessions held, oldest first.
    pub fn sessions(&self) -> (r: &Vec<Session>)
        ensures
            sessions_view(r@) == self@,
    {
        &self.sessions
    }
}

// ---------------------------------------------------------------------------
// Laws.
// ---------------------------------------------------------------------------

/// Nothing has expired at time zero, so eviction then keeps every session in
/// place: a store rebuilt from what it held is the same store.
pub proof fn law_nothing_expires_at_the_epoch(s: Seq<SessionView>, ttl: Option<u64>)
    ensures
        evicted(s, ttl, 0) == s,
    decreases s.len(),
{
    match ttl {
        Some(t) => {
            if s.len() > 0 {
                law_nothing_expires_at_the_epoch(s.drop_last(), ttl);
                assert(s.drop_last().push(s.last()) =~= s);
            }
        },
        None => {},
    }
}

/// A restart brings back every session that is still within its time to
/// live, as it was saved: content, reply, acknowledgement, comments and
/// discussions alike.
pub proof fn law_restart_keeps_live_sessions(s: Seq<SessionView>, ttl: Option<u64>, now: u64)
    requires
        match ttl {
            Some(t) => forall|k: int| 0 <= k < s.len() ==> !expired(#[trigger] s[k], t, now),
            None => true,
        },
    ensures
        evicted(s, ttl, now) == s,
    decreases s.len(),
{
    match ttl {
        Some(t) => {
            if s.len() > 0 {
                let d = s.drop_last();
                assert forall|k: int| 0 <= k < d.len() implies !expired(#[trigger] d[k], t, now) by {
                    assert(d[k] == s[k]);
                }
                law_restart_keeps_live_sessions(d, ttl, now);
                assert(!expired(s[s.len() - 1], t, now));
                assert(d.push(s.last()) =~= s);
            }
        },
        None => {},
    }
}

/// A session takes one reply: once a reply is recorded, a later one is refused
/// with `Ok(false)` and leaves the first in place.
pub proof fn law_one_reply(
    s: Seq<SessionView>,
    id: Seq<char>,
    first: Seq<char>,
    t1: u64,
    r1: Result<bool, StoreError>,
    s1: Seq<SessionView>,
    second: Seq<char>,
    t2: u64,
    r2: Result<bool, StoreError>,
    s2: Seq<SessionView>,
)
    requires
        reply_outcome(s, id, first, t1, r1, s1),
        r1 matches Ok(true),
        reply_outcome(s1, id, second, t2, r2, s2),
    ensures
        r2 matches Ok(false),
        s2 == s1,
        s1[locate(s1, id)->0].reply matches Some(rep) && rep.text == first,
{
    let k = locate(s, id)->0;
    lemma_locate(s, id);
    assert forall|j: int| 0 <= j < s.len() implies #[trigger] s[j].id == s1[j].id by {}
    lemma_locate_same_ids(s, s1, id);
}

/// A waiting reply is handed out once: after it was taken, taking again gives
/// nothing and changes nothing.
pub proof fn law_take_reply_once(
    s: Seq<SessionView>,
    id: Seq<char>,
    t1: u64,
    r1: Result<Option<Reply>, StoreError>,
    s1: Seq<SessionView>,
    t2: u64,
    r2: Result<Option<Reply>, StoreError>,
    s2: Seq<SessionView>,
)
    requires
        take_reply_outcome(s, id, t1, r1, s1),
        r1 matches Ok(Some(_)),
        take_reply_outcome(s1, id, t2, r2, s2),
    ensures
        r2 matches Ok(None),
        s2 == s1,
{
    lemma_locate(s, id);
    assert forall|j: int| 0 <= j < s.len() implies #[trigger] s[j].id == s1[j].id by {}
    lemma_locate_same_ids(s, s1, id);
}

/// Collecting a reply again is a re-fetch: it returns the first delivery time,
/// and it never records an acknowledgement.
pub proof fn law_redelivery_keeps_the_stamp(
    s: Seq<SessionView>,
    id: Seq<char>,
    t1: u64,
    r1: Result<Option<Reply>, StoreError>,
    s1: Seq<SessionView>,
    t2: u64,
    r2: Result<Option<Reply>, StoreError>,
    s2: Seq<SessionView>,
)
    requires
        mark_delivered_outcome(s, id, t1, r1, s1),
        r1 matches Ok(Some(_)),
        mark_delivered_outcome(s1, id, t2, r2, s2),
    ensures
        r1 matches Ok(Some(a)) && r2 matches Ok(Some(b)) && a@.delivered_at is Some
            && b@.delivered_at == a@.delivered_at && b@.ack == s[locate(s, id)->0].reply->0.ack,
        s2 == s1,
{
    lemma_locate(s, id);
    assert forall|j: int| 0 <= j < s.len() implies #[trigger] s[j].id == s1[j].id by {}
    lemma_locate_same_ids(s, s1, id);
    let k = locate(s, id)->0;
    assert(s1.update(k, s1[k]) =~= s1);
}

/// An acknowledgement implies delivery, and the latest one is what stands.
pub proof fn law_ack_implies_delivery(
    s: Seq<SessionView>,
    id: Seq<char>,
    note: Seq<char>,
    now: u64,
    r: Result<bool, StoreError>,
    t: Seq<SessionView>,
)
    requires
        ack_outcome(s, id, note, now, r, t),
        r matches Ok(true),
    ensures
        t[locate(s, id)->0].reply matches Some(rep) && rep.delivered_at is Some && rep.ack
            == Some(crate::session::AckView { note, at: now }),
{
    lemma_locate(s, id);
}

/// Comment ids rise: a new comment's id is above every id the session's last
/// comment had.
pub proof fn law_comment_ids_rise(
    s: Seq<SessionView>,
    id: Seq<char>,
    anchor: Anchor,
    snippet: Seq<char>,
    text: Seq<char>,
    now: u64,
    r: Result<Comment, StoreError>,
    t: Seq<SessionView>,
)
    requires
        comment_outcome(s, id, anchor, snippet, text, now, r, t),
        comment_room(s, id),
        r is Ok,
    ensures
        ({
            let k = locate(s, id)->0;
            &&& r matches Ok(c) && c@.id >= 1
            &&& s[k].comments.len() > 0 ==> (r matches Ok(c) && c@.id > s[k].comments.last().id)
            &&& t[k].comments.last() == r->Ok_0@
        }),
{
    lemma_locate(s, id);
}

/// A thread never grows past `MAX_THREAD_MESSAGES` messages.
pub proof fn law_threads_are_bounded(
    s: Seq<SessionView>,
    id: Seq<char>,
    cid: u64,
    from: Author,
    text: Seq<char>,
    now: u64,
    r: Result<Message, StoreError>,
    t: Seq<SessionView>,
)
    requires
        message_outcome(s, id, cid, from, text, now, r, t),
        forall|k: int, c: int|
            0 <= k < s.len() && 0 <= c < s[k].comments.len() ==> #[trigger] s[k].comments[c].replies.len()
                <= crate::session::MAX_THREAD_MESSAGES,
    ensures
        forall|k: int, c: int|
            0 <= k < t.len() && 0 <= c < t[k].comments.len() ==> #[trigger] t[k].comments[c].replies.len()
                <= crate::session::MAX_THREAD_MESSAGES,
{
    lemma_locate(s, id);
    if let Some(k) = locate(s, id) {
        if let Some(ci) = comment_index(s[k].comments, cid) {
            assert(0 <= ci < s[k].comments.len());
            assert forall|kk: int, c: int|
                0 <= kk < t.len() && 0 <= c < t[kk].comments.len() implies #[trigger] t[kk].comments[c].replies.len()
                <= crate::session::MAX_THREAD_MESSAGES by {
                if kk == k && c == ci {
                } else if kk == k {
                    assert(t[kk].comments[c] == s[kk].comments[c]);
                } else {
                    assert(t[kk] == s[kk]);
                }
            }
        }
    }
}

/// An agent's own words are never a question: a message from the agent adds
/// nothing for `take_question` to hand out.
pub proof fn law_agent_words_are_not_questions(m: MessageView)
    requires
        m.from == Author::Agent,
    ensures
        !asks(m),
{
}

/// What `take_question` hands out is stamped, so the next call does not hand
/// it out again.
pub proof fn law_questions_are_taken_once(
    s: Seq<SessionView>,
    id: Seq<char>,
    now: u64,
    r: Result<Option<(Comment, Message)>, StoreError>,
    t: Seq<SessionView>,
)
    requires
        take_question_outcome(s, id, now, r, t),
        r matches Ok(Some(_)),
    ensures
        ({
            let k = locate(s, id)->0;
            let ci = first_question(s[k].comments)->0;
            &&& r matches Ok(Some((c, m))) && m@.delivered_at == Some(now) && m@.from == Author::User
            &&& t[k].comments[ci] == r->Ok_0->Some_0.0@
            &&& (s[k].comments[ci].delivered_at is None ==> t[k].comments[ci].delivered_at is Some)
            &&& (s[k].comments[ci].delivered_at is Some ==> !asks(
                t[k].comments[ci].replies[first_ask(s[k].comments[ci].replies)->0],
            ))
        }),
{
    lemma_locate(s, id);
    let k = locate(s, id)->0;
    let cs = s[k].comments;
    let ci = first_question(cs)->0;
    assert(first_question_at(cs, ci)) by {
        let w = choose|i: int| first_question_at(cs, i);
    }
    if cs[ci].delivered_at is Some {
        let ms = cs[ci].replies;
        assert(first_ask_at(ms, first_ask(ms)->0)) by {
            let w = choose|j: int| first_ask_at(ms, j);
        }
    }
}

} // verus!
