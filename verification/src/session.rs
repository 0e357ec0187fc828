//! Sessions: one per "show me this", and the record of what the reader said
//! about it.
//!
//! Time enters as whole seconds since the Unix epoch, read once per operation;
//! every operation has an `_at` form that takes the time as an argument, and
//! that form's contract says exactly what the operation does.

use vstd::prelude::*;

use crate::text::{chars_of, string_of};
use crate::zellij_origin::{opt_view, Origin};

pub use crate::store::{Store, StoreError, UnknownSession};

verus! {

/// What a session shows.
#[derive(Debug, Clone)]
pub enum Content {
    /// Source files, syntax highlighted.
    Code { files: Vec<CodeFile> },
    /// A unified diff, reviewable line by line.
    Diff { files: Vec<DiffFile> },
    /// Markdown, rendered.
    Docs { files: Vec<DocFile> },
    /// A directory served as-is.
    Static { root: String, entry: String },
    /// A server the agent started; wdyt frames it and adds the reply box.
    Demo { port: u16, path: String },
    /// A guided review: prose interleaved with diff and code excerpts.
    Guided { blocks: Vec<GuidedBlock> },
}

impl Content {
    pub open spec fn spec_kind(&self) -> Seq<char> {
        match self {
            Content::Code { .. } => "code"@,
            Content::Diff { .. } => "diff"@,
            Content::Docs { .. } => "docs"@,
            Content::Static { .. } => "static"@,
            Content::Demo { .. } => "demo"@,
            Content::Guided { .. } => "guided"@,
        }
    }

    pub fn kind(&self) -> (r: &'static str)
        ensures
            r@ == self.spec_kind(),
    {
        match self {
            Content::Code { .. } => "code",
            Content::Diff { .. } => "diff",
            Content::Docs { .. } => "docs",
            Content::Static { .. } => "static",
            Content::Demo { .. } => "demo",
            Content::Guided { .. } => "guided",
        }
    }

    /// Whether the content is handed to an iframe, which changes the layout:
    /// the page must not scroll, and the top bar can be collapsed away.
    pub fn is_framed(&self) -> (r: bool)
        ensures
            r == (self is Demo || self is Static),
    {
        match self {
            Content::Demo { .. } | Content::Static { .. } => true,
            _ => false,
        }
    }

    /// Whether lines can be commented on.
    pub fn is_commentable(&self) -> (r: bool)
        ensures
            r == (self is Diff || self is Code || self is Docs),
    {
        match self {
            Content::Diff { .. } | Content::Code { .. } | Content::Docs { .. } => true,
            _ => false,
        }
    }
}

#[derive(Debug, Clone)]
pub struct CodeFile {
    /// Label shown in the file list, usually the path as the agent named it.
    pub label: String,
    /// Highlighted HTML, pre-rendered at submit time so page loads are cheap.
    pub html: String,
    /// Per-line highlighted HTML, parallel to `sources`.
    pub highlighted: Vec<String>,
    /// Per-line plain text, one entry per line with no trailing newline. This is
    /// what the server quotes a comment's snippet from.
    pub sources: Vec<String>,
    pub lines: usize,
    /// Language, for display only.
    pub language: String,
}

#[derive(Debug, Clone)]
pub struct DocFile {
    pub label: String,
    /// Rendered HTML (with `data-sourcepos` attributes when commentable).
    pub html: String,
    /// Per-line plain text of the source markdown, one entry per line.
    pub sources: Vec<String>,
}

/// One file's worth of a unified diff.
#[derive(Debug, Clone)]
pub struct DiffFile {
    /// The path as the diff names it, preferring the new name for a rename.
    pub label: String,
    /// The hunks, in order.
    pub hunks: Vec<Hunk>,
    pub added: usize,
    pub removed: usize,
    /// Language, for display only.
    pub language: String,
    /// The new-side file in full, one entry per line without the newline, when
    /// it agreed with every line the diff shows; empty otherwise.
    pub source: Vec<String>,
}

/// A `@@` hunk.
#[derive(Debug, Clone)]
pub struct Hunk {
    /// The `@@ … @@` line, including any trailing section heading.
    pub header: String,
    pub lines: Vec<DiffLine>,
    /// The old-side line the header declares the hunk starts at.
    pub old_start: usize,
    /// The new-side line the header declares the hunk starts at.
    pub new_start: usize,
}

#[derive(Debug, Clone, Copy, PartialEq, Eq, Structural)]
pub enum LineKind {
    Added,
    Removed,
    Context,
}

#[derive(Debug, Clone)]
pub struct DiffLine {
    pub kind: LineKind,
    /// Line number in the old file; absent for an added line.
    pub old: Option<usize>,
    /// Line number in the new file; absent for a removed line.
    pub new: Option<usize>,
    /// Highlighted HTML of the line's content, without the +/- marker.
    pub html: String,
    /// The line's plain text, stored so a comment can quote it.
    pub text: String,
}

/// One block of a guided review.
#[derive(Debug, Clone)]
pub enum GuidedBlock {
    /// Prose, rendered, with the source lines it came from.
    Text { html: String, source_start: usize, sources: Vec<String> },
    /// An excerpt of a current file.
    Code {
        file: String,
        language: String,
        start: usize,
        end: usize,
        highlighted: Vec<String>,
        sources: Vec<String>,
    },
    /// A selection from the patch: the whole file, and the hunks shown.
    Diff { file: DiffFile, side: Side, start: usize, end: usize, selected_hunks: Vec<Hunk> },
}

/// A reply typed into the page's reply box.
#[derive(Debug, Clone)]
pub struct Reply {
    pub text: String,
    /// When the reply was sent, in seconds since the epoch.
    pub at: u64,
    /// When the reply was handed to an agent process. `None` means it is still
    /// sitting here uncollected. Delivery is not reading.
    pub delivered_at: Option<u64>,
    /// When an agent explicitly acknowledged the reply, and what it said.
    pub ack: Option<Ack>,
}

/// An agent's acknowledgement that it read a reply and is acting on it.
#[derive(Debug, Clone)]
pub struct Ack {
    /// What the agent says it is doing about the reply.
    pub note: String,
    pub at: u64,
}

/// Which side of a diff a comment is anchored to.
#[derive(Debug, Clone, Copy, PartialEq, Eq, Structural)]
pub enum Side {
    /// A line as it was before the change.
    Old,
    /// A line as it is after the change, including unchanged context.
    New,
}

impl Side {
    pub open spec fn spec_as_str(&self) -> Seq<char> {
        match self {
            Side::Old => "old"@,
            Side::New => "new"@,
        }
    }

    pub fn as_str(&self) -> (r: &'static str)
        ensures
            r@ == self.spec_as_str(),
    {
        match self {
            Side::Old => "old",
            Side::New => "new",
        }
    }

    /// Parses the value the page sends back.
    pub fn parse(value: &str) -> (r: Option<Self>)
        ensures
            r == (if value@ == "old"@ {
                Some(Side::Old)
            } else if value@ == "new"@ {
                Some(Side::New)
            } else {
                None
            }),
    {
        let cs = chars_of(value);
        let old_word = chars_of("old");
        let new_word = chars_of("new");
        if crate::text::chars_eq(&cs, &old_word) {
            Some(Side::Old)
        } else if crate::text::chars_eq(&cs, &new_word) {
            Some(Side::New)
        } else {
            None
        }
    }
}

/// The side a line is addressed by. A removed line only exists in the old file;
/// everything else — added and context alike — is addressed by its new-side
/// number, so a context line has one canonical anchor rather than two.
pub open spec fn spec_side_of(kind: LineKind) -> Side {
    match kind {
        LineKind::Removed => Side::Old,
        _ => Side::New,
    }
}

pub fn side_of(kind: LineKind) -> (r: Side)
    ensures
        r == spec_side_of(kind),
{
    match kind {
        LineKind::Removed => Side::Old,
        LineKind::Added | LineKind::Context => Side::New,
    }
}

/// Where a comment attaches: a file, a line or range of lines, and a side.
#[derive(Debug, Clone, PartialEq, Eq)]
pub struct Anchor {
    /// The file the lines belong to, as it appears in the diff.
    pub file: String,
    /// Explicit comment target identity, separate from display label:
    /// `brief`, `doc:<n>`, `guided:<n>`, or `None` for legacy file identity.
    pub target: Option<String>,
    /// The first line covered, on `side`.
    pub line: usize,
    /// The last line covered, or `None` for a single line.
    pub end_line: Option<usize>,
    pub side: Side,
}

impl Anchor {
    /// An anchor on one line.
    pub fn line(file: String, line: usize, side: Side) -> (r: Self)
        ensures
            r == (Anchor { file, target: None, line, end_line: None, side }),
    {
        Anchor { file, target: None, line, end_line: None, side }
    }

    /// An anchor over a range, with the ends put in order.
    pub fn range(file: String, from: usize, to: usize, side: Side) -> (r: Self)
        ensures
            r == (Anchor {
                file,
                target: None,
                line: if from <= to {
                    from
                } else {
                    to
                },
                end_line: Some(
                    if from <= to {
                        to
                    } else {
                        from
                    },
                ),
                side,
            }),
    {
        let lo = if from <= to {
            from
        } else {
            to
        };
        let hi = if from <= to {
            to
        } else {
            from
        };
        Anchor { file, target: None, line: lo, end_line: Some(hi), side }
    }

    pub open spec fn spec_last(&self) -> nat {
        let end = match self.end_line {
            Some(e) => e,
            None => self.line,
        };
        if end >= self.line {
            end as nat
        } else {
            self.line as nat
        }
    }

    /// The last line covered, which is `line` unless there is a range.
    pub fn last(&self) -> (r: usize)
        ensures
            r == self.spec_last(),
    {
        let end = match self.end_line {
            Some(e) => e,
            None => self.line,
        };
        if end >= self.line {
            end
        } else {
            self.line
        }
    }

    /// How many lines the anchor spans, saturating rather than overflowing.
    pub fn span(&self) -> (r: usize)
        ensures
            r == (if self.spec_last() - self.line + 1 > usize::MAX {
                usize::MAX as int
            } else {
                self.spec_last() - self.line + 1
            }),
    {
        let d = self.last() - self.line;
        if d == usize::MAX {
            usize::MAX
        } else {
            d + 1
        }
    }
}

/// The most messages one thread will hold.
pub const MAX_THREAD_MESSAGES: usize = 100;

/// Who said something in a thread. Decided by the route it arrived on, never by
/// the request body.
#[derive(Debug, Clone, Copy, PartialEq, Eq, Structural)]
pub enum Author {
    /// The person reviewing.
    User,
    /// The agent that made the session.
    Agent,
}

impl Author {
    pub open spec fn spec_as_str(&self) -> Seq<char> {
        match self {
            Author::User => "user"@,
            Author::Agent => "agent"@,
        }
    }

    pub fn as_str(&self) -> (r: &'static str)
        ensures
            r@ == self.spec_as_str(),
    {
        match self {
            Author::User => "user",
            Author::Agent => "agent",
        }
    }
}

/// One thing said in the discussion under a comment.
#[derive(Debug, Clone)]
pub struct Message {
    /// Assigned by the store, monotonic within the thread.
    pub id: u64,
    pub from: Author,
    pub text: String,
    pub at: u64,
    /// When an agent process took this message; only ever set on the user's.
    pub delivered_at: Option<u64>,
}

/// A comment on one line (or range) of the content.
#[derive(Debug, Clone)]
pub struct Comment {
    /// Assigned by the store, so the page can address a comment it just made.
    pub id: u64,
    /// The file the line belongs to, as it appears in the content.
    pub file: String,
    /// Explicit comment target identity, distinct from the display label.
    pub target: Option<String>,
    /// The first line the comment covers, on `side`.
    pub line: usize,
    /// The last line covered, for a comment dragged across a range; `None` for
    /// a single line.
    pub end_line: Option<usize>,
    pub side: Side,
    /// The commented lines' own text.
    pub snippet: String,
    pub text: String,
    pub at: u64,
    /// The discussion under this comment, oldest first.
    pub replies: Vec<Message>,
    /// When an agent process took the comment itself.
    pub delivered_at: Option<u64>,
}

impl Comment {
    pub open spec fn spec_last(&self) -> (Author, Seq<char>) {
        if self.replies@.len() > 0 {
            (self.replies@.last().from, self.replies@.last().text@)
        } else {
            (Author::User, self.text@)
        }
    }

    /// The last thing said in the thread, and by whom.
    pub fn last(&self) -> (r: (Author, &str))
        ensures
            (r.0, r.1@) == self.spec_last(),
    {
        if self.replies.len() > 0 {
            let m = &self.replies[self.replies.len() - 1];
            (m.from, m.text.as_str())
        } else {
            (Author::User, self.text.as_str())
        }
    }

    /// Whether the reader is waiting on an answer: the thread's last word is
    /// theirs.
    pub fn awaiting_agent(&self) -> (r: bool)
        ensures
            r == (self.spec_last().0 == Author::User),
    {
        let (from, _) = self.last();
        from == Author::User
    }
}

/// Everything needed to create a session.
#[derive(Debug, Clone)]
pub struct NewSession {
    pub title: String,
    pub content: Content,
    pub note: Option<String>,
    /// Where the creating agent is running.
    pub origin: Origin,
    /// The syntax theme the content was highlighted with.
    pub theme: Option<String>,
    /// A guided tour of the work, as rendered HTML.
    pub brief: Option<String>,
    /// Per-line plain text of the brief markdown source.
    pub brief_sources: Vec<String>,
}

impl NewSession {
    /// The two things a session cannot do without.
    pub fn new(title: String, content: Content) -> (r: Self)
        ensures
            r.title == title,
            r.content == content,
            r.note is None,
            r.origin.cwd is None && r.origin.session is None && r.origin.tab is None
                && r.origin.pane is None,
            r.theme is None,
            r.brief is None,
            r.brief_sources@.len() == 0,
    {
        NewSession {
            title,
            content,
            note: None,
            origin: Origin::default(),
            theme: None,
            brief: None,
            brief_sources: Vec::new(),
        }
    }
}

#[derive(Debug, Clone)]
pub struct Session {
    pub id: String,
    pub title: String,
    /// Optional longer note from the agent, shown under the title.
    pub note: Option<String>,
    pub content: Content,
    /// Where the agent that created this session is running.
    pub origin: Origin,
    /// A guided tour of the work, rendered above the content.
    pub brief: Option<String>,
    /// Per-line plain text of the brief markdown source.
    pub brief_sources: Vec<String>,
    /// The syntax theme this session's content was highlighted with.
    pub theme: Option<String>,
    /// When the session was created, in seconds since the epoch.
    pub created: u64,
    /// The reply, once the user sends one. A session accepts a single reply.
    pub reply: Option<Reply>,
    /// Line comments, oldest first.
    pub comments: Vec<Comment>,
}

impl Session {
    /// Past its time to live: strictly more than `ttl` seconds old at `now`.
    pub open spec fn spec_expired(&self, ttl: u64, now: u64) -> bool {
        now >= self.created && now - self.created > ttl
    }

    pub fn expired(&self, ttl: u64, now: u64) -> (r: bool)
        ensures
            r == self.spec_expired(ttl, now),
    {
        now >= self.created && now - self.created > ttl
    }
}

// ---------------------------------------------------------------------------
// Models: what a session's records hold, as values.
// ---------------------------------------------------------------------------

/// The strings of `v`, as character sequences.
pub open spec fn strings_view(v: Seq<String>) -> Seq<Seq<char>> {
    v.map_values(|s: String| s@)
}

/// An acknowledgement, as values.
pub struct AckView {
    pub note: Seq<char>,
    pub at: u64,
}

impl View for Ack {
    type V = AckView;

    open spec fn view(&self) -> AckView {
        AckView { note: self.note@, at: self.at }
    }
}

/// A reply, as values.
pub struct ReplyView {
    pub text: Seq<char>,
    pub at: u64,
    pub delivered_at: Option<u64>,
    pub ack: Option<AckView>,
}

impl View for Reply {
    type V = ReplyView;

    open spec fn view(&self) -> ReplyView {
        ReplyView {
            text: self.text@,
            at: self.at,
            delivered_at: self.delivered_at,
            ack: match self.ack {
                Some(a) => Some(a@),
                None => None,
            },
        }
    }
}

/// A message in a thread, as values.
pub struct MessageView {
    pub id: u64,
    pub from: Author,
    pub text: Seq<char>,
    pub at: u64,
    pub delivered_at: Option<u64>,
}

impl View for Message {
    type V = MessageView;

    open spec fn view(&self) -> MessageView {
        MessageView {
            id: self.id,
            from: self.from,
            text: self.text@,
            at: self.at,
            delivered_at: self.delivered_at,
        }
    }
}

/// The messages of a thread, as values.
pub open spec fn messages_view(v: Seq<Message>) -> Seq<MessageView> {
    v.map_values(|m: Message| m@)
}

/// A comment and its thread, as values.
pub struct CommentView {
    pub id: u64,
    pub file: Seq<char>,
    pub target: Option<Seq<char>>,
    pub line: usize,
    pub end_line: Option<usize>,
    pub side: Side,
    pub snippet: Seq<char>,
    pub text: Seq<char>,
    pub at: u64,
    pub replies: Seq<MessageView>,
    pub delivered_at: Option<u64>,
}

impl View for Comment {
    type V = CommentView;

    open spec fn view(&self) -> CommentView {
        CommentView {
            id: self.id,
            file: self.file@,
            target: opt_view(self.target),
            line: self.line,
            end_line: self.end_line,
            side: self.side,
            snippet: self.snippet@,
            text: self.text@,
            at: self.at,
            replies: messages_view(self.replies@),
            delivered_at: self.delivered_at,
        }
    }
}

/// The comments of a session, as values.
pub open spec fn comments_view(v: Seq<Comment>) -> Seq<CommentView> {
    v.map_values(|c: Comment| c@)
}

/// A session, as values. The content and origin are carried as they are: the
/// store never changes them.
pub struct SessionView {
    pub id: Seq<char>,
    pub title: Seq<char>,
    pub note: Option<Seq<char>>,
    pub content: Content,
    pub origin: Origin,
    pub brief: Option<Seq<char>>,
    pub brief_sources: Seq<Seq<char>>,
    pub theme: Option<Seq<char>>,
    pub created: u64,
    pub reply: Option<ReplyView>,
    pub comments: Seq<CommentView>,
}

impl View for Session {
    type V = SessionView;

    open spec fn view(&self) -> SessionView {
        SessionView {
            id: self.id@,
            title: self.title@,
            note: opt_view(self.note),
            content: self.content,
            origin: self.origin,
            brief: opt_view(self.brief),
            brief_sources: strings_view(self.brief_sources@),
            theme: opt_view(self.theme),
            created: self.created,
            reply: match self.reply {
                Some(r) => Some(r@),
                None => None,
            },
            comments: comments_view(self.comments@),
        }
    }
}

impl Ack {
    /// A copy with the same contents.
    pub fn duplicate(&self) -> (r: Ack)
        ensures
            r@ == self@,
    {
        Ack { note: self.note.clone(), at: self.at }
    }
}

impl Reply {
    /// A copy with the same contents.
    pub fn duplicate(&self) -> (r: Reply)
        ensures
            r@ == self@,
    {
        let ack = match &self.ack {
            Some(a) => Some(a.duplicate()),
            None => None,
        };
        Reply { text: self.text.clone(), at: self.at, delivered_at: self.delivered_at, ack }
    }
}

impl Message {
    /// A copy with the same contents.
    pub fn duplicate(&self) -> (r: Message)
        ensures
            r@ == self@,
    {
        Message {
            id: self.id,
            from: self.from,
            text: self.text.clone(),
            at: self.at,
            delivered_at: self.delivered_at,
        }
    }
}

impl Comment {
    /// A copy with the same contents, thread included.
    pub fn duplicate(&self) -> (r: Comment)
        ensures
            r@ == self@,
    {
        let mut replies: Vec<Message> = Vec::new();
        let mut i: usize = 0;
        while i < self.replies.len()
            invariant
                i <= self.replies.len(),
                replies@.len() == i,
                forall|k: int| 0 <= k < i ==> #[trigger] replies@[k]@ == self.replies@[k]@,
            decreases self.replies.len() - i,
        {
            let m = self.replies[i].duplicate();
            replies.push(m);
            i = i + 1;
        }
        assert(messages_view(replies@) =~= messages_view(self.replies@));
        Comment {
            id: self.id,
            file: self.file.clone(),
            target: self.target.clone(),
            line: self.line,
            end_line: self.end_line,
            side: self.side,
            snippet: self.snippet.clone(),
            text: self.text.clone(),
            at: self.at,
            replies,
            delivered_at: self.delivered_at,
        }
    }
}

/// Dragging up or down selects the same range: the anchor does not depend on
/// the order of its ends.
pub proof fn law_range_ignores_direction(file: String, from: usize, to: usize, side: Side)
    ensures
        ({
            let lo = if from <= to { from } else { to };
            let hi = if from <= to { to } else { from };
            let up = Anchor { file, target: None, line: lo, end_line: Some(hi), side };
            let down = Anchor {
                file,
                target: None,
                line: if to <= from { to } else { from },
                end_line: Some(if to <= from { from } else { to }),
                side,
            };
            up == down && up.spec_last() == hi && up.line <= up.spec_last()
        }),
{
}

/// A side's name reads back as that side.
pub proof fn law_side_names_round_trip(side: Side)
    ensures
        (if side.spec_as_str() == "old"@ {
            Some(Side::Old)
        } else if side.spec_as_str() == "new"@ {
            Some(Side::New)
        } else {
            None::<Side>
        }) == Some(side),
{
    reveal_strlit("old");
    reveal_strlit("new");
    assert("new"@[0] != "old"@[0]);
}

/// An anchor, as values.
pub struct AnchorView {
    pub file: Seq<char>,
    pub target: Option<Seq<char>>,
    pub line: usize,
    pub end_line: Option<usize>,
    pub side: Side,
}

impl View for Anchor {
    type V = AnchorView;

    open spec fn view(&self) -> AnchorView {
        AnchorView {
            file: self.file@,
            target: opt_view(self.target),
            line: self.line,
            end_line: self.end_line,
            side: self.side,
        }
    }
}

impl AnchorView {
    /// The last line covered, which is `line` unless there is a range.
    pub open spec fn spec_last(self) -> nat {
        let end = match self.end_line {
            Some(e) => e,
            None => self.line,
        };
        if end >= self.line {
            end as nat
        } else {
            self.line as nat
        }
    }
}

/// Two hunks with the same header, starts and lines.
pub open spec fn same_hunk(a: Hunk, b: Hunk) -> bool {
    a.header == b.header && a.lines@ == b.lines@ && a.old_start == b.old_start && a.new_start
        == b.new_start
}

/// Two diff files with the same contents.
pub open spec fn same_diff_file(a: DiffFile, b: DiffFile) -> bool {
    &&& a.label == b.label
    &&& a.added == b.added
    &&& a.removed == b.removed
    &&& a.language == b.language
    &&& a.source@ == b.source@
    &&& a.hunks@.len() == b.hunks@.len()
    &&& forall|k: int| 0 <= k < a.hunks@.len() ==> #[trigger] same_hunk(a.hunks@[k], b.hunks@[k])
}

impl DiffLine {
    /// A copy with the same contents.
    pub fn duplicate(&self) -> (r: DiffLine)
        ensures
            r == *self,
    {
        DiffLine {
            kind: self.kind,
            old: self.old,
            new: self.new,
            html: self.html.clone(),
            text: self.text.clone(),
        }
    }
}

impl Hunk {
    /// A copy with the same contents.
    pub fn duplicate(&self) -> (r: Hunk)
        ensures
            same_hunk(r, *self),
    {
        let mut lines: Vec<DiffLine> = Vec::new();
        let mut i: usize = 0;
        while i < self.lines.len()
            invariant
                i <= self.lines.len(),
                lines@ == self.lines@.take(i as int),
            decreases self.lines.len() - i,
        {
            lines.push(self.lines[i].duplicate());
            i = i + 1;
            assert(lines@ =~= self.lines@.take(i as int));
        }
        assert(self.lines@.take(i as int) =~= self.lines@);
        Hunk {
            header: self.header.clone(),
            lines,
            old_start: self.old_start,
            new_start: self.new_start,
        }
    }
}

impl DiffFile {
    /// A copy with the same contents.
    pub fn duplicate(&self) -> (r: DiffFile)
        ensures
            same_diff_file(r, *self),
    {
        let mut hunks: Vec<Hunk> = Vec::new();
        let mut i: usize = 0;
        while i < self.hunks.len()
            invariant
                i <= self.hunks.len(),
                hunks@.len() == i,
                forall|k: int| 0 <= k < i ==> #[trigger] same_hunk(hunks@[k], self.hunks@[k]),
            decreases self.hunks.len() - i,
        {
            hunks.push(self.hunks[i].duplicate());
            i = i + 1;
        }
        let source = self.source.clone();
        assert(source@ =~= self.source@);
        DiffFile {
            label: self.label.clone(),
            hunks,
            added: self.added,
            removed: self.removed,
            language: self.language.clone(),
            source,
        }
    }
}

} // verus!
