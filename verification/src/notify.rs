//! What a notification says, and in which shape it is sent.
//!
//! Slack has two incoming shapes and they are not interchangeable: incoming
//! webhooks take Block Kit, workflow triggers take a flat map of the variables
//! the workflow declares. The shape is chosen from the URL, and the texts of
//! either shape are built here; posting them is done around the library.

use vstd::prelude::*;

use crate::text::{chars_of, escape_markup, join, push_chars, push_str, string_of};

verus! {

/// Which payload shape an endpoint expects.
#[derive(Debug, Clone, Copy, PartialEq, Eq, Structural)]
pub enum Style {
    /// Block Kit, for a classic incoming webhook.
    Blocks,
    /// A flat variable map, for a workflow trigger.
    Trigger,
}

impl Style {
    /// Infers the shape from the URL, the only signal available before
    /// sending: a URL containing `/triggers/` is a workflow trigger.
    pub fn detect(url: &str) -> (r: Self)
        ensures
            r == (if crate::text::contains(url@, "/triggers/"@) {
                Style::Trigger
            } else {
                Style::Blocks
            }),
    {
        let cs = chars_of(url);
        if crate::text::contains_lit(&cs, "/triggers/") {
            Style::Trigger
        } else {
            Style::Blocks
        }
    }
}

/// What a notification announces.
#[derive(Debug, Clone)]
pub struct Notification {
    pub title: String,
    pub note: Option<String>,
    pub url: String,
    /// Shown as a small label: "code", "docs", "demo", "static".
    pub kind: &'static str,
    /// Extra context lines, e.g. the files included.
    pub details: Vec<String>,
}

/// The separator between a title and its note.
pub open spec fn dash() -> Seq<char> {
    seq![' ', '\u{2014}', ' ']
}

/// The message as plain text: the title (and note), the link on its own line,
/// then the kind and details.
pub open spec fn spec_plain(n: Notification) -> Seq<char> {
    let head = match n.note {
        Some(note) => n.title@ + dash() + note@,
        None => n.title@,
    };
    head + seq!['\n'] + n.url@ + seq!['\n'] + join(
        seq![n.kind@] + crate::session::strings_view(n.details@),
        " \u{b7} "@,
    )
}

/// The payload of either shape, as the texts it carries.
#[derive(Debug, Clone)]
pub enum Payload {
    /// A flat map with one variable, `field`, holding the plain text.
    Trigger { field: String, text: String },
    /// Block Kit: the fallback text, the linked heading, the note (when there
    /// is one) and the context line.
    Blocks { fallback: String, heading: String, note: Option<String>, context: String },
}

impl Notification {
    /// The message as plain text, for endpoints that render no markup.
    pub fn plain(&self) -> (r: String)
        ensures
            r@ == spec_plain(*self),
    {
        let mut text = chars_of(self.title.as_str());
        match &self.note {
            Some(note) => {
                push_str(&mut text, " \u{2014} ");
                push_str(&mut text, note.as_str());
            },
            None => {},
        }
        proof {
            reveal_strlit(" \u{2014} ");
        }
        text.push('\n');
        push_str(&mut text, self.url.as_str());
        text.push('\n');
        let mut parts: Vec<Vec<char>> = Vec::new();
        parts.push(chars_of(self.kind));
        let mut i: usize = 0;
        while i < self.details.len()
            invariant
                i <= self.details.len(),
                parts@.len() == i + 1,
                parts@[0]@ == self.kind@,
                forall|k: int| 1 <= k <= i ==> #[trigger] parts@[k]@ == self.details@[k - 1]@,
            decreases self.details.len() - i,
        {
            parts.push(chars_of(self.details[i].as_str()));
            i = i + 1;
        }
        assert(crate::text::views(parts@) =~= seq![self.kind@] + crate::session::strings_view(
            self.details@,
        ));
        let joined = crate::text::join_exec(&parts, " \u{b7} ");
        push_chars(&mut text, &joined);
        string_of(&text)
    }

    /// The heading of a Block Kit message: the title, escaped, linked to the
    /// URL and bold.
    pub fn heading(&self) -> (r: String)
        ensures
            r@ == seq!['*', '<'] + self.url@ + seq!['|'] + escape_markup(self.title@) + seq![
                '>',
                '*',
            ],
    {
        let mut text: Vec<char> = Vec::new();
        text.push('*');
        text.push('<');
        push_str(&mut text, self.url.as_str());
        text.push('|');
        let t = crate::text::escape_markup_exec(self.title.as_str());
        push_str(&mut text, t.as_str());
        text.push('>');
        text.push('*');
        string_of(&text)
    }

    /// The context line of a Block Kit message: the kind as code, then the
    /// details escaped, separated by dots.
    pub fn context_line(&self) -> (r: String)
        ensures
            r@ == join(
                seq![seq!['`'] + self.kind@ + seq!['`']] + crate::session::strings_view(
                    self.details@,
                ).map_values(|d: Seq<char>| escape_markup(d)),
                "  \u{b7}  "@,
            ),
    {
        let mut parts: Vec<Vec<char>> = Vec::new();
        let mut k: Vec<char> = Vec::new();
        k.push('`');
        push_str(&mut k, self.kind);
        k.push('`');
        parts.push(k);
        let mut i: usize = 0;
        while i < self.details.len()
            invariant
                i <= self.details.len(),
                parts@.len() == i + 1,
                parts@[0]@ == seq!['`'] + self.kind@ + seq!['`'],
                forall|j: int|
                    1 <= j <= i ==> #[trigger] parts@[j]@ == escape_markup(self.details@[j - 1]@),
            decreases self.details.len() - i,
        {
            let e = crate::text::escape_markup_exec(self.details[i].as_str());
            parts.push(chars_of(e.as_str()));
            i = i + 1;
        }
        assert(crate::text::views(parts@) =~= seq![seq!['`'] + self.kind@ + seq!['`']]
            + crate::session::strings_view(self.details@).map_values(
            |d: Seq<char>| escape_markup(d),
        ));
        let joined = crate::text::join_exec(&parts, "  \u{b7}  ");
        string_of(&joined)
    }

    /// The payload for `style`. `field` names the workflow variable a trigger
    /// fills; a trigger's text is plain and unescaped, shown verbatim.
    pub fn payload_for(&self, style: Style, field: &str) -> (r: Payload)
        ensures
            style == Style::Trigger ==> (r matches Payload::Trigger { field: f, text } && f@
                == field@ && text@ == spec_plain(*self)),
            style == Style::Blocks ==> (r matches Payload::Blocks {
                fallback,
                heading,
                note,
                context,
            } && fallback@ == self.title@ + dash() + self.url@ && heading@ == seq!['*', '<']
                + self.url@ + seq!['|'] + escape_markup(self.title@) + seq!['>', '*'] && match self.note {
                Some(n) => note matches Some(m) && m@ == escape_markup(n@),
                None => note is None,
            } && context@ == join(
                seq![seq!['`'] + self.kind@ + seq!['`']] + crate::session::strings_view(
                    self.details@,
                ).map_values(|d: Seq<char>| escape_markup(d)),
                "  \u{b7}  "@,
            )),
    {
        proof {
            reveal_strlit(" \u{2014} ");
        }
        match style {
            Style::Trigger => Payload::Trigger { field: field.to_owned(), text: self.plain() },
            Style::Blocks => {
                let mut fallback = chars_of(self.title.as_str());
                push_str(&mut fallback, " \u{2014} ");
                push_str(&mut fallback, self.url.as_str());
                let note = match &self.note {
                    Some(n) => Some(crate::text::escape_markup_exec(n.as_str())),
                    None => None,
                };
                Payload::Blocks {
                    fallback: string_of(&fallback),
                    heading: self.heading(),
                    note,
                    context: self.context_line(),
                }
            },
        }
    }
}

/// Escapes the three characters Slack treats as markup control characters.
pub fn escape(text: &str) -> (r: String)
    ensures
        r@ == escape_markup(text@),
{
    crate::text::escape_markup_exec(text)
}

} // verus!
