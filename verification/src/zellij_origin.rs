//! Where the agent that made a session is running.
//!
//! A notification arrives with no context about which of several agents sent it.
//! The working directory usually identifies the work, and under a multiplexer the
//! session and tab name say which pane to switch to — which is the actual next
//! action when a reply needs a conversation.

use vstd::prelude::*;

use crate::text::{
    chars_eq, chars_of, join, join_exec, lines_exec, lines_of, push_chars, push_str, slice_chars,
    split_exec, split_on, string_of, trim, trim_chars, views,
};

verus! {

/// The terminal context a session was created from.
///
/// Every field is optional: wdyt runs from plain shells, from CI, and from
/// multiplexers it knows nothing about. A missing field is shown as nothing
/// rather than guessed at.
#[derive(Debug, Clone, PartialEq, Eq)]
pub struct Origin {
    /// The directory the agent was invoked from.
    pub cwd: Option<String>,
    /// The multiplexer session, e.g. a zellij session name.
    pub session: Option<String>,
    /// The tab within that session.
    pub tab: Option<String>,
    /// The pane's title, which under an agent is often the task it was given.
    pub pane: Option<String>,
}

impl Default for Origin {
    fn default() -> (r: Self)
        ensures
            r.cwd is None && r.session is None && r.tab is None && r.pane is None,
    {
        Origin { cwd: None, session: None, tab: None, pane: None }
    }
}

/// The view of an optional string.
pub open spec fn opt_view(o: Option<String>) -> Option<Seq<char>> {
    match o {
        Some(s) => Some(s@),
        None => None,
    }
}

/// The one-line place description: `session › tab`, then the directory,
/// joined by ` — `; `None` when nothing is known.
pub open spec fn spec_summary(
    cwd: Option<Seq<char>>,
    session: Option<Seq<char>>,
    tab: Option<Seq<char>>,
) -> Option<Seq<char>> {
    let first: Seq<Seq<char>> = match (session, tab) {
        (Some(s), Some(t)) => seq![s + " › "@ + t],
        (Some(s), None) => seq![s],
        (None, Some(t)) => seq![t],
        (None, None) => Seq::empty(),
    };
    let parts = match cwd {
        Some(c) => first.push(c),
        None => first,
    };
    if parts.len() == 0 {
        None
    } else {
        Some(join(parts, " — "@))
    }
}

fn chars_of_opt(o: &Option<String>) -> (r: Option<Vec<char>>)
    ensures
        match o {
            Some(s) => r matches Some(v) && v@ == s@,
            None => r is None,
        },
{
    match o {
        Some(s) => Some(chars_of(s.as_str())),
        None => None,
    }
}

impl Origin {
    /// The assembly logic behind detection, with the zellij lookup injected:
    /// when there is no session, the tab/pane probe does not run at all.
    pub fn build<F: FnOnce() -> (Option<String>, Option<String>)>(
        cwd: Option<String>,
        session: Option<String>,
        probe: F,
    ) -> (r: Self)
        requires
            session is Some ==> probe.requires(()),
        ensures
            r.cwd == cwd,
            r.session == session,
            session is None ==> r.tab is None && r.pane is None,
            session is Some ==> probe.ensures((), (r.tab, r.pane)),
    {
        match session {
            Some(session) => {
                let (tab, pane) = probe();
                Origin { cwd, session: Some(session), tab, pane }
            },
            None => Origin { cwd, session: None, tab: None, pane: None },
        }
    }

    /// Whether there is anything worth showing.
    pub fn is_empty(&self) -> (r: bool)
        ensures
            r == (self.cwd is None && self.session is None && self.tab is None),
    {
        self.cwd.is_none() && self.session.is_none() && self.tab.is_none()
    }

    /// A one-line form for a notification: `dd-2 › wdyt cli — /path`.
    pub fn summary(&self) -> (r: Option<String>)
        ensures
            opt_view(r) == spec_summary(opt_view(self.cwd), opt_view(self.session), opt_view(self.tab)),
    {
        let mut parts: Vec<Vec<char>> = Vec::new();
        let session = chars_of_opt(&self.session);
        let tab = chars_of_opt(&self.tab);
        match (session, tab) {
            (Some(s), Some(t)) => {
                let mut p = s;
                push_str(&mut p, " › ");
                push_chars(&mut p, &t);
                parts.push(p);
            },
            (Some(s), None) => parts.push(s),
            (None, Some(t)) => parts.push(t),
            (None, None) => {},
        }
        match chars_of_opt(&self.cwd) {
            Some(c) => parts.push(c),
            None => {},
        }
        proof {
            let sv = opt_view(self.session);
            let tv = opt_view(self.tab);
            let cv = opt_view(self.cwd);
            let first: Seq<Seq<char>> = match (sv, tv) {
                (Some(s), Some(t)) => seq![s + " › "@ + t],
                (Some(s), None) => seq![s],
                (None, Some(t)) => seq![t],
                (None, None) => Seq::empty(),
            };
            let expected = match cv {
                Some(c) => first.push(c),
                None => first,
            };
            assert(views(parts@) =~= expected);
        }
        if parts.len() == 0 {
            None
        } else {
            let joined = join_exec(&parts, " — ");
            Some(string_of(&joined))
        }
    }
}

// ---------------------------------------------------------------------------
// Reading `zellij action list-panes --all`.
// ---------------------------------------------------------------------------

pub open spec fn column_separator() -> Seq<char> {
    seq![' ', ' ']
}

/// The first field whose trimmed text is `name`.
pub open spec fn column_from(fields: Seq<Seq<char>>, name: Seq<char>, k: int) -> Option<int>
    decreases fields.len() - k,
{
    if k < 0 || k >= fields.len() {
        None
    } else if trim(fields[k]) == name {
        Some(k)
    } else {
        column_from(fields, name, k + 1)
    }
}

pub open spec fn column(fields: Seq<Seq<char>>, name: Seq<char>) -> Option<int> {
    column_from(fields, name, 0)
}

/// A cell's value: trimmed, and absent when empty or a bare `-`.
pub open spec fn cell(fields: Seq<Seq<char>>, index: Option<int>) -> Option<Seq<char>> {
    match index {
        Some(i) => if 0 <= i < fields.len() && trim(fields[i]).len() > 0 && trim(fields[i]) != "-"@ {
            Some(trim(fields[i]))
        } else {
            None
        },
        None => None,
    }
}

/// The tab and title of the first row, from `k` on, whose pane id is `wanted`.
pub open spec fn find_pane(
    rows: Seq<Seq<char>>,
    k: int,
    wanted: Seq<char>,
    tab_at: int,
    id_at: int,
    title_at: Option<int>,
) -> (Option<Seq<char>>, Option<Seq<char>>)
    decreases rows.len() - k,
{
    if k < 0 || k >= rows.len() {
        (None, None)
    } else {
        let fields = split_on(rows[k], column_separator());
        if 0 <= id_at < fields.len() && trim(fields[id_at]) == wanted {
            (cell(fields, Some(tab_at)), cell(fields, title_at))
        } else {
            find_pane(rows, k + 1, wanted, tab_at, id_at, title_at)
        }
    }
}

/// A pane's tab and title in the table: the header names the columns, and the
/// row whose `PANE_ID` is `terminal_<pane_id>` supplies them.
pub open spec fn spec_parse_panes(table: Seq<char>, pane_id: Seq<char>) -> (
    Option<Seq<char>>,
    Option<Seq<char>>,
) {
    let lines = lines_of(table);
    let header = if lines.len() > 0 {
        lines[0]
    } else {
        Seq::empty()
    };
    let fields = split_on(header, column_separator());
    match (column(fields, "TAB_NAME"@), column(fields, "PANE_ID"@)) {
        (Some(tab_at), Some(id_at)) => find_pane(
            lines,
            1,
            "terminal_"@ + pane_id,
            tab_at,
            id_at,
            column(fields, "TITLE"@),
        ),
        _ => (None, None),
    }
}

fn column_exec(fields: &Vec<Vec<char>>, name: &str) -> (r: Option<usize>)
    ensures
        r is None <==> column(views(fields@), name@) is None,
        r matches Some(k) ==> column(views(fields@), name@) == Some(k as int),
{
    let target = chars_of(name);
    let mut k: usize = 0;
    while k < fields.len()
        invariant
            k <= fields.len(),
            target@ == name@,
            column_from(views(fields@), name@, k as int) == column(views(fields@), name@),
        decreases fields.len() - k,
    {
        let t = trim_chars(&fields[k]);
        if chars_eq(&t, &target) {
            return Some(k);
        }
        k = k + 1;
    }
    None
}

fn cell_exec(fields: &Vec<Vec<char>>, index: Option<usize>) -> (r: Option<String>)
    ensures
        opt_view(r) == cell(
            views(fields@),
            match index {
                Some(i) => Some(i as int),
                None => None,
            },
        ),
{
    match index {
        Some(i) => {
            if i < fields.len() {
                let t = trim_chars(&fields[i]);
                let dash = chars_of("-");
                if t.len() > 0 && !chars_eq(&t, &dash) {
                    Some(string_of(&t))
                } else {
                    None
                }
            } else {
                None
            }
        },
        None => None,
    }
}

/// Finds a pane's tab and title in `zellij action list-panes --all` output.
///
/// The table is column-aligned with two-space separators and the fields can
/// themselves contain single spaces — tab names usually do — so it is split on
/// the double space rather than on whitespace.
pub fn parse_panes(table: &str, pane_id: &str) -> (r: (Option<String>, Option<String>))
    ensures
        (opt_view(r.0), opt_view(r.1)) == spec_parse_panes(table@, pane_id@),
{
    let mut wanted: Vec<char> = Vec::new();
    push_str(&mut wanted, "terminal_");
    push_str(&mut wanted, pane_id);
    let cs = chars_of(table);
    let lines = lines_exec(&cs);
    let mut sep: Vec<char> = Vec::new();
    sep.push(' ');
    sep.push(' ');
    let header: Vec<char> = if lines.len() > 0 {
        slice_chars(&lines[0], 0, lines[0].len())
    } else {
        Vec::new()
    };
    assert(lines.len() > 0 ==> lines@[0]@.subrange(0, lines@[0]@.len() as int) == lines@[0]@);
    let fields = split_exec(&header, &sep);
    proof {
        let ls = lines_of(table@);
        assert(views(lines@) == ls);
        if ls.len() > 0 {
            assert(ls[0] == lines@[0]@);
        }
        assert(header@ == (if ls.len() > 0 {
            ls[0]
        } else {
            Seq::<char>::empty()
        }));
        assert(sep@ =~= column_separator());
    }
    let tab_at = match column_exec(&fields, "TAB_NAME") {
        Some(k) => k,
        None => return (None, None),
    };
    let id_at = match column_exec(&fields, "PANE_ID") {
        Some(k) => k,
        None => return (None, None),
    };
    let title_at = column_exec(&fields, "TITLE");
    let ghost title_spec = column(views(fields@), "TITLE"@);
    assert(title_spec == match title_at {
        Some(t) => Some(t as int),
        None => None,
    });
    let mut k: usize = 1;
    while k < lines.len()
        invariant
            1 <= k,
            wanted@ == "terminal_"@ + pane_id@,
            sep@ == column_separator(),
            title_spec == match title_at {
                Some(t) => Some(t as int),
                None => None,
            },
            find_pane(views(lines@), k as int, wanted@, tab_at as int, id_at as int, title_spec)
                == spec_parse_panes(table@, pane_id@),
        decreases lines.len() - k,
    {
        let row = split_exec(&lines[k], &sep);
        if id_at < row.len() {
            let id = trim_chars(&row[id_at]);
            if chars_eq(&id, &wanted) {
                let tab = cell_exec(&row, Some(tab_at));
                let title = cell_exec(&row, title_at);
                return (tab, title);
            }
        }
        k = k + 1;
    }
    (None, None)
}

} // verus!
