//! Where the agent that made a session is running, as an earlier form of the
//! origin record kept: the same four optional fields, detected the same way.

use vstd::prelude::*;

use crate::zellij_origin::{opt_view, spec_parse_panes, spec_summary};

verus! {

/// The terminal context a session was created from.
#[derive(Debug, Clone, PartialEq, Eq)]
pub struct Origin {
    /// The directory the agent was invoked from.
    pub cwd: Option<String>,
    /// The multiplexer session, e.g. a zellij session name.
    pub session: Option<String>,
    /// The tab within that session.
    pub tab: Option<String>,
    /// The pane's title, which under an agent is often the task it was given.
    pub pane: Option<String>,
}

impl Default for Origin {
    fn default() -> (r: Self)
        ensures
            r.cwd is None && r.session is None && r.tab is None && r.pane is None,
    {
        Origin { cwd: None, session: None, tab: None, pane: None }
    }
}

impl Origin {
    /// Whether there is anything worth showing.
    pub fn is_empty(&self) -> (r: bool)
        ensures
            r == (self.cwd is None && self.session is None && self.tab is None),
    {
        self.cwd.is_none() && self.session.is_none() && self.tab.is_none()
    }

    /// A one-line form for a notification: `dd-2 › showme cli — /path`.
    pub fn summary(&self) -> (r: Option<String>)
        ensures
            opt_view(r) == spec_summary(opt_view(self.cwd), opt_view(self.session), opt_view(self.tab)),
    {
        let same = crate::zellij_origin::Origin {
            cwd: self.cwd.clone(),
            session: self.session.clone(),
            tab: self.tab.clone(),
            pane: None,
        };
        same.summary()
    }
}

/// Finds a pane's tab and title in `zellij action list-panes --all` output.
pub fn parse_panes(table: &str, pane_id: &str) -> (r: (Option<String>, Option<String>))
    ensures
        (opt_view(r.0), opt_view(r.1)) == spec_parse_panes(table@, pane_id@),
{
    crate::zellij_origin::parse_panes(table, pane_id)
}

} // verus!
