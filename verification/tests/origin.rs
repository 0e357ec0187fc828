use wdyt::origin;
use wdyt::zellij_origin::{parse_panes, Origin};

/// Real `zellij action list-panes --all` output, trimmed to three rows.
const TABLE: &str = "\
TAB_ID  TAB_POS  TAB_NAME  PANE_ID  TYPE  TITLE  COMMAND  CWD  FOCUSED  FLOATING  EXITED  X  Y  ROWS  COLS
1  0  get new ui deployed  plugin_2  plugin  zellij:tab-bar  zellij:tab-bar  -  false  false  false  0  0  1  243
10  4  wdyt cli  terminal_28  terminal  Build wdyt CLI tool  agent  /local/home/rcoh/code  true  false  false  0  1  68  121
10  4  wdyt cli  terminal_29  terminal  a shell  -  /local/home/rcoh/code  false  false  false  122  1  68  121";

/// The same table as an earlier build of the tool saw it.
const SHOWME_TABLE: &str = "\
TAB_ID  TAB_POS  TAB_NAME  PANE_ID  TYPE  TITLE  COMMAND  CWD  FOCUSED  FLOATING  EXITED  X  Y  ROWS  COLS
1  0  get new ui deployed  plugin_2  plugin  zellij:tab-bar  zellij:tab-bar  -  false  false  false  0  0  1  243
10  4  showme cli  terminal_28  terminal  Build showme CLI tool  agent  /local/home/rcoh/code  true  false  false  0  1  68  121
10  4  showme cli  terminal_29  terminal  a shell  -  /local/home/rcoh/code  false  false  false  122  1  68  121";

/// A probe that fails the test if it is ever called.
fn never_probed() -> (Option<String>, Option<String>) {
    panic!("zellij was queried when no session was set");
}

#[test]
fn outside_zellij_it_reports_only_the_directory() {
    let origin = Origin::build(Some("/work".to_owned()), None, never_probed);
    assert_eq!(origin.cwd.as_deref(), Some("/work"));
    assert_eq!(origin.session, None);
    assert_eq!(origin.tab, None);
    assert_eq!(origin.pane, None);
    assert!(!origin.is_empty());
}

#[test]
fn with_nothing_at_all_it_is_empty() {
    let origin = Origin::build(None, None, never_probed);
    assert!(origin.is_empty());
    assert_eq!(origin.summary(), None);
}

#[test]
fn under_zellij_it_probes_for_tab_and_pane() {
    let origin = Origin::build(Some("/work".to_owned()), Some("dd-2".to_owned()), || {
        (Some("wdyt cli".to_owned()), Some("a task".to_owned()))
    });
    assert_eq!(origin.session.as_deref(), Some("dd-2"));
    assert_eq!(origin.tab.as_deref(), Some("wdyt cli"));
    assert_eq!(origin.pane.as_deref(), Some("a task"));
}

#[test]
fn zellij_origin_a_pane_resolves_to_its_tab_and_title() {
    let (tab, pane) = parse_panes(TABLE, "28");
    assert_eq!(tab.as_deref(), Some("wdyt cli"));
    assert_eq!(pane.as_deref(), Some("Build wdyt CLI tool"));
}

#[test]
fn zellij_origin_a_tab_name_containing_a_space_survives() {
    let (tab, _) = parse_panes(TABLE, "29");
    assert_eq!(tab.as_deref(), Some("wdyt cli"));
}

#[test]
fn zellij_origin_an_unknown_pane_yields_nothing_rather_than_a_wrong_tab() {
    assert_eq!(parse_panes(TABLE, "999"), (None, None));
}

#[test]
fn zellij_origin_garbage_input_is_not_a_panic() {
    assert_eq!(parse_panes("", "28"), (None, None));
    assert_eq!(parse_panes("no columns here", "28"), (None, None));
}

#[test]
fn zellij_origin_the_summary_reads_as_a_place() {
    let origin = Origin {
        cwd: Some("/local/home/rcoh/code".to_owned()),
        session: Some("dd-2".to_owned()),
        tab: Some("wdyt cli".to_owned()),
        pane: None,
    };
    assert_eq!(
        origin.summary().as_deref(),
        Some("dd-2 › wdyt cli — /local/home/rcoh/code")
    );
}

#[test]
fn zellij_origin_a_bare_shell_still_reports_its_directory() {
    let origin = Origin {
        cwd: Some("/tmp".to_owned()),
        ..Origin::default()
    };
    assert!(!origin.is_empty());
    assert_eq!(origin.summary().as_deref(), Some("/tmp"));
}

#[test]
fn zellij_origin_nothing_known_is_empty() {
    let origin = Origin::default();
    assert!(origin.is_empty());
    assert_eq!(origin.summary(), None);
}

#[test]
fn origin_a_pane_resolves_to_its_tab_and_title() {
    let (tab, pane) = origin::parse_panes(SHOWME_TABLE, "28");
    assert_eq!(tab.as_deref(), Some("showme cli"));
    assert_eq!(pane.as_deref(), Some("Build showme CLI tool"));
}

#[test]
fn origin_a_tab_name_containing_a_space_survives() {
    let (tab, _) = origin::parse_panes(SHOWME_TABLE, "29");
    assert_eq!(tab.as_deref(), Some("showme cli"));
}

#[test]
fn origin_an_unknown_pane_yields_nothing_rather_than_a_wrong_tab() {
    assert_eq!(origin::parse_panes(SHOWME_TABLE, "999"), (None, None));
}

#[test]
fn origin_garbage_input_is_not_a_panic() {
    assert_eq!(origin::parse_panes("", "28"), (None, None));
    assert_eq!(origin::parse_panes("no columns here", "28"), (None, None));
}

#[test]
fn origin_the_summary_reads_as_a_place() {
    let o = origin::Origin {
        cwd: Some("/local/home/rcoh/code".to_owned()),
        session: Some("dd-2".to_owned()),
        tab: Some("showme cli".to_owned()),
        pane: None,
    };
    assert_eq!(
        o.summary().as_deref(),
        Some("dd-2 › showme cli — /local/home/rcoh/code")
    );
}

#[test]
fn origin_a_bare_shell_still_reports_its_directory() {
    let o = origin::Origin {
        cwd: Some("/tmp".to_owned()),
        ..origin::Origin::default()
    };
    assert!(!o.is_empty());
    assert_eq!(o.summary().as_deref(), Some("/tmp"));
}

#[test]
fn origin_nothing_known_is_empty() {
    let o = origin::Origin::default();
    assert!(o.is_empty());
    assert_eq!(o.summary(), None);
}

#[test]
fn a_pane_title_with_a_session_but_no_tab_is_left_out_of_the_summary() {
    let o = Origin {
        cwd: None,
        session: Some("dd-2".to_owned()),
        tab: None,
        pane: Some("a task".to_owned()),
    };
    assert_eq!(o.summary().as_deref(), Some("dd-2"));
}
