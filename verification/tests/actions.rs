use pi_sidebar::actions::{
    ensure_action, entrypoint, open_failure, toggle_action, watch_action, EnsureAction, PaneFace,
    ToggleAction, WatchAction,
};
use pi_sidebar::shared::client::{find_agent_pane, find_sidebar_pane, read_panes, split_pane_id, HerdrClient};

const LIST: &str = r#"{"result":{"panes":[
 {"pane_id":"p1","tab_id":"t1","label":"shell","agent":null,"terminal_title":"bash"},
 {"pane_id":"p2","tab_id":"t1","agent":"pi","agentSession":{"agent":"pi","kind":"id","value":"01a0"}},
 {"pane_id":"p3","tab_id":"t2","label":"PI-SIDEBAR"},
 {"pane_id":"p4","tab_id":"t3","terminal_title":"π agent"}
]}}"#;

#[test]
fn pane_lists_are_read() {
    let panes = read_panes(LIST);
    assert_eq!(panes.len(), 4);
    assert_eq!(panes[1].pane_id, "p2");
    assert_eq!(panes[1].session_id().as_deref(), Some("01a0"));
    assert_eq!(panes[0].session_id(), None);
    assert_eq!(panes[2].label.as_deref(), Some("PI-SIDEBAR"));
}

#[test]
fn a_malformed_pane_list_reads_as_no_panes() {
    assert!(read_panes(r#"{"result":{"panes":[{"tab_id":"t1"}]}}"#).is_empty());
    assert!(read_panes(r#"{"result":null}"#).is_empty());
    assert!(read_panes("not json").is_empty());
}

#[test]
fn sidebar_and_agent_panes_are_found_per_tab() {
    let panes = read_panes(LIST);
    assert_eq!(find_sidebar_pane(&panes, Some("t2")), Some(2));
    assert_eq!(find_sidebar_pane(&panes, Some("t1")), None);
    assert_eq!(find_sidebar_pane(&panes, None), Some(2));
    assert_eq!(find_agent_pane(&panes, Some("t1")), Some(1));
    assert_eq!(find_agent_pane(&panes, Some("t3")), Some(3));
    assert_eq!(find_agent_pane(&panes, Some("t2")), None);
}

#[test]
fn ensure_opens_watches_or_does_nothing() {
    let panes = read_panes(LIST);
    assert!(matches!(ensure_action(&panes, Some("t2")), EnsureAction::Nothing));
    assert!(matches!(ensure_action(&panes, Some("t1")), EnsureAction::OpenSidebar));
    match ensure_action(&panes, Some("t9")) {
        EnsureAction::Watch(t) => assert_eq!(t, "t9"),
        _ => panic!("expected a watcher"),
    }
    let none: Vec<pi_sidebar::shared::client::HerdrPaneInfo> = Vec::new();
    assert!(matches!(ensure_action(&none, None), EnsureAction::Nothing));
}

#[test]
fn the_watcher_waits_for_the_agent() {
    let panes = read_panes(LIST);
    assert!(matches!(watch_action(&panes, "t2", false), WatchAction::Done));
    assert!(matches!(watch_action(&panes, "t1", false), WatchAction::Open));
    assert!(matches!(watch_action(&panes, "t9", false), WatchAction::Wait));
    assert!(matches!(watch_action(&panes, "t9", true), WatchAction::GiveUp));
}

#[test]
fn toggle_closes_an_open_sidebar_or_opens_beside_the_agent() {
    let panes = read_panes(LIST);
    match toggle_action(&panes, Some("t2")) {
        ToggleAction::Close(id) => assert_eq!(id, "p3"),
        _ => panic!("expected close"),
    }
    match toggle_action(&panes, Some("t1")) {
        ToggleAction::Open(target) => assert_eq!(target.as_deref(), Some("p2")),
        _ => panic!("expected open"),
    }
    match toggle_action(&panes, Some("t9")) {
        ToggleAction::Open(target) => assert_eq!(target, None),
        _ => panic!("expected open"),
    }
}

#[test]
fn entrypoints_are_platform_suffixed() {
    assert_eq!(entrypoint(PaneFace::Sidebar, false), "sidebar");
    assert_eq!(entrypoint(PaneFace::Sidebar, true), "sidebar-win");
    assert_eq!(entrypoint(PaneFace::UsagePopup, true), "usage-win");
    assert_eq!(entrypoint(PaneFace::NotesPopup, false), "notes-popup");
    assert_eq!(open_failure(PaneFace::SidebarPopup), "Failed to open sidebar popup");
}

#[test]
fn the_client_defaults_to_herdr() {
    assert_eq!(HerdrClient::with_bin_path(None).bin_path, "herdr");
    assert_eq!(HerdrClient::with_bin_path(Some("/x/herdr".to_string())).bin_path, "/x/herdr");
}

#[test]
fn a_split_reports_the_new_pane() {
    assert_eq!(split_pane_id(r#"{"result": {"pane": {"pane_id": "p-9", "label": null}}}"#), "p-9");
    assert_eq!(split_pane_id(r#"{"result": {"pane": null}}"#), "unknown");
    assert_eq!(split_pane_id(r#"{"result": {"pane": {"label": "x"}}}"#), "unknown");
    assert_eq!(split_pane_id("oops"), "unknown");
}
