//! Herdr action handlers, as decisions: what the `ensure` event, its
//! watcher and the `toggle` action do given the panes Herdr lists, and which
//! pane entrypoint each of the plugin's faces opens.
use crate::shared::client::{
    find_agent_pane, find_sidebar_pane, first_pane, in_tab, index_view, is_pi_agent,
    is_sidebar_of, opt_str_view, HerdrPaneInfo,
};
use vstd::prelude::*;

verus! {

/// What an `ensure` event (tab or pane focused or created) does.
pub enum EnsureAction {
    /// The tab already has its sidebar, or has no tab to watch.
    Nothing,
    /// A pi agent runs in the tab and the sidebar is missing: open it.
    OpenSidebar,
    /// No agent yet: start a watcher for the tab, which opens the sidebar
    /// once the agent registers.
    Watch(String),
}

/// Whether the tab has its sidebar pane.
pub open spec fn has_sidebar(panes: Seq<HerdrPaneInfo>, tab_id: Option<Seq<char>>) -> bool {
    first_pane(panes, |p: HerdrPaneInfo| is_sidebar_of(p, tab_id)) is Some
}

/// Whether a pi agent runs in the tab.
pub open spec fn has_agent(panes: Seq<HerdrPaneInfo>, tab_id: Option<Seq<char>>) -> bool {
    first_pane(panes, |p: HerdrPaneInfo| in_tab(p, tab_id) && is_pi_agent(p)) is Some
}

/// The `ensure` decision for the tab: nothing when its sidebar is open,
/// open it when a pi agent runs there, else watch the tab (if there is one).
pub fn ensure_action(panes: &[HerdrPaneInfo], tab_id: Option<&str>) -> (r: EnsureAction)
    ensures
        has_sidebar(panes@, opt_str_view(tab_id)) ==> r is Nothing,
        !has_sidebar(panes@, opt_str_view(tab_id)) && has_agent(panes@, opt_str_view(tab_id)) ==> r is OpenSidebar,
        !has_sidebar(panes@, opt_str_view(tab_id)) && !has_agent(panes@, opt_str_view(tab_id)) ==> match tab_id {
            Some(t) => r matches EnsureAction::Watch(w) && w@ == t@,
            None => r is Nothing,
        },
{
    if find_sidebar_pane(panes, tab_id).is_some() {
        return EnsureAction::Nothing;
    }
    if find_agent_pane(panes, tab_id).is_some() {
        return EnsureAction::OpenSidebar;
    }
    match tab_id {
        Some(t) => EnsureAction::Watch(crate::text::to_string(t)),
        None => EnsureAction::Nothing,
    }
}

/// What the `ensure` watcher does on one poll of the tab's panes.
pub enum WatchAction {
    /// The sidebar is open: stop.
    Done,
    /// The agent registered: open the sidebar if it is still missing, then stop.
    Open,
    /// Still no agent and time is left: poll again.
    Wait,
    /// Still no agent and the time is up: stop.
    GiveUp,
}

/// The watcher's decision for one poll of the tab's panes.
pub fn watch_action(panes: &[HerdrPaneInfo], tab_id: &str, timed_out: bool) -> (r: WatchAction)
    ensures
        has_sidebar(panes@, Some(tab_id@)) ==> r is Done,
        !has_sidebar(panes@, Some(tab_id@)) && has_agent(panes@, Some(tab_id@)) ==> r is Open,
        !has_sidebar(panes@, Some(tab_id@)) && !has_agent(panes@, Some(tab_id@)) ==> (if timed_out {
            r is GiveUp
        } else {
            r is Wait
        }),
{
    if find_sidebar_pane(panes, Some(tab_id)).is_some() {
        return WatchAction::Done;
    }
    if find_agent_pane(panes, Some(tab_id)).is_some() {
        return WatchAction::Open;
    }
    if timed_out {
        WatchAction::GiveUp
    } else {
        WatchAction::Wait
    }
}

/// What the `toggle` action does.
pub enum ToggleAction {
    /// Close the tab's sidebar pane.
    Close(String),
    /// Open the sidebar, split next to the tab's pi agent pane when there is one.
    Open(Option<String>),
}

/// The `toggle` decision: close the tab's sidebar when it is open, else
/// open one beside the first pi agent pane of the tab.
pub fn toggle_action(panes: &[HerdrPaneInfo], tab_id: Option<&str>) -> (r: ToggleAction)
    ensures
        match first_pane(panes@, |p: HerdrPaneInfo| is_sidebar_of(p, opt_str_view(tab_id))) {
            Some(i) => r matches ToggleAction::Close(id) && id@ == panes@[i].pane_id@,
            None => r matches ToggleAction::Open(target) && match first_pane(
                panes@,
                |p: HerdrPaneInfo| in_tab(p, opt_str_view(tab_id)) && is_pi_agent(p),
            ) {
                Some(j) => target matches Some(t) && t@ == panes@[j].pane_id@,
                None => target is None,
            },
        },
{
    match find_sidebar_pane(panes, tab_id) {
        Some(i) => ToggleAction::Close(panes[i].pane_id.clone()),
        None => match find_agent_pane(panes, tab_id) {
            Some(j) => ToggleAction::Open(Some(panes[j].pane_id.clone())),
            None => ToggleAction::Open(None),
        },
    }
}

/// The faces of the plugin that open as Herdr panes.
pub enum PaneFace {
    Sidebar,
    SidebarPopup,
    NotesPopup,
    UsagePopup,
}

/// The entrypoint id a face opens, as declared in `herdr-plugin.toml`
/// (with a `-win` suffix on Windows).
pub open spec fn spec_entrypoint(face: PaneFace, windows: bool) -> Seq<char> {
    let base = match face {
        PaneFace::Sidebar => "sidebar"@,
        PaneFace::SidebarPopup => "sidebar-popup"@,
        PaneFace::NotesPopup => "notes-popup"@,
        PaneFace::UsagePopup => "usage"@,
    };
    if windows {
        base + "-win"@
    } else {
        base
    }
}

/// The entrypoint id of a face (see [`spec_entrypoint`]).
pub fn entrypoint(face: PaneFace, windows: bool) -> (r: &'static str)
    ensures
        r@ == spec_entrypoint(face, windows),
{
    proof {
        reveal_strlit("sidebar");
        reveal_strlit("sidebar-win");
        reveal_strlit("sidebar-popup");
        reveal_strlit("sidebar-popup-win");
        reveal_strlit("notes-popup");
        reveal_strlit("notes-popup-win");
        reveal_strlit("usage");
        reveal_strlit("usage-win");
        reveal_strlit("-win");
    }
    match face {
        PaneFace::Sidebar => if windows {
            "sidebar-win"
        } else {
            "sidebar"
        },
        PaneFace::SidebarPopup => if windows {
            "sidebar-popup-win"
        } else {
            "sidebar-popup"
        },
        PaneFace::NotesPopup => if windows {
            "notes-popup-win"
        } else {
            "notes-popup"
        },
        PaneFace::UsagePopup => if windows {
            "usage-win"
        } else {
            "usage"
        },
    }
}

/// What a failed open reports: `Failed to open ` and the face's name.
pub fn open_failure(face: PaneFace) -> (r: String)
    ensures
        r@ == "Failed to open "@ + match face {
            PaneFace::Sidebar => "sidebar"@,
            PaneFace::SidebarPopup => "sidebar popup"@,
            PaneFace::NotesPopup => "notes modal"@,
            PaneFace::UsagePopup => "usage overview"@,
        },
{
    let label = match face {
        PaneFace::Sidebar => "sidebar",
        PaneFace::SidebarPopup => "sidebar popup",
        PaneFace::NotesPopup => "notes modal",
        PaneFace::UsagePopup => "usage overview",
    };
    let v = crate::text::concat_chars(
        crate::text::chars_of("Failed to open ").as_slice(),
        crate::text::chars_of(label).as_slice(),
    );
    crate::text::string_of(v.as_slice())
}

} // verus!
