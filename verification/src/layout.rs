//! Looking things up in a layout snapshot.

use vstd::prelude::*;

use crate::proto::{
    AgentInfo, AgentStateKind, LayoutSnapshot, PaneId, PaneSnapshot, SidebarTabInfo, TabId,
    WorkspaceId, WorkspaceInfo,
};

verus! {

/// The first workspace with an id.
pub open spec fn workspace_with(list: Seq<WorkspaceInfo>, id: WorkspaceId) -> Option<WorkspaceInfo>
    decreases list.len(),
{
    if list.len() == 0 {
        None
    } else if list[0].id == id {
        Some(list[0])
    } else {
        workspace_with(list.skip(1), id)
    }
}

/// The first tab with an id.
pub open spec fn tab_with(list: Seq<SidebarTabInfo>, id: TabId) -> Option<SidebarTabInfo>
    decreases list.len(),
{
    if list.len() == 0 {
        None
    } else if list[0].id == id {
        Some(list[0])
    } else {
        tab_with(list.skip(1), id)
    }
}

/// The first agent in a pane.
pub open spec fn agent_in(list: Seq<AgentInfo>, pane: PaneId) -> Option<AgentInfo>
    decreases list.len(),
{
    if list.len() == 0 {
        None
    } else if list[0].pane == pane {
        Some(list[0])
    } else {
        agent_in(list.skip(1), pane)
    }
}

/// The first pane with an id.
pub open spec fn pane_with(list: Seq<PaneSnapshot>, id: PaneId) -> Option<PaneSnapshot>
    decreases list.len(),
{
    if list.len() == 0 {
        None
    } else if list[0].id == id {
        Some(list[0])
    } else {
        pane_with(list.skip(1), id)
    }
}

/// The first focused pane.
pub open spec fn pane_in_focus(list: Seq<PaneSnapshot>) -> Option<PaneSnapshot>
    decreases list.len(),
{
    if list.len() == 0 {
        None
    } else if list[0].focused {
        Some(list[0])
    } else {
        pane_in_focus(list.skip(1))
    }
}

/// The first active workspace.
pub open spec fn workspace_in_use(list: Seq<WorkspaceInfo>) -> Option<WorkspaceInfo>
    decreases list.len(),
{
    if list.len() == 0 {
        None
    } else if list[0].active {
        Some(list[0])
    } else {
        workspace_in_use(list.skip(1))
    }
}

/// What a reference in an option points to.
pub open spec fn target<T>(r: Option<&T>) -> Option<T> {
    match r {
        Some(x) => Some(*x),
        None => None,
    }
}

pub fn find_workspace(list: &Vec<WorkspaceInfo>, id: WorkspaceId) -> (r: Option<&WorkspaceInfo>)
    ensures
        target(r) == workspace_with(list@, id),
{
    let mut i: usize = 0;
    assert(list@.skip(0) =~= list@);
    while i < list.len()
        invariant
            i <= list@.len(),
            workspace_with(list@, id) == workspace_with(list@.skip(i as int), id),
        decreases list@.len() - i,
    {
        assert(list@.skip(i as int)[0] == list@[i as int]);
        assert(list@.skip(i as int).skip(1) =~= list@.skip(i + 1));
        if list[i].id == id {
            return Some(&list[i]);
        }
        i += 1;
    }
    None
}

pub fn find_tab(list: &Vec<SidebarTabInfo>, id: TabId) -> (r: Option<&SidebarTabInfo>)
    ensures
        target(r) == tab_with(list@, id),
{
    let mut i: usize = 0;
    assert(list@.skip(0) =~= list@);
    while i < list.len()
        invariant
            i <= list@.len(),
            tab_with(list@, id) == tab_with(list@.skip(i as int), id),
        decreases list@.len() - i,
    {
        assert(list@.skip(i as int)[0] == list@[i as int]);
        assert(list@.skip(i as int).skip(1) =~= list@.skip(i + 1));
        if list[i].id == id {
            return Some(&list[i]);
        }
        i += 1;
    }
    None
}

pub fn find_agent(list: &Vec<AgentInfo>, pane: PaneId) -> (r: Option<&AgentInfo>)
    ensures
        target(r) == agent_in(list@, pane),
{
    let mut i: usize = 0;
    assert(list@.skip(0) =~= list@);
    while i < list.len()
        invariant
            i <= list@.len(),
            agent_in(list@, pane) == agent_in(list@.skip(i as int), pane),
        decreases list@.len() - i,
    {
        assert(list@.skip(i as int)[0] == list@[i as int]);
        assert(list@.skip(i as int).skip(1) =~= list@.skip(i + 1));
        if list[i].pane == pane {
            return Some(&list[i]);
        }
        i += 1;
    }
    None
}

pub fn find_pane(list: &Vec<PaneSnapshot>, id: PaneId) -> (r: Option<&PaneSnapshot>)
    ensures
        target(r) == pane_with(list@, id),
{
    let mut i: usize = 0;
    assert(list@.skip(0) =~= list@);
    while i < list.len()
        invariant
            i <= list@.len(),
            pane_with(list@, id) == pane_with(list@.skip(i as int), id),
        decreases list@.len() - i,
    {
        assert(list@.skip(i as int)[0] == list@[i as int]);
        assert(list@.skip(i as int).skip(1) =~= list@.skip(i + 1));
        if list[i].id == id {
            return Some(&list[i]);
        }
        i += 1;
    }
    None
}

/// The first active workspace of a snapshot.
pub fn find_active(list: &Vec<WorkspaceInfo>) -> (r: Option<&WorkspaceInfo>)
    ensures
        target(r) == workspace_in_use(list@),
{
    let mut i: usize = 0;
    assert(list@.skip(0) =~= list@);
    while i < list.len()
        invariant
            i <= list@.len(),
            workspace_in_use(list@) == workspace_in_use(list@.skip(i as int)),
        decreases list@.len() - i,
    {
        assert(list@.skip(i as int)[0] == list@[i as int]);
        assert(list@.skip(i as int).skip(1) =~= list@.skip(i + 1));
        if list[i].active {
            return Some(&list[i]);
        }
        i += 1;
    }
    None
}

/// The first focused pane of a snapshot.
pub fn find_focused(list: &Vec<PaneSnapshot>) -> (r: Option<&PaneSnapshot>)
    ensures
        target(r) == pane_in_focus(list@),
{
    let mut i: usize = 0;
    assert(list@.skip(0) =~= list@);
    while i < list.len()
        invariant
            i <= list@.len(),
            pane_in_focus(list@) == pane_in_focus(list@.skip(i as int)),
        decreases list@.len() - i,
    {
        assert(list@.skip(i as int)[0] == list@[i as int]);
        assert(list@.skip(i as int).skip(1) =~= list@.skip(i + 1));
        if list[i].focused {
            return Some(&list[i]);
        }
        i += 1;
    }
    None
}

/// The tab that a layout shows, as the sidebar describes it.
pub open spec fn tab_at(layout: LayoutSnapshot, workspace: WorkspaceId, tab: TabId) -> Option<
    SidebarTabInfo,
> {
    match workspace_with(layout.workspaces@, workspace) {
        Some(w) => tab_with(w.tabs@, tab),
        None => None,
    }
}

/// The active tab of the active workspace.
pub open spec fn tab_in_use(layout: LayoutSnapshot) -> Option<SidebarTabInfo> {
    match workspace_in_use(layout.workspaces@) {
        Some(workspace) => tab_with(workspace.tabs@, layout.active_tab),
        None => None,
    }
}

/// The active tab of the active workspace.
pub fn find_active_tab(layout: &LayoutSnapshot) -> (r: Option<&SidebarTabInfo>)
    ensures
        target(r) == tab_in_use(*layout),
{
    match find_active(&layout.workspaces) {
        Some(workspace) => find_tab(&workspace.tabs, layout.active_tab),
        None => None,
    }
}

/// The plain name of an agent state.
pub open spec fn state_text(state: AgentStateKind) -> Seq<char> {
    match state {
        AgentStateKind::Blocked => "blocked"@,
        AgentStateKind::Working => "working"@,
        AgentStateKind::Done => "done"@,
        AgentStateKind::Idle => "idle"@,
        AgentStateKind::Unknown => "unknown"@,
    }
}

/// The plain name of an agent state.
pub fn state_name(state: AgentStateKind) -> (r: &'static str)
    ensures
        r@ == state_text(state),
{
    match state {
        AgentStateKind::Blocked => "blocked",
        AgentStateKind::Working => "working",
        AgentStateKind::Done => "done",
        AgentStateKind::Idle => "idle",
        AgentStateKind::Unknown => "unknown",
    }
}

} // verus!
