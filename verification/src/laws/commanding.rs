//! Commands from the shell: what they ask of the daemon, and what they say.

use vstd::prelude::*;

use crate::cli::{DirectionArg, PaneCommand, SessionCommand, TabCommand, WorkspaceCommand, WorktreeCommand};
use crate::commands::{self, SessionEntry};
use crate::dispatch::{self, Next, Request, SessionStep, TargetWork, Then};
use crate::laws::{finding, searching};
use crate::layout;
use crate::proto::{
    AgentStateKind, ClientMessage, Direction, Event, LayoutSnapshot, PaneId, PaneSnapshot, QueryKind,
    ServerMessage, SidebarTabInfo, TabId, WorkspaceId, WorkspaceInfo,
};
use crate::rank::{self, Rank};
use crate::text;

verus! {

// ------------------------------------------------------------------------------ states

/// The five states by name. No two share one, and no other word names any.
pub proof fn law_states_have_names(value: Seq<char>)
    ensures
        layout::state_text(AgentStateKind::Blocked) == seq!['b', 'l', 'o', 'c', 'k', 'e', 'd'],
        layout::state_text(AgentStateKind::Working) == seq!['w', 'o', 'r', 'k', 'i', 'n', 'g'],
        layout::state_text(AgentStateKind::Done) == seq!['d', 'o', 'n', 'e'],
        layout::state_text(AgentStateKind::Idle) == seq!['i', 'd', 'l', 'e'],
        layout::state_text(AgentStateKind::Unknown) == seq!['u', 'n', 'k', 'n', 'o', 'w', 'n'],
        match commands::state_named(value) {
            Some(state) => value == layout::state_text(state),
            None => forall|state: AgentStateKind| value != #[trigger] layout::state_text(state),
        },
{
    reveal_strlit("blocked");
    reveal_strlit("working");
    reveal_strlit("done");
    reveal_strlit("idle");
    reveal_strlit("unknown");
    assert forall|state: AgentStateKind| commands::state_named(value) is None implies value
        != #[trigger] layout::state_text(state) by {
        match state {
            AgentStateKind::Blocked => {},
            AgentStateKind::Working => {},
            AgentStateKind::Done => {},
            AgentStateKind::Idle => {},
            AgentStateKind::Unknown => {},
        }
    }
}

// ------------------------------------------------------------------------------- lists

proof fn lemma_pane_ranks(panes: Seq<PaneSnapshot>, agents: bool, count: int)
    requires
        0 <= count <= panes.len() <= usize::MAX,
    ensures
        forall|i: int, j: int|
            0 <= i < j < commands::pane_ranks(panes, agents, count).len() ==> (
            #[trigger] commands::pane_ranks(panes, agents, count)[i]).index < (
            #[trigger] commands::pane_ranks(panes, agents, count)[j]).index,
        forall|i: int|
            0 <= i < commands::pane_ranks(panes, agents, count).len() ==> ({
                let r = #[trigger] commands::pane_ranks(panes, agents, count)[i];
                r.index < count && r.group == panes[r.index as int].id.0 && r.weight == 0 && (agents
                    ==> panes[r.index as int].agent is Some)
            }),
        forall|p: int|
            0 <= p < count && (agents ==> (#[trigger] panes[p]).agent is Some)
                ==> commands::pane_ranks(panes, agents, count).contains(
                Rank { group: panes[p].id.0, weight: 0, index: p as usize },
            ),
    decreases count,
{
    if count > 0 {
        lemma_pane_ranks(panes, agents, count - 1);
        let before = commands::pane_ranks(panes, agents, count - 1);
        let after = commands::pane_ranks(panes, agents, count);
        assert forall|p: int|
            0 <= p < count && (agents ==> (#[trigger] panes[p]).agent is Some) implies after.contains(
            Rank { group: panes[p].id.0, weight: 0, index: p as usize },
        ) by {
            let r = Rank { group: panes[p].id.0, weight: 0, index: p as usize };
            if p < count - 1 {
                assert(before.contains(r));
                assert(after[before.index_of(r)] == r);
            } else {
                assert(after.last() == r);
                assert(after[after.len() - 1] == r);
            }
        }
    }
}

/// Panes are listed by rising id, each that belongs in the list and no other. A list of
/// agents leaves shells out.
pub proof fn law_panes_are_listed_by_id(panes: Seq<PaneSnapshot>, agents: bool, p: int)
    requires
        panes.len() <= usize::MAX,
        0 <= p < panes.len(),
    ensures
        ({
            let list = commands::panes_by_id(panes, agents);
            &&& forall|i: int, j: int|
                0 <= i < j < list.len() ==> (#[trigger] list[i]).id.0 <= (#[trigger] list[j]).id.0
            &&& list.contains(panes[p]) <== !agents || panes[p].agent is Some
            &&& forall|i: int|
                0 <= i < list.len() ==> panes.contains(#[trigger] list[i]) && (agents
                    ==> list[i].agent is Some)
        }),
{
    let ranks = commands::pane_ranks(panes, agents, panes.len() as int);
    let sorted = rank::sort(ranks);
    let list = commands::panes_by_id(panes, agents);
    lemma_pane_ranks(panes, agents, panes.len() as int);
    searching::law_sorting_puts_ranks_in_order(ranks);
    assert forall|i: int, j: int| 0 <= i < j < list.len() implies (#[trigger] list[i]).id.0 <= (
    #[trigger] list[j]).id.0 by {
        assert(searching::leads(sorted[i], sorted[j]));
        assert(ranks.contains(sorted[i]) && ranks.contains(sorted[j]));
        assert(ranks[ranks.index_of(sorted[i])] == sorted[i]);
        assert(ranks[ranks.index_of(sorted[j])] == sorted[j]);
    }
    assert forall|i: int| 0 <= i < list.len() implies panes.contains(#[trigger] list[i]) && (agents
        ==> list[i].agent is Some) by {
        assert(ranks.contains(sorted[i]));
        assert(ranks[ranks.index_of(sorted[i])] == sorted[i]);
        assert(panes[sorted[i].index as int] == list[i]);
    }
    if !agents || panes[p].agent is Some {
        let r = Rank { group: panes[p].id.0, weight: 0, index: p as usize };
        assert(ranks.contains(r));
        assert(sorted.contains(ranks[ranks.index_of(r)]));
        assert(list[sorted.index_of(r)] == panes[p]);
    }
}

/// A list starts each line with the id, and marks what is in use with a star behind it.
pub proof fn law_lines_start_with_ids(
    pane: PaneSnapshot,
    tab: crate::proto::TabInfo,
    workspace: WorkspaceInfo,
)
    ensures
        ({
            let id = text::decimal(pane.id.0 as nat);
            let line = commands::pane_line(pane);
            &&& id.is_prefix_of(line)
            &&& line[id.len() as int] == '*' <==> pane.focused
            &&& line[id.len() as int] == ' ' <==> !pane.focused
            &&& layout::state_text(pane.state).is_suffix_of(line)
            &&& line.subrange(id.len() as int + 3, id.len() as int + 3 + pane.title@.len()) == pane.title@
            &&& id.is_prefix_of(commands::agent_line(pane))
            &&& pane.state_reason@.is_suffix_of(commands::agent_line(pane))
        }),
        ({
            let id = text::decimal(tab.id.0 as nat);
            let line = commands::tab_line(tab);
            &&& id.is_prefix_of(line)
            &&& line[id.len() as int] == '*' <==> tab.active
            &&& layout::state_text(tab.state).is_suffix_of(line)
            &&& line.subrange(id.len() as int + 3, id.len() as int + 3 + tab.name@.len()) == tab.name@
        }),
        ({
            let id = text::decimal(workspace.id.0 as nat);
            let line = commands::workspace_line(workspace);
            &&& id.is_prefix_of(line)
            &&& line[id.len() as int] == '*' <==> workspace.active
            &&& line.subrange(id.len() as int + 3, id.len() as int + 3 + workspace.name@.len())
                == workspace.name@
            &&& (text::decimal(workspace.tabs@.len()) + " tab(s)"@).is_suffix_of(line)
        }),
{
    reveal_strlit("*");
    reveal_strlit(" ");
    reveal_strlit("  ");
    let id = text::decimal(pane.id.0 as nat);
    let line = commands::pane_line(pane);
    assert(line[id.len() as int] == commands::star(pane.focused)[0]);
    assert(line.subrange(id.len() as int + 3, id.len() as int + 3 + pane.title@.len()) =~= pane.title@);
    let id = text::decimal(tab.id.0 as nat);
    let line = commands::tab_line(tab);
    assert(line[id.len() as int] == commands::star(tab.active)[0]);
    assert(line.subrange(id.len() as int + 3, id.len() as int + 3 + tab.name@.len()) =~= tab.name@);
    let id = text::decimal(workspace.id.0 as nat);
    let line = commands::workspace_line(workspace);
    assert(line[id.len() as int] == commands::star(workspace.active)[0]);
    assert(line.subrange(id.len() as int + 3, id.len() as int + 3 + workspace.name@.len()) =~= workspace.name@);
}

/// A session is said to be dead exactly when nothing answers, and else to be restored
/// exactly when it was.
pub proof fn law_sessions_are_marked(e: SessionEntry)
    ensures
        ({
            let counted = SessionEntry { alive: true, restored: false, ..e };
            let line = commands::session_line(e);
            let bare = commands::session_line(counted);
            &&& e.name@.is_prefix_of(line)
            &&& !e.alive ==> line == bare + " (dead)"@
            &&& e.alive && e.restored ==> line == bare + " (restored)"@
            &&& e.alive && !e.restored ==> line == bare
            &&& (text::decimal(e.panes as nat) + " pane(s)"@).is_suffix_of(bare)
        }),
{
    reveal_strlit("");
    let counted = SessionEntry { alive: true, restored: false, ..e };
    let bare = commands::session_line(counted);
    assert(bare =~= e.name@ + "  "@ + text::decimal(e.workspaces as nat) + " workspace(s)  "@
        + text::decimal(e.tabs as nat) + " tab(s)  "@ + text::decimal(e.panes as nat)
        + " pane(s)"@);
}

/// An event's line tells the kind, then whom it is about; a change of state tells the state
/// before the one after.
pub proof fn law_events_are_told(event: Event)
    ensures
        match event {
            Event::AgentStateChanged { pane, from, to } => {
                let line = commands::event_line(event);
                &&& ("agent_state_changed  pane "@ + text::decimal(pane.0 as nat)).is_prefix_of(line)
                &&& (layout::state_text(from) + " -> "@ + layout::state_text(to)).is_suffix_of(line)
            },
            Event::PaneOpened { pane } => commands::event_line(event) == "pane_opened  pane "@
                + text::decimal(pane.0 as nat),
            Event::PaneClosed { pane } => commands::event_line(event) == "pane_closed  pane "@
                + text::decimal(pane.0 as nat),
            Event::TabOpened { tab } => commands::event_line(event) == "tab_opened  tab "@
                + text::decimal(tab.0 as nat),
            Event::TabClosed { tab } => commands::event_line(event) == "tab_closed  tab "@
                + text::decimal(tab.0 as nat),
            Event::WorkspaceOpened { workspace } => commands::event_line(event)
                == "workspace_opened  workspace "@ + text::decimal(workspace.0 as nat),
            Event::WorkspaceClosed { workspace } => commands::event_line(event)
                == "workspace_closed  workspace "@ + text::decimal(workspace.0 as nat),
            Event::TabRenamed { tab, name } => {
                let line = commands::event_line(event);
                &&& ("tab_renamed  tab "@ + text::decimal(tab.0 as nat)).is_prefix_of(line)
                &&& name@.is_suffix_of(line)
            },
            Event::WorkspaceRenamed { workspace, name } => {
                let line = commands::event_line(event);
                &&& ("workspace_renamed  workspace "@ + text::decimal(
                    workspace.0 as nat,
                )).is_prefix_of(line)
                &&& name@.is_suffix_of(line)
            },
            Event::SessionRenamed { name, socket } => {
                let line = commands::event_line(event);
                &&& ("session_renamed  "@ + name@).is_prefix_of(line)
                &&& socket@.is_suffix_of(line)
            },
            Event::Notification(n) => {
                let line = commands::event_line(event);
                &&& ("notification  pane "@ + text::decimal(n.pane.0 as nat)).is_prefix_of(line)
                &&& (n.agent@ + "  "@ + layout::state_text(n.state)).is_suffix_of(line)
            },
        },
{
    match event {
        Event::AgentStateChanged { pane, from, to } => {
            let line = commands::event_line(event);
            let head = "agent_state_changed  pane "@ + text::decimal(pane.0 as nat);
            let tail = layout::state_text(from) + " -> "@ + layout::state_text(to);
            assert(line =~= head + "  "@ + tail);
        },
        Event::Notification(n) => {
            let line = commands::event_line(event);
            let head = "notification  pane "@ + text::decimal(n.pane.0 as nat);
            let tail = n.agent@ + "  "@ + layout::state_text(n.state);
            assert(line =~= head + "  "@ + tail);
        },
        _ => {},
    }
}

proof fn lemma_joined_front(first: Seq<char>, rest: Seq<Seq<char>>, sep: Seq<char>)
    requires
        rest.len() > 0,
    ensures
        text::joined(seq![first] + rest, sep) == first + sep + text::joined(rest, sep),
    decreases rest.len(),
{
    let all = seq![first] + rest;
    if rest.len() == 1 {
        assert(all.drop_last() =~= seq![first]);
        assert(text::joined(seq![first], sep) == first);
    } else {
        assert(all.drop_last() =~= seq![first] + rest.drop_last());
        lemma_joined_front(first, rest.drop_last(), sep);
    }
    assert(text::joined(all, sep) =~= first + sep + text::joined(rest, sep));
}

/// The last lines of a text are its last: one line more shows the line before them, and
/// the last alone is the last line.
pub proof fn law_last_lines_are_last(contents: Seq<char>, lines: int)
    ensures
        ({
            let all = text::line_texts(contents);
            &&& 0 < lines < all.len() ==> commands::last_lines(contents, lines + 1) == all[all.len()
                - lines - 1] + "\n"@ + commands::last_lines(contents, lines)
            &&& lines >= all.len() ==> commands::last_lines(contents, lines) == text::joined(
                all,
                "\n"@,
            )
            &&& all.len() > 0 ==> commands::last_lines(contents, 1) == all.last()
            &&& commands::last_lines(contents, 0) == Seq::<char>::empty()
        }),
{
    let all = text::line_texts(contents);
    if 0 < lines < all.len() {
        let fewer = all.skip(all.len() - lines);
        let more = all.skip(all.len() - lines - 1);
        assert(more =~= seq![all[all.len() - lines - 1]] + fewer);
        lemma_joined_front(all[all.len() - lines - 1], fewer, "\n"@);
    }
    if lines >= all.len() {
        assert(all.skip(0) =~= all);
    }
    if all.len() > 0 {
        assert(all.skip(all.len() - 1) =~= seq![all.last()]);
    }
    assert(all.skip(all.len() as int) =~= Seq::empty());
}

// ------------------------------------------------------------------------------- names

proof fn lemma_workspace_named(list: Seq<WorkspaceInfo>, name: Seq<char>)
    ensures
        match commands::workspace_named(list, name) {
            Some(id) => exists|i: int|
                0 <= i < list.len() && (#[trigger] list[i]).name@ == name && list[i].id == id && (
                forall|j: int| 0 <= j < i ==> (#[trigger] list[j]).name@ != name),
            None => forall|i: int| 0 <= i < list.len() ==> (#[trigger] list[i]).name@ != name,
        },
    decreases list.len(),
{
    if list.len() > 0 && list[0].name@ != name {
        let rest = list.skip(1);
        lemma_workspace_named(rest, name);
        if let Some(id) = commands::workspace_named(rest, name) {
            let k = choose|i: int|
                0 <= i < rest.len() && (#[trigger] rest[i]).name@ == name && rest[i].id == id && (
                forall|j: int| 0 <= j < i ==> (#[trigger] rest[j]).name@ != name);
            assert(list[k + 1].name@ == name);
            assert forall|j: int| 0 <= j < k + 1 implies (#[trigger] list[j]).name@ != name by {
                if j > 0 {
                    assert(rest[j - 1] == list[j]);
                }
            }
        } else {
            assert forall|i: int| 0 <= i < list.len() implies (#[trigger] list[i]).name@ != name by {
                if i > 0 {
                    assert(rest[i - 1] == list[i]);
                }
            }
        }
    } else if list.len() > 0 {
        assert(list[0].name@ == name);
    }
}

/// A workspace is meant by its id, and else by its name: the first of that name.
pub proof fn law_workspaces_are_meant_by_id_or_name(list: Seq<WorkspaceInfo>, needle: Seq<char>)
    ensures
        match commands::workspace_for(list, needle) {
            Some(id) => exists|i: int|
                0 <= i < list.len() && (#[trigger] list[i]).id == id && (text::parse_unsigned(
                    needle,
                ) == Some(id.0) || (list[i].name@ == needle && forall|j: int|
                    0 <= j < i ==> (#[trigger] list[j]).name@ != needle)),
            None => forall|i: int|
                0 <= i < list.len() ==> (#[trigger] list[i]).name@ != needle
                    && text::parse_unsigned(needle) != Some(list[i].id.0),
        },
        forall|i: int|
            0 <= i < list.len() && text::parse_unsigned(needle) == Some((#[trigger] list[i]).id.0)
                ==> commands::workspace_for(list, needle) == Some(list[i].id),
{
    lemma_workspace_named(list, needle);
    if let Some(n) = text::parse_unsigned(needle) {
        finding::law_workspaces_are_found(list, WorkspaceId(n));
        if let Some(found) = layout::workspace_with(list, WorkspaceId(n)) {
            assert(list[list.index_of(found)].id == WorkspaceId(n));
        }
    }
}

proof fn lemma_tab_named(list: Seq<SidebarTabInfo>, name: Seq<char>)
    ensures
        match commands::tab_named(list, name) {
            Some(id) => exists|i: int|
                0 <= i < list.len() && (#[trigger] list[i]).name@ == name && list[i].id == id && (
                forall|j: int| 0 <= j < i ==> (#[trigger] list[j]).name@ != name),
            None => forall|i: int| 0 <= i < list.len() ==> (#[trigger] list[i]).name@ != name,
        },
    decreases list.len(),
{
    if list.len() > 0 && list[0].name@ != name {
        let rest = list.skip(1);
        lemma_tab_named(rest, name);
        if let Some(id) = commands::tab_named(rest, name) {
            let k = choose|i: int|
                0 <= i < rest.len() && (#[trigger] rest[i]).name@ == name && rest[i].id == id && (
                forall|j: int| 0 <= j < i ==> (#[trigger] rest[j]).name@ != name);
            assert(list[k + 1].name@ == name);
            assert forall|j: int| 0 <= j < k + 1 implies (#[trigger] list[j]).name@ != name by {
                if j > 0 {
                    assert(rest[j - 1] == list[j]);
                }
            }
        } else {
            assert forall|i: int| 0 <= i < list.len() implies (#[trigger] list[i]).name@ != name by {
                if i > 0 {
                    assert(rest[i - 1] == list[i]);
                }
            }
        }
    } else if list.len() > 0 {
        assert(list[0].name@ == name);
    }
}

/// A tab is meant by its id, and else by its name: the first of that name.
pub proof fn law_tabs_are_meant_by_id_or_name(list: Seq<SidebarTabInfo>, needle: Seq<char>)
    ensures
        match commands::tab_for(list, needle) {
            Some(id) => exists|i: int|
                0 <= i < list.len() && (#[trigger] list[i]).id == id && (text::parse_unsigned(
                    needle,
                ) == Some(id.0) || (list[i].name@ == needle && forall|j: int|
                    0 <= j < i ==> (#[trigger] list[j]).name@ != needle)),
            None => forall|i: int|
                0 <= i < list.len() ==> (#[trigger] list[i]).name@ != needle
                    && text::parse_unsigned(needle) != Some(list[i].id.0),
        },
        forall|i: int|
            0 <= i < list.len() && text::parse_unsigned(needle) == Some((#[trigger] list[i]).id.0)
                ==> commands::tab_for(list, needle) == Some(list[i].id),
{
    lemma_tab_named(list, needle);
    if let Some(n) = text::parse_unsigned(needle) {
        finding::law_tabs_are_found(list, TabId(n));
        if let Some(found) = layout::tab_with(list, TabId(n)) {
            assert(list[list.index_of(found)].id == TabId(n));
        }
    }
}

proof fn lemma_all_tabs(list: Seq<WorkspaceInfo>, count: int, w: int, t: int)
    requires
        0 <= w < count <= list.len(),
        0 <= t < list[w].tabs@.len(),
    ensures
        commands::all_tabs(list, count).contains(list[w].tabs@[t]),
    decreases count,
{
    let before = commands::all_tabs(list, count - 1);
    let after = commands::all_tabs(list, count);
    if w < count - 1 {
        lemma_all_tabs(list, count - 1, w, t);
        assert(after[before.index_of(list[w].tabs@[t])] == list[w].tabs@[t]);
    } else {
        assert(after[before.len() + t] == list[w].tabs@[t]);
    }
}

proof fn lemma_tabs_named(tabs: Seq<SidebarTabInfo>, name: Seq<char>)
    ensures
        commands::tabs_named(tabs, name).len() == 0 ==> forall|i: int|
            0 <= i < tabs.len() ==> (#[trigger] tabs[i]).name@ != name,
        commands::tabs_named(tabs, name).len() == 1 ==> exists|i: int|
            0 <= i < tabs.len() && (#[trigger] tabs[i]).name@ == name && tabs[i].id
                == commands::tabs_named(tabs, name)[0] && forall|j: int|
                0 <= j < tabs.len() && j != i ==> (#[trigger] tabs[j]).name@ != name,
        commands::tabs_named(tabs, name).len() > 1 ==> exists|i: int, j: int|
            0 <= i < j < tabs.len() && (#[trigger] tabs[i]).name@ == name && (
            #[trigger] tabs[j]).name@ == name,
    decreases tabs.len(),
{
    if tabs.len() > 0 {
        let front = tabs.drop_last();
        lemma_tabs_named(front, name);
        let before = commands::tabs_named(front, name);
        let last = tabs.len() - 1;
        assert(forall|i: int| 0 <= i < last ==> #[trigger] tabs[i] == front[i]);
        if tabs.last().name@ == name {
            assert(tabs[last].name@ == name);
            if before.len() == 1 {
                let i = choose|i: int|
                    0 <= i < front.len() && (#[trigger] front[i]).name@ == name && front[i].id
                        == before[0] && forall|j: int|
                        0 <= j < front.len() && j != i ==> (#[trigger] front[j]).name@ != name;
                assert(tabs[i].name@ == name);
            } else if before.len() > 1 {
                let (i, j) = choose|i: int, j: int|
                    0 <= i < j < front.len() && (#[trigger] front[i]).name@ == name && (
                    #[trigger] front[j]).name@ == name;
                assert(tabs[i].name@ == name && tabs[j].name@ == name);
            } else {
                assert forall|j: int| 0 <= j < tabs.len() && j != last implies (
                #[trigger] tabs[j]).name@ != name by {
                    assert(front[j] == tabs[j]);
                }
            }
        } else {
            if before.len() == 1 {
                let i = choose|i: int|
                    0 <= i < front.len() && (#[trigger] front[i]).name@ == name && front[i].id
                        == before[0] && forall|j: int|
                        0 <= j < front.len() && j != i ==> (#[trigger] front[j]).name@ != name;
                assert(tabs[i].name@ == name);
                assert forall|j: int| 0 <= j < tabs.len() && j != i implies (
                #[trigger] tabs[j]).name@ != name by {
                    if j < last {
                        assert(front[j] == tabs[j]);
                    }
                }
            } else if before.len() > 1 {
                let (i, j) = choose|i: int, j: int|
                    0 <= i < j < front.len() && (#[trigger] front[i]).name@ == name && (
                    #[trigger] front[j]).name@ == name;
                assert(tabs[i].name@ == name && tabs[j].name@ == name);
            } else {
                assert forall|i: int| 0 <= i < tabs.len() implies (#[trigger] tabs[i]).name@
                    != name by {
                    if i < last {
                        assert(front[i] == tabs[i]);
                    }
                }
            }
        }
    }
}

/// A tab anywhere is meant by its id, and else by a name that it alone has.
pub proof fn law_tabs_anywhere_are_told_apart(layout: LayoutSnapshot, needle: Seq<char>, w: int, t: int)
    requires
        0 <= w < layout.workspaces@.len(),
        0 <= t < layout.workspaces@[w].tabs@.len(),
    ensures
        ({
            let tab = layout.workspaces@[w].tabs@[t];
            let found = dispatch::tab_anywhere(layout, needle);
            &&& text::parse_unsigned(needle) == Some(tab.id.0) ==> found == Ok::<
                TabId,
                Seq<char>,
            >(tab.id)
            &&& tab.name@ == needle ==> (match found {
                Ok(id) => text::parse_unsigned(needle) == Some(id.0) || id == tab.id,
                Err(fault) => fault == "tab name '"@ + needle + "' is ambiguous; use its id"@,
            })
        }),
{
    let tabs = commands::all_tabs(layout.workspaces@, layout.workspaces@.len() as int);
    let tab = layout.workspaces@[w].tabs@[t];
    lemma_all_tabs(layout.workspaces@, layout.workspaces@.len() as int, w, t);
    let at = tabs.index_of(tab);
    assert(tabs[at] == tab);
    lemma_tabs_named(tabs, needle);
}

/// A worktree is meant as a workspace is, and else by its branch.
pub proof fn law_worktrees_are_meant_by_branch(list: Seq<WorkspaceInfo>, branch: Seq<char>)
    ensures
        match commands::workspace_on(list, branch) {
            Some(id) => exists|i: int|
                0 <= i < list.len() && text::option_text((#[trigger] list[i]).branch) == Some(
                    branch,
                ) && list[i].id == id && (forall|j: int|
                    0 <= j < i ==> text::option_text((#[trigger] list[j]).branch) != Some(branch)),
            None => forall|i: int|
                0 <= i < list.len() ==> text::option_text((#[trigger] list[i]).branch) != Some(
                    branch,
                ),
        },
    decreases list.len(),
{
    if list.len() > 0 && text::option_text(list[0].branch) != Some(branch) {
        let rest = list.skip(1);
        law_worktrees_are_meant_by_branch(rest, branch);
        if let Some(id) = commands::workspace_on(rest, branch) {
            let k = choose|i: int|
                0 <= i < rest.len() && text::option_text((#[trigger] rest[i]).branch) == Some(
                    branch,
                ) && rest[i].id == id && (forall|j: int|
                    0 <= j < i ==> text::option_text((#[trigger] rest[j]).branch) != Some(branch));
            assert(list[k + 1] == rest[k]);
            assert forall|j: int| 0 <= j < k + 1 implies text::option_text(
                (#[trigger] list[j]).branch,
            ) != Some(branch) by {
                if j > 0 {
                    assert(rest[j - 1] == list[j]);
                }
            }
        } else {
            assert forall|i: int| 0 <= i < list.len() implies text::option_text(
                (#[trigger] list[i]).branch,
            ) != Some(branch) by {
                if i > 0 {
                    assert(rest[i - 1] == list[i]);
                }
            }
        }
    } else if list.len() > 0 {
        assert(text::option_text(list[0].branch) == Some(branch));
    }
}

/// A pane answers to a name when its agent or its title is that name; all that do are
/// found, in order.
pub proof fn law_targets_answer_to_their_names(panes: Seq<PaneSnapshot>, target: Seq<char>)
    ensures
        ({
            let found = commands::answering(panes, target);
            &&& forall|k: int|
                0 <= k < found.len() ==> 0 <= #[trigger] found[k] < panes.len() && (
                text::option_text(panes[found[k]].agent) == Some(target) || panes[found[k]].title@
                    == target)
            &&& forall|p: int|
                0 <= p < panes.len() && (text::option_text((#[trigger] panes[p]).agent) == Some(
                    target,
                ) || panes[p].title@ == target) ==> found.contains(p)
            &&& forall|i: int, j: int|
                0 <= i < j < found.len() ==> #[trigger] found[i] < #[trigger] found[j]
        }),
    decreases panes.len(),
{
    if panes.len() > 0 {
        let front = panes.drop_last();
        law_targets_answer_to_their_names(front, target);
        let before = commands::answering(front, target);
        let found = commands::answering(panes, target);
        assert forall|k: int| 0 <= k < found.len() implies 0 <= #[trigger] found[k] < panes.len()
            && (text::option_text(panes[found[k]].agent) == Some(target) || panes[found[k]].title@
            == target) by {
            if k < before.len() {
                assert(found[k] == before[k]);
                assert(front[before[k]] == panes[before[k]]);
            }
        }
        assert forall|p: int|
            0 <= p < panes.len() && (text::option_text((#[trigger] panes[p]).agent) == Some(target)
                || panes[p].title@ == target) implies found.contains(p) by {
            if p < front.len() {
                assert(front[p] == panes[p]);
                assert(found[before.index_of(p)] == p);
            } else {
                assert(found[found.len() - 1] == p);
            }
        }
    }
}

// ---------------------------------------------------------------------------- requests

/// What a command of a pane asks for names the pane that was given; where the daemon acts
/// on the focused pane, that pane is focused first.
pub proof fn law_pane_commands_reach_their_pane(pane: PaneId, direction: DirectionArg, cells: i16)
    ensures
        dispatch::pane_start(PaneCommand::Kill { pane }) == (Next::Ask {
            request: Request::Message(ClientMessage::FocusPaneId { id: pane }),
            then: Then::AcceptThen(ClientMessage::ClosePane),
        }),
        dispatch::pane_start(PaneCommand::Zoom { pane }) == (Next::Ask {
            request: Request::Message(ClientMessage::FocusPaneId { id: pane }),
            then: Then::AcceptThen(ClientMessage::ZoomPane),
        }),
        dispatch::pane_start(PaneCommand::Focus { pane }) == (Next::Ask {
            request: Request::Message(ClientMessage::FocusPaneId { id: pane }),
            then: Then::Accept,
        }),
        dispatch::pane_start(PaneCommand::Swap { pane, direction }) == (Next::Ask {
            request: Request::Message(ClientMessage::FocusPaneId { id: pane }),
            then: Then::AcceptThen(
                ClientMessage::SwapPane { direction: crate::cli::direction_of(direction) },
            ),
        }),
        dispatch::pane_start(PaneCommand::Resize { pane, direction, cells }) == (Next::Ask {
            request: Request::Message(ClientMessage::FocusPaneId { id: pane }),
            then: Then::AcceptThen(
                ClientMessage::ResizePane { direction: crate::cli::direction_of(direction), cells },
            ),
        }),
        crate::cli::direction_of(DirectionArg::Up) == Direction::Up,
        crate::cli::direction_of(DirectionArg::Down) == Direction::Down,
        crate::cli::direction_of(DirectionArg::Left) == Direction::Left,
        crate::cli::direction_of(DirectionArg::Right) == Direction::Right,
{
}

/// A command of a tab acts on the tab of that id or name in the active workspace.
pub proof fn law_tab_commands_reach_their_tab(layout: LayoutSnapshot, tab: String, name: String)
    ensures
        match layout::workspace_with(layout.workspaces@, layout.active_workspace) {
            Some(w) => match commands::tab_for(w.tabs@, tab@) {
                Some(id) => {
                    &&& dispatch::on_layout(Then::CloseTab { tab }, layout) == Ok::<
                        Next,
                        Seq<char>,
                    >(
                        Next::Ask {
                            request: Request::Message(ClientMessage::CloseTab { id }),
                            then: Then::Accept,
                        },
                    )
                    &&& dispatch::on_layout(Then::SelectTab { tab }, layout) == Ok::<
                        Next,
                        Seq<char>,
                    >(
                        Next::Ask {
                            request: Request::Message(ClientMessage::SelectTab { id }),
                            then: Then::Accept,
                        },
                    )
                    &&& dispatch::on_layout(Then::RenameTab { tab, name }, layout) == Ok::<
                        Next,
                        Seq<char>,
                    >(
                        Next::Ask {
                            request: Request::Message(ClientMessage::RenameTabId { id, name }),
                            then: Then::Accept,
                        },
                    )
                },
                None => {
                    &&& dispatch::on_layout(Then::CloseTab { tab }, layout) is Err
                    &&& dispatch::on_layout(Then::SelectTab { tab }, layout) is Err
                    &&& dispatch::on_layout(Then::RenameTab { tab, name }, layout) is Err
                },
            },
            None => dispatch::on_layout(Then::CloseTab { tab }, layout) is Err,
        },
        dispatch::tab_start(TabCommand::Close { tab }) == (Next::Ask {
            request: Request::Message(ClientMessage::Query(QueryKind::Layout)),
            then: Then::CloseTab { tab },
        }),
        dispatch::tab_start(TabCommand::Select { tab }) == (Next::Ask {
            request: Request::Message(ClientMessage::Query(QueryKind::Layout)),
            then: Then::SelectTab { tab },
        }),
        dispatch::tab_start(TabCommand::Rename { tab, name }) == (Next::Ask {
            request: Request::Message(ClientMessage::Query(QueryKind::Layout)),
            then: Then::RenameTab { tab, name },
        }),
{
}

/// A command of a workspace acts on the workspace of that id or name.
pub proof fn law_workspace_commands_reach_their_workspace(
    layout: LayoutSnapshot,
    workspace: String,
    name: String,
)
    ensures
        match commands::workspace_for(layout.workspaces@, workspace@) {
            Some(id) => {
                &&& dispatch::on_layout(Then::CloseWorkspace { workspace }, layout) == Ok::<
                    Next,
                    Seq<char>,
                >(
                    Next::Ask {
                        request: Request::Message(ClientMessage::CloseWorkspace { id }),
                        then: Then::Accept,
                    },
                )
                &&& dispatch::on_layout(Then::SelectWorkspace { workspace }, layout) == Ok::<
                    Next,
                    Seq<char>,
                >(
                    Next::Ask {
                        request: Request::Message(ClientMessage::SelectWorkspace { id }),
                        then: Then::Accept,
                    },
                )
                &&& dispatch::on_layout(Then::RenameWorkspace { workspace, name }, layout) == Ok::<
                    Next,
                    Seq<char>,
                >(
                    Next::Ask {
                        request: Request::Message(ClientMessage::RenameWorkspaceId { id, name }),
                        then: Then::Accept,
                    },
                )
                &&& dispatch::on_layout(Then::ColorWorkspace { workspace, color: name }, layout)
                    == Ok::<Next, Seq<char>>(
                    Next::Ask {
                        request: Request::Message(
                            ClientMessage::SetWorkspaceColor {
                                id,
                                color: if name@ == seq!['o', 'f', 'f'] {
                                    None
                                } else {
                                    Some(name)
                                },
                            },
                        ),
                        then: Then::Accept,
                    },
                )
            },
            None => {
                &&& dispatch::on_layout(Then::CloseWorkspace { workspace }, layout) is Err
                &&& dispatch::on_layout(Then::SelectWorkspace { workspace }, layout) is Err
                &&& dispatch::on_layout(Then::RenameWorkspace { workspace, name }, layout) is Err
            },
        },
        dispatch::workspace_start(WorkspaceCommand::Close { workspace }) == (Next::Ask {
            request: Request::Message(ClientMessage::Query(QueryKind::Layout)),
            then: Then::CloseWorkspace { workspace },
        }),
        dispatch::workspace_start(WorkspaceCommand::Select { workspace }) == (Next::Ask {
            request: Request::Message(ClientMessage::Query(QueryKind::Layout)),
            then: Then::SelectWorkspace { workspace },
        }),
        dispatch::workspace_start(WorkspaceCommand::Rename { workspace, name }) == (Next::Ask {
            request: Request::Message(ClientMessage::Query(QueryKind::Layout)),
            then: Then::RenameWorkspace { workspace, name },
        }),
{
    reveal_strlit("off");
    assert("off"@ =~= seq!['o', 'f', 'f']);
}

/// A new worktree branches from the base, where one is given, and else from where the
/// command says.
pub proof fn law_bases_come_first(
    branch: String,
    from: Option<String>,
    base: Option<String>,
    path: Option<String>,
    workspace: Option<String>,
)
    ensures
        dispatch::worktree_start(WorktreeCommand::Add { branch, from, base, path, workspace }) == (
        Next::Ask {
            request: Request::Message(ClientMessage::Query(QueryKind::Layout)),
            then: Then::AddWorktree {
                branch,
                from: match base {
                    Some(given) => Some(given),
                    None => from,
                },
                path,
                workspace,
            },
        }),
{
}

/// What is done with an agent is done with its pane.
pub proof fn law_work_reaches_its_pane(
    pane: PaneSnapshot,
    lines: Option<usize>,
    scrollback: bool,
    json: bool,
    name: String,
    state: AgentStateKind,
    timeout: Option<u64>,
)
    ensures
        dispatch::work_start(TargetWork::Read { lines, scrollback, json }, pane) == (Next::Ask {
            request: Request::Message(ClientMessage::ReadPane { id: pane.id, scrollback, lines }),
            then: Then::ReadText { pane, json },
        }),
        dispatch::work_start(TargetWork::Focus { json }, pane) == (Next::Ask {
            request: Request::Message(ClientMessage::FocusPaneId { id: pane.id }),
            then: Then::FocusedPane { pane, json },
        }),
        dispatch::work_start(TargetWork::Attach, pane) == (Next::Ask {
            request: Request::Message(ClientMessage::FocusPaneId { id: pane.id }),
            then: Then::Attach,
        }),
        dispatch::work_start(TargetWork::Rename { name }, pane) == (Next::Ask {
            request: Request::Message(ClientMessage::RenamePaneId { id: pane.id, name }),
            then: Then::Accept,
        }),
        dispatch::work_start(TargetWork::Wait { state, timeout }, pane) == (Next::WaitState {
            pane: pane.id,
            state,
            timeout,
        }),
{
}

/// What is sent to a pane ends with the return key, unless it is asked not to.
pub proof fn law_sent_text_ends_with_return(input: Seq<char>)
    ensures
        dispatch::sent_bytes(input, true) == vstd::utf8::encode_utf8(input),
        dispatch::sent_bytes(input, false) == vstd::utf8::encode_utf8(input.push('\r')),
{
    reveal_strlit("\r");
    assert(input + "\r"@ =~= input.push('\r'));
}

/// A session that is killed is the one that was named, or else this one; on a remote host
/// everything about sessions is left to it.
pub proof fn law_sessions_are_asked(name: Option<String>, renamed: String, command: SessionCommand)
    ensures
        dispatch::session_start(false, SessionCommand::Kill { name }) == (SessionStep::Ask {
            session: name,
            next: Next::Ask {
                request: Request::Message(ClientMessage::KillSession),
                then: Then::Stopped,
            },
        }),
        dispatch::session_start(false, SessionCommand::Rename { name: renamed }) == (
        SessionStep::Ask {
            session: None,
            next: Next::Ask {
                request: Request::Message(ClientMessage::RenameSession { name: renamed }),
                then: Then::Accept,
            },
        }),
        dispatch::session_start(true, command) == SessionStep::Remote,
{
}

/// An error of the daemon is told as it is, whatever was asked for; and a layout answers
/// what needs one.
pub proof fn law_errors_are_told(then: Then, message: String, layout: LayoutSnapshot)
    ensures
        dispatch::answered(then, ServerMessage::Error { message }) == Err::<Next, Seq<char>>(
            message@,
        ),
        dispatch::layout_reply(ServerMessage::Error { message }) == Err::<
            LayoutSnapshot,
            Seq<char>,
        >(message@),
        dispatch::layout_reply(ServerMessage::Layout(layout)) == Ok::<LayoutSnapshot, Seq<char>>(
            layout,
        ),
        dispatch::layout_reply(ServerMessage::Shutdown) is Err,
{
}

/// The current pane is the one that was inherited, and only inside its own session on its
/// own socket.
pub proof fn law_the_current_pane_is_inherited(
    socket: Seq<char>,
    session: Seq<char>,
    remote: bool,
    inherited_session: Option<Seq<char>>,
    inherited_socket: Seq<char>,
    inherited_pane: Option<Seq<char>>,
)
    ensures
        dispatch::current_pane(
            socket,
            session,
            remote,
            inherited_session,
            inherited_socket,
            inherited_pane,
        ) matches Ok(pane) ==> !remote && inherited_session == Some(session) && text::one_path(
            inherited_socket,
            socket,
        ) && inherited_pane == Some(pane),
        !remote && inherited_session == Some(session) && text::one_path(inherited_socket, socket)
            && inherited_pane is Some && text::parse_unsigned(inherited_pane->0) is Some
            ==> dispatch::current_pane(
            socket,
            session,
            remote,
            inherited_session,
            inherited_socket,
            inherited_pane,
        ) is Ok,
{
}

/// What is not found is said by the name that was looked for.
pub proof fn law_missing_names_are_told(layout: LayoutSnapshot, needle: Seq<char>)
    ensures
        commands::workspace_for(layout.workspaces@, needle) is None ==> dispatch::workspace_of(
            layout,
            needle,
        ) == Err::<WorkspaceId, Seq<char>>("workspace '"@ + needle + "' not found"@),
        commands::workspace_for(layout.workspaces@, needle) matches Some(id)
            ==> dispatch::workspace_of(layout, needle) == Ok::<WorkspaceId, Seq<char>>(id)
            && dispatch::worktree_of(layout, needle) == Ok::<WorkspaceId, Seq<char>>(id),
        dispatch::tab_of(layout, None, needle) matches Err(said) ==> said == "workspace not found"@
            || said == "tab '"@ + needle + "' not found"@,
        dispatch::tab_anywhere(layout, needle) matches Err(said) ==> said == "tab '"@ + needle
            + "' not found"@ || said == "tab name '"@ + needle + "' is ambiguous; use its id"@,
        dispatch::worktree_of(layout, needle) matches Err(said) ==> said
            == "no worktree workspace for '"@ + needle + "'"@,
{
}

/// What was asked for is shown as it was answered: the text of a pane, a pane, an id.
pub proof fn law_answers_are_shown(
    text: String,
    id: PaneId,
    pane: PaneSnapshot,
    number: u64,
    json: bool,
    message: ClientMessage,
    layout: LayoutSnapshot,
)
    ensures
        dispatch::answered(Then::Text, ServerMessage::PaneText { id, text, scrollback_lines: 0 }) == Ok::<
            Next,
            Seq<char>,
        >(Next::Show { document: dispatch::Document::Text(text), json: false }),
        dispatch::answered(Then::Pane { json }, ServerMessage::Pane(pane)) == Ok::<Next, Seq<char>>(
            Next::Show { document: dispatch::Document::Pane(pane), json },
        ),
        dispatch::answered(Then::ReadText { pane, json }, ServerMessage::PaneText { id, text, scrollback_lines: 0 })
            == Ok::<Next, Seq<char>>(
            Next::Show { document: dispatch::Document::Reading(pane, text), json },
        ),
        dispatch::answered(Then::Id(number), ServerMessage::Layout(layout)) == Ok::<
            Next,
            Seq<char>,
        >(Next::Show { document: dispatch::Document::Number(number), json: false }),
        dispatch::answered(Then::Stopped, ServerMessage::Shutdown) == Ok::<Next, Seq<char>>(
            Next::Nothing,
        ),
        dispatch::answered(Then::AcceptThen(message), ServerMessage::Layout(layout)) == Ok::<
            Next,
            Seq<char>,
        >(Next::Ask { request: Request::Message(message), then: Then::Accept }),
        dispatch::answered(Then::Active, ServerMessage::Layout(layout)) == Ok::<Next, Seq<char>>(
            Next::Show {
                document: dispatch::Document::Number(layout.active_workspace.0),
                json: false,
            },
        ),
        layout::pane_in_focus(layout.panes@) matches Some(focused) ==> dispatch::answered(
            Then::Focused,
            ServerMessage::Layout(layout),
        ) == Ok::<Next, Seq<char>>(
            Next::Show { document: dispatch::Document::Number(focused.id.0), json: false },
        ),
{
}

/// A prompt that was written is waited for, shown or left at that, as was asked.
pub proof fn law_prompts_are_followed(
    pane: PaneSnapshot,
    now: PaneSnapshot,
    until: Option<AgentStateKind>,
    json: bool,
)
    ensures
        dispatch::answered(
            Then::Prompted { pane, waits: true, until, json },
            ServerMessage::Pane(now),
        ) == Ok::<Next, Seq<char>>(Next::WaitSettled { pane, until, json }),
        dispatch::answered(
            Then::Prompted { pane, waits: false, until, json: true },
            ServerMessage::Pane(now),
        ) == Ok::<Next, Seq<char>>(
            Next::Show { document: dispatch::Document::Pane(pane), json: true },
        ),
        dispatch::answered(
            Then::Prompted { pane, waits: false, until, json: false },
            ServerMessage::Pane(now),
        ) == Ok::<Next, Seq<char>>(Next::Nothing),
{
}

/// A view of the layout has a line for each thing that it lists, in order.
pub proof fn law_views_list_by_line(layout: LayoutSnapshot, text: String, id: u64)
    ensures
        dispatch::plain(dispatch::Document::Layout(layout, dispatch::LayoutView::Agents))
            == text::joined(
            Seq::new(
                commands::panes_by_id(layout.panes@, true).len(),
                |i: int| commands::agent_line(commands::panes_by_id(layout.panes@, true)[i]),
            ),
            seq!['\n'],
        ),
        dispatch::plain(dispatch::Document::Layout(layout, dispatch::LayoutView::Panes))
            == text::joined(
            Seq::new(
                commands::panes_by_id(layout.panes@, false).len(),
                |i: int| commands::pane_line(commands::panes_by_id(layout.panes@, false)[i]),
            ),
            seq!['\n'],
        ),
        dispatch::plain(dispatch::Document::Layout(layout, dispatch::LayoutView::Tabs))
            == text::joined(
            Seq::new(layout.tabs@.len(), |i: int| commands::tab_line(layout.tabs@[i])),
            seq!['\n'],
        ),
        dispatch::plain(dispatch::Document::Layout(layout, dispatch::LayoutView::Workspaces))
            == text::joined(
            Seq::new(
                layout.workspaces@.len(),
                |i: int| commands::workspace_line(layout.workspaces@[i]),
            ),
            seq!['\n'],
        ),
        dispatch::plain(dispatch::Document::Text(text)) == text@,
        dispatch::plain(dispatch::Document::Number(id)) == text::decimal(id as nat),
{
    reveal_strlit("\n");
    assert("\n"@ =~= seq!['\n']);
    let agents = commands::panes_by_id(layout.panes@, true);
    let panes = commands::panes_by_id(layout.panes@, false);
    assert(agents.map_values(|p: PaneSnapshot| commands::agent_line(p)) =~= Seq::new(
        agents.len(),
        |i: int| commands::agent_line(agents[i]),
    ));
    assert(panes.map_values(|p: PaneSnapshot| commands::pane_line(p)) =~= Seq::new(
        panes.len(),
        |i: int| commands::pane_line(panes[i]),
    ));
    assert(layout.tabs@.map_values(|t: crate::proto::TabInfo| commands::tab_line(t)) =~= Seq::new(
        layout.tabs@.len(),
        |i: int| commands::tab_line(layout.tabs@[i]),
    ));
    assert(layout.workspaces@.map_values(
        |w: WorkspaceInfo| commands::workspace_line(w),
    ) =~= Seq::new(
        layout.workspaces@.len(),
        |i: int| commands::workspace_line(layout.workspaces@[i]),
    ));
}

/// The worktrees are the workspaces that are on a branch, in order.
pub proof fn law_worktrees_are_listed(list: Seq<WorkspaceInfo>, one: WorkspaceInfo)
    ensures
        commands::branch_workspaces(list.push(one)) == (match one.branch {
            Some(_) => commands::branch_workspaces(list).push(one),
            None => commands::branch_workspaces(list),
        }),
        commands::branch_workspaces(Seq::empty()).len() == 0,
{
    assert(list.push(one).drop_last() =~= list);
}

/// A daemon that goes away while it is asked is said to be gone; a reply of another kind is
/// named.
pub proof fn law_wrong_replies_are_told(reply: ServerMessage)
    ensures
        dispatch::layout_reply(ServerMessage::Shutdown) == Err::<LayoutSnapshot, Seq<char>>(
            "daemon shut down"@,
        ),
        !(reply is Layout) && !(reply is Shutdown) && !(reply is Error)
            ==> dispatch::layout_reply(reply) == Err::<LayoutSnapshot, Seq<char>>(
            "daemon sent an unexpected "@ + crate::proto::server_name(reply),
        ),
{
}

/// The whole layout is listed workspace by workspace; the tabs stand below the active one,
/// and the panes below the active tab.
pub proof fn law_the_layout_is_listed(layout: LayoutSnapshot, count: int, w: int)
    requires
        0 <= w < count <= layout.workspaces@.len(),
    ensures
        commands::ls_lines(layout, count).contains(
            layout.workspaces@[w].name@ + " ("@ + layout::state_text(layout.workspaces@[w].state)
                + ")"@,
        ),
        layout.workspaces@[w].active ==> forall|t: int|
            0 <= t < layout.tabs@.len() ==> commands::ls_lines(layout, count).contains(
                "  "@ + (#[trigger] layout.tabs@[t]).name@ + " ("@ + layout::state_text(
                    layout.tabs@[t].state,
                ) + ")"@,
            ),
    decreases count,
{
    let before = commands::ls_lines(layout, count - 1);
    let lines = commands::ls_lines(layout, count);
    let ws = layout.workspaces@[w];
    let head = ws.name@ + " ("@ + layout::state_text(ws.state) + ")"@;
    if w < count - 1 {
        law_the_layout_is_listed(layout, count - 1, w);
        assert(lines[before.index_of(head)] == head);
    } else {
        assert(lines[before.len() as int] == head);
    }
    if ws.active {
        assert forall|t: int| 0 <= t < layout.tabs@.len() implies lines.contains(
            "  "@ + (#[trigger] layout.tabs@[t]).name@ + " ("@ + layout::state_text(
                layout.tabs@[t].state,
            ) + ")"@,
        ) by {
            let line = "  "@ + layout.tabs@[t].name@ + " ("@ + layout::state_text(
                layout.tabs@[t].state,
            ) + ")"@;
            if w < count - 1 {
                assert(before.contains(line));
                assert(lines[before.index_of(line)] == line);
            } else {
                let tabs = commands::ls_tabs_lines(
                    layout.tabs@,
                    layout.panes@,
                    layout.tabs@.len() as int,
                );
                lemma_tab_listed(layout.tabs@, layout.panes@, layout.tabs@.len() as int, t);
                assert(lines[before.len() + 1 + tabs.index_of(line)] == line);
            }
        }
    }
}

proof fn lemma_tab_listed(
    tabs: Seq<crate::proto::TabInfo>,
    panes: Seq<PaneSnapshot>,
    count: int,
    t: int,
)
    requires
        0 <= t < count <= tabs.len(),
    ensures
        commands::ls_tabs_lines(tabs, panes, count).contains(
            "  "@ + tabs[t].name@ + " ("@ + layout::state_text(tabs[t].state) + ")"@,
        ),
    decreases count,
{
    let before = commands::ls_tabs_lines(tabs, panes, count - 1);
    let lines = commands::ls_tabs_lines(tabs, panes, count);
    let line = "  "@ + tabs[t].name@ + " ("@ + layout::state_text(tabs[t].state) + ")"@;
    if t < count - 1 {
        lemma_tab_listed(tabs, panes, count - 1, t);
        assert(lines[before.index_of(line)] == line);
    } else {
        assert(commands::ls_tab_lines(tabs[t], panes)[0] == line);
        assert(lines[before.len() as int] == line);
    }
}

/// The panes are listed below their tab when it is active, and only then.
pub proof fn law_panes_stand_below_the_active_tab(
    tab: crate::proto::TabInfo,
    panes: Seq<PaneSnapshot>,
    p: int,
)
    requires
        0 <= p < panes.len(),
    ensures
        tab.active ==> commands::ls_tab_lines(tab, panes).len() == panes.len() + 1
            && commands::ls_tab_lines(tab, panes)[p + 1] == commands::ls_pane_line(panes[p]),
        !tab.active ==> commands::ls_tab_lines(tab, panes).len() == 1,
{
}

/// A pane is opened at once where no place is named for it; else the layout is asked for
/// first, to find the place.
pub proof fn law_places_are_looked_up(
    workspace: Option<String>,
    tab: Option<String>,
    command: Option<Vec<String>>,
    name: Option<String>,
    started: Option<bool>,
)
    ensures
        workspace is None && tab is None ==> (dispatch::opening(
            workspace,
            tab,
            command,
            name,
            started,
        ) matches Next::Ask {
            request: Request::Message(ClientMessage::NewPane {
                workspace: None,
                tab: None,
                split: None,
                command: run,
                name: given,
                context: None,
            }),
            then,
        } && run == command && given == name && (started is None ==> then == Then::Focused) && (
        started matches Some(json) ==> then == (Then::Started { json }))),
        workspace is Some || tab is Some ==> dispatch::opening(
            workspace,
            tab,
            command,
            name,
            started,
        ) == (Next::Ask {
            request: Request::Message(ClientMessage::Query(QueryKind::Layout)),
            then: Then::NewPane { workspace, tab, command, name, started },
        }),
{
}

proof fn lemma_one_named(tabs: Seq<SidebarTabInfo>, name: Seq<char>, at: int)
    requires
        0 <= at < tabs.len(),
        tabs[at].name@ == name,
        forall|j: int| 0 <= j < tabs.len() && j != at ==> (#[trigger] tabs[j]).name@ != name,
    ensures
        commands::tabs_named(tabs, name) == seq![tabs[at].id],
    decreases tabs.len(),
{
    let front = tabs.drop_last();
    assert(forall|j: int| 0 <= j < front.len() ==> #[trigger] front[j] == tabs[j]);
    if at < front.len() {
        lemma_one_named(front, name, at);
        assert(tabs[tabs.len() - 1].name@ != name);
    } else {
        lemma_tabs_named(front, name);
        lemma_none_named(front, name);
    }
}

proof fn lemma_none_named(tabs: Seq<SidebarTabInfo>, name: Seq<char>)
    requires
        forall|j: int| 0 <= j < tabs.len() ==> (#[trigger] tabs[j]).name@ != name,
    ensures
        commands::tabs_named(tabs, name) == Seq::<TabId>::empty(),
    decreases tabs.len(),
{
    if tabs.len() > 0 {
        let front = tabs.drop_last();
        assert forall|j: int| 0 <= j < front.len() implies (#[trigger] front[j]).name@ != name by {
            assert(front[j] == tabs[j]);
        }
        lemma_none_named(front, name);
        assert(tabs[tabs.len() - 1].name@ != name);
    }
}

/// A tab whose name no other tab has is found by it; a name that no tab has is not found,
/// and one that two have is not enough.
pub proof fn law_own_names_are_enough(layout: LayoutSnapshot, needle: Seq<char>, at: int)
    requires
        text::parse_unsigned(needle) is None,
    ensures
        ({
            let tabs = commands::all_tabs(layout.workspaces@, layout.workspaces@.len() as int);
            &&& 0 <= at < tabs.len() && tabs[at].name@ == needle && (forall|j: int|
                0 <= j < tabs.len() && j != at ==> (#[trigger] tabs[j]).name@ != needle)
                ==> dispatch::tab_anywhere(layout, needle) == Ok::<TabId, Seq<char>>(tabs[at].id)
            &&& (forall|j: int| 0 <= j < tabs.len() ==> (#[trigger] tabs[j]).name@ != needle)
                ==> dispatch::tab_anywhere(layout, needle) == Err::<TabId, Seq<char>>(
                "tab '"@ + needle + "' not found"@,
            )
        }),
{
    let tabs = commands::all_tabs(layout.workspaces@, layout.workspaces@.len() as int);
    if 0 <= at < tabs.len() && tabs[at].name@ == needle && (forall|j: int|
        0 <= j < tabs.len() && j != at ==> (#[trigger] tabs[j]).name@ != needle) {
        lemma_one_named(tabs, needle, at);
    }
    if forall|j: int| 0 <= j < tabs.len() ==> (#[trigger] tabs[j]).name@ != needle {
        lemma_none_named(tabs, needle);
    }
}

/// Without a focused pane there is none to tell.
pub proof fn law_focus_is_missed(layout: LayoutSnapshot)
    requires
        layout::pane_in_focus(layout.panes@) is None,
    ensures
        dispatch::focused_of(layout) == Err::<PaneId, Seq<char>>("no focused pane in reply"@),
{
}

/// A tab is there when one of the tabs has its id.
pub proof fn law_tabs_are_there_by_id(tabs: Seq<SidebarTabInfo>, one: SidebarTabInfo, id: TabId)
    ensures
        commands::has_tab(tabs.push(one), id) <==> commands::has_tab(tabs, id) || one.id == id,
        !commands::has_tab(Seq::empty(), id),
{
    let more = tabs.push(one);
    if commands::has_tab(tabs, id) {
        let i = choose|i: int| 0 <= i < tabs.len() && (#[trigger] tabs[i]).id == id;
        assert(more[i].id == id);
    }
    if one.id == id {
        assert(more[tabs.len() as int].id == id);
    }
    if commands::has_tab(more, id) {
        let i = choose|i: int| 0 <= i < more.len() && (#[trigger] more[i]).id == id;
        if i < tabs.len() {
            assert(tabs[i].id == id);
        }
    }
}

} // verus!
