//! Remembers acknowledged view state and restores it without replaying input.

use vstd::prelude::*;

use crate::proto::{
    AgentInfo, ClientMessage, LayoutSnapshot, PaneId, PaneSnapshot, SidebarTabInfo, TabId,
    WorkspaceId, WorkspaceInfo,
};
use crate::sorted;

verus! {

/// The tab of each workspace, the pane of each tab, how far each pane is scrolled
/// back, and the pane in focus.
#[derive(Debug, Clone, PartialEq, Eq)]
pub struct SavedView {
    pub tabs: Vec<(u64, TabId)>,
    pub focused: Vec<(u64, PaneId)>,
    pub scroll: Vec<(u64, usize)>,
    pub active: Option<PaneId>,
}

pub open spec fn has_tab(tabs: Seq<SidebarTabInfo>, id: TabId) -> bool {
    exists|i: int| 0 <= i < tabs.len() && (#[trigger] tabs[i]).id == id
}

/// The workspace still has that tab.
pub open spec fn tab_lives(workspaces: Seq<WorkspaceInfo>, workspace: u64, tab: TabId) -> bool {
    exists|i: int|
        0 <= i < workspaces.len() && (#[trigger] workspaces[i]).id.0 == workspace && has_tab(
            workspaces[i].tabs@,
            tab,
        )
}

pub open spec fn has_agent(agents: Seq<AgentInfo>, pane: PaneId) -> bool {
    exists|i: int| 0 <= i < agents.len() && (#[trigger] agents[i]).pane == pane
}

pub open spec fn tab_has_pane(tabs: Seq<SidebarTabInfo>, tab: u64, pane: PaneId) -> bool {
    exists|i: int|
        0 <= i < tabs.len() && (#[trigger] tabs[i]).id.0 == tab && has_agent(
            tabs[i].agents@,
            pane,
        )
}

/// Some tab of that id still has that pane.
pub open spec fn focus_lives(workspaces: Seq<WorkspaceInfo>, tab: u64, pane: PaneId) -> bool {
    exists|i: int|
        0 <= i < workspaces.len() && tab_has_pane((#[trigger] workspaces[i]).tabs@, tab, pane)
}

pub open spec fn pane_in_tabs(tabs: Seq<SidebarTabInfo>, pane: PaneId) -> bool {
    exists|i: int| 0 <= i < tabs.len() && has_agent((#[trigger] tabs[i]).agents@, pane)
}

/// Some tab still has that pane.
pub open spec fn pane_lives(workspaces: Seq<WorkspaceInfo>, pane: PaneId) -> bool {
    exists|i: int| 0 <= i < workspaces.len() && pane_in_tabs((#[trigger] workspaces[i]).tabs@, pane)
}

fn find_agent(agents: &Vec<AgentInfo>, pane: PaneId) -> (r: bool)
    ensures
        r == has_agent(agents@, pane),
{
    let mut i: usize = 0;
    while i < agents.len()
        invariant
            i <= agents@.len(),
            forall|k: int| 0 <= k < i ==> (#[trigger] agents@[k]).pane != pane,
        decreases agents@.len() - i,
    {
        if agents[i].pane == pane {
            return true;
        }
        i += 1;
    }
    false
}

fn find_tab(tabs: &Vec<SidebarTabInfo>, id: TabId) -> (r: bool)
    ensures
        r == has_tab(tabs@, id),
{
    let mut i: usize = 0;
    while i < tabs.len()
        invariant
            i <= tabs@.len(),
            forall|k: int| 0 <= k < i ==> (#[trigger] tabs@[k]).id != id,
        decreases tabs@.len() - i,
    {
        if tabs[i].id == id {
            return true;
        }
        i += 1;
    }
    false
}

fn is_tab_live(list: &Vec<WorkspaceInfo>, workspace: u64, tab: TabId) -> (r: bool)
    ensures
        r == tab_lives(list@, workspace, tab),
{
    let mut i: usize = 0;
    while i < list.len()
        invariant
            i <= list@.len(),
            forall|k: int|
                0 <= k < i ==> !((#[trigger] list@[k]).id.0 == workspace && has_tab(
                    list@[k].tabs@,
                    tab,
                )),
        decreases list@.len() - i,
    {
        if list[i].id.0 == workspace && find_tab(&list[i].tabs, tab) {
            return true;
        }
        i += 1;
    }
    false
}

fn is_focus_live(list: &Vec<WorkspaceInfo>, tab: u64, pane: PaneId) -> (r: bool)
    ensures
        r == focus_lives(list@, tab, pane),
{
    let mut i: usize = 0;
    while i < list.len()
        invariant
            i <= list@.len(),
            forall|k: int| 0 <= k < i ==> !tab_has_pane((#[trigger] list@[k]).tabs@, tab, pane),
        decreases list@.len() - i,
    {
        let tabs = &list[i].tabs;
        let mut j: usize = 0;
        while j < tabs.len()
            invariant
                i < list@.len(),
                *tabs == list@[i as int].tabs,
                j <= tabs@.len(),
                forall|k: int|
                    0 <= k < j ==> !((#[trigger] tabs@[k]).id.0 == tab && has_agent(
                        tabs@[k].agents@,
                        pane,
                    )),
            decreases tabs@.len() - j,
        {
            if tabs[j].id.0 == tab && find_agent(&tabs[j].agents, pane) {
                assert(tab_has_pane(list@[i as int].tabs@, tab, pane));
                return true;
            }
            j += 1;
        }
        i += 1;
    }
    false
}

fn is_pane_live(list: &Vec<WorkspaceInfo>, pane: PaneId) -> (r: bool)
    ensures
        r == pane_lives(list@, pane),
{
    let mut i: usize = 0;
    while i < list.len()
        invariant
            i <= list@.len(),
            forall|k: int| 0 <= k < i ==> !pane_in_tabs((#[trigger] list@[k]).tabs@, pane),
        decreases list@.len() - i,
    {
        let tabs = &list[i].tabs;
        let mut j: usize = 0;
        while j < tabs.len()
            invariant
                i < list@.len(),
                *tabs == list@[i as int].tabs,
                j <= tabs@.len(),
                forall|k: int| 0 <= k < j ==> !has_agent((#[trigger] tabs@[k]).agents@, pane),
            decreases tabs@.len() - j,
        {
            if find_agent(&tabs[j].agents, pane) {
                assert(pane_in_tabs(list@[i as int].tabs@, pane));
                return true;
            }
            j += 1;
        }
        i += 1;
    }
    false
}

/// The tabs that still are where they were.
pub open spec fn live_tabs(s: Seq<(u64, TabId)>, workspaces: Seq<WorkspaceInfo>) -> Seq<(u64, TabId)> {
    s.filter(|e: (u64, TabId)| tab_lives(workspaces, e.0, e.1))
}

pub open spec fn live_focus(s: Seq<(u64, PaneId)>, workspaces: Seq<WorkspaceInfo>) -> Seq<
    (u64, PaneId),
> {
    s.filter(|e: (u64, PaneId)| focus_lives(workspaces, e.0, e.1))
}

pub open spec fn live_scroll(s: Seq<(u64, usize)>, workspaces: Seq<WorkspaceInfo>) -> Seq<
    (u64, usize),
> {
    s.filter(|e: (u64, usize)| pane_lives(workspaces, PaneId(e.0)))
}

/// Scroll positions with those of the first `count` panes.
pub open spec fn scroll_with(s: Seq<(u64, usize)>, panes: Seq<PaneSnapshot>, count: int) -> Seq<
    (u64, usize),
>
    decreases count,
{
    if count <= 0 {
        s
    } else {
        sorted::put(
            scroll_with(s, panes, count - 1),
            panes[count - 1].id.0,
            panes[count - 1].scroll_offset,
        )
    }
}

/// The last pane in focus among the first `count`.
pub open spec fn last_focus(panes: Seq<PaneSnapshot>, count: int) -> Option<PaneId>
    decreases count,
{
    if count <= 0 {
        None
    } else if panes[count - 1].focused {
        Some(panes[count - 1].id)
    } else {
        last_focus(panes, count - 1)
    }
}

proof fn lemma_filter_step<T>(s: Seq<(u64, T)>, i: int, keep: spec_fn((u64, T)) -> bool)
    requires
        0 <= i < s.len(),
    ensures
        s.take(i + 1).filter(keep) == (if keep(s[i]) {
            s.take(i).filter(keep).push(s[i])
        } else {
            s.take(i).filter(keep)
        }),
{
    reveal(Seq::filter);
    assert(s.take(i + 1).drop_last() =~= s.take(i));
}

proof fn lemma_filter_rising<T>(s: Seq<(u64, T)>, keep: spec_fn((u64, T)) -> bool)
    requires
        sorted::rising(s),
    ensures
        sorted::rising(s.filter(keep)),
        forall|i: int|
            0 <= i < s.filter(keep).len() ==> s.len() > 0 && (#[trigger] s.filter(keep)[i]).0
                <= s.last().0,
    decreases s.len(),
{
    reveal(Seq::filter);
    if s.len() > 0 {
        let front = s.drop_last();
        assert(sorted::rising(front)) by {
            assert forall|i: int, j: int| 0 <= i < j < front.len() implies (#[trigger] front[i]).0
                < (#[trigger] front[j]).0 by {
                assert(s[i].0 < s[j].0);
            }
        }
        lemma_filter_rising(front, keep);
        let kept = front.filter(keep);
        if front.len() > 0 {
            assert(front.last() == s[s.len() - 2]);
            assert(s[s.len() - 2].0 < s[s.len() - 1].0);
        }
        let all = s.filter(keep);
        assert forall|i: int, j: int| 0 <= i < j < all.len() implies (#[trigger] all[i]).0 < (
        #[trigger] all[j]).0 by {
            if j < kept.len() {
                assert(kept[i].0 < kept[j].0);
            } else {
                assert(kept[i].0 <= front.last().0);
            }
        }
        assert forall|i: int| 0 <= i < all.len() implies (#[trigger] all[i]).0 <= s.last().0 by {
            if i < kept.len() {
                assert(kept[i].0 <= front.last().0);
            }
        }
    }
}

impl Default for SavedView {
    fn default() -> (r: Self)
        ensures
            r.wf(),
            r.tabs@.len() == 0,
            r.focused@.len() == 0,
            r.scroll@.len() == 0,
            r.active is None,
    {
        SavedView { tabs: Vec::new(), focused: Vec::new(), scroll: Vec::new(), active: None }
    }
}

impl SavedView {
    pub open spec fn wf(self) -> bool {
        sorted::rising(self.tabs@) && sorted::rising(self.focused@) && sorted::rising(self.scroll@)
    }

    fn retain(&mut self, layout: &LayoutSnapshot)
        requires
            old(self).wf(),
        ensures
            final(self).wf(),
            final(self).tabs@ == live_tabs(old(self).tabs@, layout.workspaces@),
            final(self).focused@ == live_focus(old(self).focused@, layout.workspaces@),
            final(self).scroll@ == live_scroll(old(self).scroll@, layout.workspaces@),
            final(self).active == old(self).active,
    {
        let ghost list = layout.workspaces@;
        let ghost keep_tab = |e: (u64, TabId)| tab_lives(list, e.0, e.1);
        let ghost keep_focus = |e: (u64, PaneId)| focus_lives(list, e.0, e.1);
        let ghost keep_scroll = |e: (u64, usize)| pane_lives(list, PaneId(e.0));
        proof {
            reveal(Seq::filter);
            lemma_filter_rising(self.tabs@, keep_tab);
            lemma_filter_rising(self.focused@, keep_focus);
            lemma_filter_rising(self.scroll@, keep_scroll);
        }
        let mut tabs: Vec<(u64, TabId)> = Vec::new();
        let mut i: usize = 0;
        assert(self.tabs@.take(0).filter(keep_tab) =~= Seq::empty());
        while i < self.tabs.len()
            invariant
                *self == *old(self),
                list == layout.workspaces@,
                keep_tab == |e: (u64, TabId)| tab_lives(list, e.0, e.1),
                i <= self.tabs@.len(),
                tabs@ == self.tabs@.take(i as int).filter(keep_tab),
            decreases self.tabs@.len() - i,
        {
            proof {
                lemma_filter_step(self.tabs@, i as int, keep_tab);
            }
            let entry = self.tabs[i];
            if is_tab_live(&layout.workspaces, entry.0, entry.1) {
                tabs.push(entry);
            }
            i += 1;
        }
        assert(self.tabs@.take(i as int) =~= self.tabs@);
        let mut focused: Vec<(u64, PaneId)> = Vec::new();
        let mut j: usize = 0;
        assert(self.focused@.take(0).filter(keep_focus) =~= Seq::empty());
        while j < self.focused.len()
            invariant
                *self == *old(self),
                list == layout.workspaces@,
                keep_focus == |e: (u64, PaneId)| focus_lives(list, e.0, e.1),
                j <= self.focused@.len(),
                focused@ == self.focused@.take(j as int).filter(keep_focus),
            decreases self.focused@.len() - j,
        {
            proof {
                lemma_filter_step(self.focused@, j as int, keep_focus);
            }
            let entry = self.focused[j];
            if is_focus_live(&layout.workspaces, entry.0, entry.1) {
                focused.push(entry);
            }
            j += 1;
        }
        assert(self.focused@.take(j as int) =~= self.focused@);
        let mut scroll: Vec<(u64, usize)> = Vec::new();
        let mut k: usize = 0;
        assert(self.scroll@.take(0).filter(keep_scroll) =~= Seq::empty());
        while k < self.scroll.len()
            invariant
                *self == *old(self),
                list == layout.workspaces@,
                keep_scroll == |e: (u64, usize)| pane_lives(list, PaneId(e.0)),
                k <= self.scroll@.len(),
                scroll@ == self.scroll@.take(k as int).filter(keep_scroll),
            decreases self.scroll@.len() - k,
        {
            proof {
                lemma_filter_step(self.scroll@, k as int, keep_scroll);
            }
            let entry = self.scroll[k];
            if is_pane_live(&layout.workspaces, PaneId(entry.0)) {
                scroll.push(entry);
            }
            k += 1;
        }
        assert(self.scroll@.take(k as int) =~= self.scroll@);
        self.tabs = tabs;
        self.focused = focused;
        self.scroll = scroll;
    }

    /// Whether `after` is this view once a layout is taken into account: what is gone
    /// is forgotten, and what is on screen is noted.
    pub open spec fn observed(self, layout: LayoutSnapshot, after: SavedView) -> bool {
        &&& after.tabs@ == sorted::put(
            live_tabs(self.tabs@, layout.workspaces@),
            layout.active_workspace.0,
            layout.active_tab,
        )
        &&& after.scroll@ == scroll_with(
            live_scroll(self.scroll@, layout.workspaces@),
            layout.panes@,
            layout.panes@.len() as int,
        )
        &&& match last_focus(layout.panes@, layout.panes@.len() as int) {
            Some(pane) => after.active == Some(pane) && after.focused@ == sorted::put(
                live_focus(self.focused@, layout.workspaces@),
                layout.active_tab.0,
                pane,
            ),
            None => after.active == self.active && after.focused@ == live_focus(
                self.focused@,
                layout.workspaces@,
            ),
        }
    }

    /// Takes a layout into account: forgets what is gone, and notes what is on
    /// screen.
    pub fn observe(&mut self, layout: &LayoutSnapshot)
        requires
            old(self).wf(),
        ensures
            final(self).wf(),
            old(self).observed(*layout, *final(self)),
    {
        self.retain(layout);
        sorted::put_entry(&mut self.tabs, layout.active_workspace.0, layout.active_tab);
        let ghost kept = *self;
        let mut latest: Option<PaneId> = None;
        let mut i: usize = 0;
        while i < layout.panes.len()
            invariant
                self.wf(),
                self.tabs == kept.tabs,
                self.focused == kept.focused,
                self.active == kept.active,
                i <= layout.panes@.len(),
                self.scroll@ == scroll_with(kept.scroll@, layout.panes@, i as int),
                latest == last_focus(layout.panes@, i as int),
            decreases layout.panes@.len() - i,
        {
            let pane = &layout.panes[i];
            sorted::put_entry(&mut self.scroll, pane.id.0, pane.scroll_offset);
            if pane.focused {
                latest = Some(pane.id);
            }
            i += 1;
        }
        if let Some(pane) = latest {
            self.active = Some(pane);
            sorted::put_entry(&mut self.focused, layout.active_tab.0, pane);
        }
    }

    /// The messages that bring a new daemon to this view: panes first, then tabs,
    /// then scroll positions, and the focus last.
    pub fn restore(&self) -> (r: Vec<ClientMessage>)
        ensures
            r@ == restored(self.tabs@, self.focused@, self.scroll@, self.active),
    {
        let mut out: Vec<ClientMessage> = Vec::new();
        let mut i: usize = 0;
        assert(out@ =~= focus_messages(self.focused@, 0));
        while i < self.focused.len()
            invariant
                i <= self.focused@.len(),
                out@ == focus_messages(self.focused@, i as int),
            decreases self.focused@.len() - i,
        {
            out.push(ClientMessage::FocusPaneId { id: self.focused[i].1 });
            i += 1;
        }
        let ghost first = out@;
        let mut j: usize = 0;
        assert(out@ =~= first + tab_messages(self.tabs@, 0));
        while j < self.tabs.len()
            invariant
                j <= self.tabs@.len(),
                out@ == first + tab_messages(self.tabs@, j as int),
            decreases self.tabs@.len() - j,
        {
            out.push(ClientMessage::SelectWorkspace { id: WorkspaceId(self.tabs[j].0) });
            out.push(ClientMessage::SelectTab { id: self.tabs[j].1 });
            assert(out@ =~= first + tab_messages(self.tabs@, j + 1));
            j += 1;
        }
        let ghost second = out@;
        let mut k: usize = 0;
        assert(out@ =~= second + scroll_messages(self.scroll@, 0));
        while k < self.scroll.len()
            invariant
                k <= self.scroll@.len(),
                out@ == second + scroll_messages(self.scroll@, k as int),
            decreases self.scroll@.len() - k,
        {
            let offset: usize = self.scroll[k].1;
            if offset > 0 {
                let delta: i16 = if offset > 32767 {
                    32767
                } else {
                    offset as i16
                };
                out.push(ClientMessage::ScrollPane { id: PaneId(self.scroll[k].0), delta });
            }
            assert(out@ =~= second + scroll_messages(self.scroll@, k + 1));
            k += 1;
        }
        if let Some(id) = self.active {
            out.push(ClientMessage::FocusPaneId { id });
        }
        assert(out@ =~= restored(self.tabs@, self.focused@, self.scroll@, self.active));
        out
    }
}

pub open spec fn focus_messages(s: Seq<(u64, PaneId)>, count: int) -> Seq<ClientMessage>
    decreases count,
{
    if count <= 0 {
        Seq::empty()
    } else {
        focus_messages(s, count - 1).push(ClientMessage::FocusPaneId { id: s[count - 1].1 })
    }
}

pub open spec fn tab_messages(s: Seq<(u64, TabId)>, count: int) -> Seq<ClientMessage>
    decreases count,
{
    if count <= 0 {
        Seq::empty()
    } else {
        tab_messages(s, count - 1).push(
            ClientMessage::SelectWorkspace { id: WorkspaceId(s[count - 1].0) },
        ).push(ClientMessage::SelectTab { id: s[count - 1].1 })
    }
}

pub open spec fn scroll_messages(s: Seq<(u64, usize)>, count: int) -> Seq<ClientMessage>
    decreases count,
{
    if count <= 0 {
        Seq::empty()
    } else if s[count - 1].1 > 0 {
        scroll_messages(s, count - 1).push(
            ClientMessage::ScrollPane {
                id: PaneId(s[count - 1].0),
                delta: crate::num::min(s[count - 1].1 as int, i16::MAX as int) as i16,
            },
        )
    } else {
        scroll_messages(s, count - 1)
    }
}

pub open spec fn restored(
    tabs: Seq<(u64, TabId)>,
    focused: Seq<(u64, PaneId)>,
    scroll: Seq<(u64, usize)>,
    active: Option<PaneId>,
) -> Seq<ClientMessage> {
    focus_messages(focused, focused.len() as int) + tab_messages(tabs, tabs.len() as int)
        + scroll_messages(scroll, scroll.len() as int) + (match active {
        Some(id) => seq![ClientMessage::FocusPaneId { id }],
        None => Seq::empty(),
    })
}

/// A message that only moves the view, and types nothing.
pub open spec fn moves_view(message: ClientMessage) -> bool {
    message is FocusPaneId || message is SelectWorkspace || message is SelectTab
        || message is ScrollPane
}

proof fn lemma_focus_moves(s: Seq<(u64, PaneId)>, count: int)
    ensures
        forall|i: int|
            0 <= i < focus_messages(s, count).len() ==> moves_view(
                #[trigger] focus_messages(s, count)[i],
            ),
    decreases count,
{
    if count > 0 {
        lemma_focus_moves(s, count - 1);
        let front = focus_messages(s, count - 1);
        let all = focus_messages(s, count);
        assert forall|i: int| 0 <= i < all.len() implies moves_view(#[trigger] all[i]) by {
            if i < front.len() {
                assert(all[i] == front[i]);
                assert(moves_view(front[i]));
            }
        }
    }
}

proof fn lemma_tabs_move(s: Seq<(u64, TabId)>, count: int)
    ensures
        forall|i: int|
            0 <= i < tab_messages(s, count).len() ==> moves_view(
                #[trigger] tab_messages(s, count)[i],
            ),
    decreases count,
{
    if count > 0 {
        lemma_tabs_move(s, count - 1);
        let front = tab_messages(s, count - 1);
        let all = tab_messages(s, count);
        assert forall|i: int| 0 <= i < all.len() implies moves_view(#[trigger] all[i]) by {
            if i < front.len() {
                assert(all[i] == front[i]);
                assert(moves_view(front[i]));
            }
        }
    }
}

proof fn lemma_scroll_moves(s: Seq<(u64, usize)>, count: int)
    ensures
        forall|i: int|
            0 <= i < scroll_messages(s, count).len() ==> moves_view(
                #[trigger] scroll_messages(s, count)[i],
            ),
    decreases count,
{
    if count > 0 {
        lemma_scroll_moves(s, count - 1);
        let front = scroll_messages(s, count - 1);
        let all = scroll_messages(s, count);
        assert forall|i: int| 0 <= i < all.len() implies moves_view(#[trigger] all[i]) by {
            if i < front.len() {
                assert(all[i] == front[i]);
                assert(moves_view(front[i]));
            }
        }
    }
}

/// Restoring a view never replays input: every message only moves the view.
pub proof fn law_restoring_types_nothing(
    tabs: Seq<(u64, TabId)>,
    focused: Seq<(u64, PaneId)>,
    scroll: Seq<(u64, usize)>,
    active: Option<PaneId>,
    i: int,
)
    requires
        0 <= i < restored(tabs, focused, scroll, active).len(),
    ensures
        moves_view(restored(tabs, focused, scroll, active)[i]),
{
    lemma_focus_moves(focused, focused.len() as int);
    lemma_tabs_move(tabs, tabs.len() as int);
    lemma_scroll_moves(scroll, scroll.len() as int);
    let a = focus_messages(focused, focused.len() as int);
    let b = tab_messages(tabs, tabs.len() as int);
    let c = scroll_messages(scroll, scroll.len() as int);
    if i < a.len() {
        assert(moves_view(a[i]));
    } else if i < a.len() + b.len() {
        assert(moves_view(b[i - a.len()]));
    } else if i < a.len() + b.len() + c.len() {
        assert(moves_view(c[i - a.len() - b.len()]));
    }
}

/// The pane in focus is restored last.
pub proof fn law_focus_is_restored_last(
    tabs: Seq<(u64, TabId)>,
    focused: Seq<(u64, PaneId)>,
    scroll: Seq<(u64, usize)>,
    pane: PaneId,
)
    ensures
        restored(tabs, focused, scroll, Some(pane)).last() == (ClientMessage::FocusPaneId {
            id: pane,
        }),
{
}

} // verus!
