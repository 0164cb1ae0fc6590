//! Client-side attention inbox built from daemon notifications.

use vstd::prelude::*;

use crate::layout;
use crate::overlay;
use crate::overlay::{Overlay, OverlayRow, OverlayTarget};
use crate::picker;
use crate::proto::{AgentStateKind, LayoutSnapshot, Notification, PaneId};
use crate::rank;
use crate::rank::Rank;
use crate::text;

verus! {

pub struct Attention {
    pub notifications: Vec<Notification>,
    pub overlay: Overlay,
}

/// The rank of each notification: blocked agents first, then the newest.
pub open spec fn inbox_ranks(list: Seq<Notification>) -> Seq<Rank> {
    Seq::new(
        list.len(),
        |i: int|
            Rank {
                group: if list[i].state == AgentStateKind::Blocked {
                    0
                } else {
                    1
                },
                weight: list[i].seq,
                index: i as usize,
            },
    )
}

/// Blocked agents first, within that the newest first; otherwise as they came.
pub open spec fn inbox_order(list: Seq<Notification>) -> Seq<Notification> {
    rank::sort(inbox_ranks(list)).map_values(|r: Rank| list[r.index as int])
}

/// How the inbox names a state.
pub open spec fn inbox_state(state: AgentStateKind) -> Seq<char> {
    match state {
        AgentStateKind::Blocked => "● blocked"@,
        AgentStateKind::Done => "✓ done"@,
        AgentStateKind::Working => "working"@,
        AgentStateKind::Idle => "idle"@,
        AgentStateKind::Unknown => "unknown"@,
    }
}

/// How long a state has held, in its largest full unit.
pub open spec fn age(seconds: nat) -> Seq<char> {
    if seconds < 60 {
        text::decimal(seconds) + "s"@
    } else if seconds < 3600 {
        text::decimal(seconds / 60) + "m"@
    } else {
        text::decimal(seconds / 3600) + "h"@
    }
}

pub fn state_name(state: AgentStateKind) -> (r: &'static str)
    ensures
        r@ == inbox_state(state),
{
    match state {
        AgentStateKind::Blocked => "● blocked",
        AgentStateKind::Done => "✓ done",
        AgentStateKind::Working => "working",
        AgentStateKind::Idle => "idle",
        AgentStateKind::Unknown => "unknown",
    }
}

pub fn age_text(seconds: u64) -> (r: String)
    ensures
        r@ == age(seconds as nat),
{
    if seconds < 60 {
        text::cat(text::decimal_text(seconds).as_str(), "s")
    } else if seconds < 3600 {
        text::cat(text::decimal_text(seconds / 60).as_str(), "m")
    } else {
        text::cat(text::decimal_text(seconds / 3600).as_str(), "h")
    }
}

/// Where a notification comes from, by the names that the layout has for it.
pub open spec fn place(notice: Notification, layout: LayoutSnapshot) -> Seq<char> {
    let workspace = layout::workspace_with(layout.workspaces@, notice.workspace);
    let tab = layout::tab_at(layout, notice.workspace, notice.tab);
    (match workspace {
        Some(w) => w.name@,
        None => "closed workspace"@,
    }) + "/"@ + (match tab {
        Some(t) => t.name@,
        None => "closed tab"@,
    })
}

/// How long the pane's state has held: by the pane where it is on screen, else
/// by the sidebar.
pub open spec fn known_age(notice: Notification, layout: LayoutSnapshot) -> Option<u64> {
    match layout::pane_with(layout.panes@, notice.pane) {
        Some(pane) => Some(pane.state_age_secs),
        None => match layout::tab_at(layout, notice.workspace, notice.tab) {
            Some(tab) => match layout::agent_in(tab.agents@, notice.pane) {
                Some(agent) => Some(agent.state_age_secs),
                None => None,
            },
            None => None,
        },
    }
}

/// Why the pane is in its state, where it is on screen and gives a reason.
pub open spec fn known_reason(notice: Notification, layout: LayoutSnapshot) -> Seq<char> {
    match layout::pane_with(layout.panes@, notice.pane) {
        Some(pane) => pane.state_reason@,
        None => Seq::empty(),
    }
}

/// The hint of a notification: age and reason, with a dot between where both
/// are known.
pub open spec fn inbox_hint(notice: Notification, layout: LayoutSnapshot) -> Seq<char> {
    let reason = known_reason(notice, layout);
    match known_age(notice, layout) {
        Some(seconds) => if reason.len() > 0 {
            age(seconds as nat) + " · "@ + reason
        } else {
            age(seconds as nat)
        },
        None => reason,
    }
}

pub open spec fn inbox_row(notice: Notification, layout: LayoutSnapshot) -> (
    Seq<char>,
    Seq<char>,
    OverlayTarget,
) {
    (
        inbox_state(notice.state) + " · "@ + notice.agent@ + " · "@ + place(notice, layout),
        inbox_hint(notice, layout),
        OverlayTarget::Pane(notice.pane),
    )
}

/// What the inbox shows: a row for each notification, or one that says there is
/// none.
pub open spec fn inbox_rows(list: Seq<Notification>, layout: LayoutSnapshot) -> Seq<
    (Seq<char>, Seq<char>, OverlayTarget),
> {
    if list.len() == 0 {
        seq![(" no unread agent alerts"@, "agents are clear"@, OverlayTarget::Nothing)]
    } else {
        list.map_values(|n: Notification| inbox_row(n, layout))
    }
}

fn age_hint(notice: &Notification, layout: &LayoutSnapshot) -> (r: Option<u64>)
    ensures
        r == known_age(*notice, *layout),
{
    if let Some(pane) = layout::find_pane(&layout.panes, notice.pane) {
        return Some(pane.state_age_secs);
    }
    if let Some(workspace) = layout::find_workspace(&layout.workspaces, notice.workspace) {
        if let Some(tab) = layout::find_tab(&workspace.tabs, notice.tab) {
            if let Some(agent) = layout::find_agent(&tab.agents, notice.pane) {
                return Some(agent.state_age_secs);
            }
        }
    }
    None
}

/// The inbox row of one notification.
pub fn row(notice: &Notification, layout: &LayoutSnapshot) -> (r: OverlayRow)
    ensures
        r.parts() == inbox_row(*notice, *layout),
{
    let mut workspace_name = "closed workspace";
    let mut tab_name = "closed tab";
    if let Some(workspace) = layout::find_workspace(&layout.workspaces, notice.workspace) {
        workspace_name = workspace.name.as_str();
        if let Some(tab) = layout::find_tab(&workspace.tabs, notice.tab) {
            tab_name = tab.name.as_str();
        }
    }
    let place_text = text::cat3(workspace_name, "/", tab_name);
    assert(place_text@ == place(*notice, *layout));
    let mut hint = String::new();
    let mut aged = false;
    if let Some(seconds) = age_hint(notice, layout) {
        hint = age_text(seconds);
        aged = true;
    }
    if let Some(pane) = layout::find_pane(&layout.panes, notice.pane) {
        if !pane.state_reason.as_str().is_empty() {
            if aged {
                hint.append(" · ");
            }
            let ghost before = hint@;
            hint.append(pane.state_reason.as_str());
            assert(!aged ==> hint@ =~= pane.state_reason@);
        }
    }
    assert(hint@ =~= inbox_hint(*notice, *layout));
    let mut label = text::cat3(state_name(notice.state), " · ", notice.agent.as_str());
    label.append(" · ");
    label.append(place_text.as_str());
    OverlayRow::new(label, hint, OverlayTarget::Pane(notice.pane))
}

fn rows(list: &Vec<Notification>, layout: &LayoutSnapshot) -> (r: Vec<OverlayRow>)
    ensures
        overlay::row_parts(r@) == inbox_rows(list@, *layout),
        r@.len() > 0,
{
    let mut out: Vec<OverlayRow> = Vec::new();
    if list.len() == 0 {
        out.push(
            OverlayRow::new(
                " no unread agent alerts".to_owned(),
                "agents are clear".to_owned(),
                OverlayTarget::Nothing,
            ),
        );
        assert(overlay::row_parts(out@) =~= inbox_rows(list@, *layout));
        return out;
    }
    let ghost all = inbox_rows(list@, *layout);
    let mut i: usize = 0;
    while i < list.len()
        invariant
            list@.len() > 0,
            all == inbox_rows(list@, *layout),
            i <= list@.len(),
            overlay::row_parts(out@) == all.take(i as int),
        decreases list@.len() - i,
    {
        let next = row(&list[i], layout);
        let ghost before = overlay::row_parts(out@);
        let ghost parts = next.parts();
        out.push(next);
        assert(overlay::row_parts(out@) =~= before.push(parts));
        assert(all.take(i + 1) =~= all.take(i as int).push(all[i as int]));
        i += 1;
    }
    assert(all.take(i as int) =~= all);
    assert(overlay::row_parts(out@).len() == all.len());
    out
}

fn in_order(list: &[Notification]) -> (r: Vec<Notification>)
    ensures
        r@ == inbox_order(list@),
{
    let mut ranks: Vec<Rank> = Vec::new();
    let mut i: usize = 0;
    while i < list.len()
        invariant
            i <= list@.len(),
            ranks@ == inbox_ranks(list@).take(i as int),
        decreases list@.len() - i,
    {
        let group: u64 = if list[i].state == AgentStateKind::Blocked {
            0
        } else {
            1
        };
        ranks.push(Rank { group, weight: list[i].seq, index: i });
        assert(ranks@ =~= inbox_ranks(list@).take(i + 1));
        i += 1;
    }
    assert(ranks@ =~= inbox_ranks(list@));
    let order = rank::sorted(&ranks);
    proof {
        picker::lemma_sorted_in_range(ranks@, list@.len() as int);
    }
    let ghost all = inbox_order(list@);
    let mut out: Vec<Notification> = Vec::new();
    let mut k: usize = 0;
    while k < order.len()
        invariant
            k <= order@.len(),
            order@.len() == all.len(),
            forall|j: int| 0 <= j < order@.len() ==> (#[trigger] order@[j]).index < list@.len(),
            forall|j: int|
                0 <= j < order@.len() ==> all[j] == list@[(#[trigger] order@[j]).index as int],
            out@ == all.take(k as int),
        decreases order@.len() - k,
    {
        out.push(list[order[k].index].clone());
        assert(all.take(k + 1) =~= all.take(k as int).push(all[k as int]));
        k += 1;
    }
    assert(all.take(k as int) =~= all);
    out
}

/// The index of the first notification of a pane.
pub open spec fn first_of_pane(list: Seq<Notification>, pane: PaneId, from: int) -> Option<int>
    decreases list.len() - from,
{
    if from < 0 || from >= list.len() {
        None
    } else if list[from].pane == pane {
        Some(from)
    } else {
        first_of_pane(list, pane, from + 1)
    }
}

impl Attention {
    /// The inbox shows these notifications, in order.
    pub open spec fn shows(self, list: Seq<Notification>, layout: LayoutSnapshot) -> bool {
        &&& self.notifications@ == inbox_order(list)
        &&& overlay::row_parts(self.overlay.rows@) == inbox_rows(inbox_order(list), layout)
        &&& self.overlay.title@ == "attention · enter jumps · a acknowledges · esc closes"@
        &&& self.overlay.filter is None
    }

    pub open spec fn pane_selected(self) -> Option<PaneId> {
        if self.overlay.selected < self.notifications@.len() {
            Some(self.notifications@[self.overlay.selected as int].pane)
        } else {
            None
        }
    }

    pub fn new(notifications: &[Notification], layout: &LayoutSnapshot) -> (r: Self)
        ensures
            r.shows(notifications@, *layout),
            r.overlay.selected == 0,
    {
        let notifications = in_order(notifications);
        let rows = rows(&notifications, layout);
        Attention {
            notifications,
            overlay: Overlay::new("attention · enter jumps · a acknowledges · esc closes", rows),
        }
    }

    /// The pane of the highlighted notification.
    pub fn current_pane(&self) -> (r: Option<PaneId>)
        ensures
            r == self.pane_selected(),
    {
        if self.overlay.selected < self.notifications.len() {
            Some(self.notifications[self.overlay.selected].pane)
        } else {
            None
        }
    }

    /// Rebuilds the rows from a live snapshot without stealing the user's place
    /// in an inbox that may update many times per second.
    pub fn refresh(&mut self, notifications: &[Notification], layout: &LayoutSnapshot)
        ensures
            final(self).shows(notifications@, *layout),
            final(self).overlay.selected == (match old(self).pane_selected() {
                Some(pane) => match first_of_pane(inbox_order(notifications@), pane, 0) {
                    Some(index) => index,
                    None => 0,
                },
                None => 0,
            }),
    {
        let selected = self.current_pane();
        let mut fresh = Attention::new(notifications, layout);
        if let Some(pane) = selected {
            let mut i: usize = 0;
            let mut found = false;
            let ghost list = fresh.notifications@;
            while !found && i < fresh.notifications.len()
                invariant
                    list == fresh.notifications@,
                    list == inbox_order(notifications@),
                    i <= list.len(),
                    found ==> i < list.len() && first_of_pane(list, pane, 0) == Some(i as int),
                    !found ==> first_of_pane(list, pane, 0) == first_of_pane(list, pane, i as int),
                decreases
                        list.len() - i,
                        (if found {
                            0int
                        } else {
                            1int
                        }),
            {
                if fresh.notifications[i].pane == pane {
                    found = true;
                } else {
                    i += 1;
                }
            }
            if found {
                fresh.overlay.selected = i;
            }
        }
        *self = fresh;
    }
}

/// Blocked agents come before all others.
pub proof fn law_blocked_agents_lead(list: Seq<Notification>, i: int, j: int)
    requires
        list.len() <= usize::MAX,
        0 <= i < j < inbox_order(list).len(),
        inbox_order(list)[j].state == AgentStateKind::Blocked,
    ensures
        inbox_order(list)[i].state == AgentStateKind::Blocked,
        inbox_order(list)[i].seq >= inbox_order(list)[j].seq,
{
    broadcast use vstd::seq_lib::group_to_multiset_ensures;

    let ranks = inbox_ranks(list);
    rank::law_sort_orders_the_same_entries(ranks);
    let order = rank::sort(ranks);
    assert(!rank::above(order[j], order[i]));
    assert forall|k: int| 0 <= k < order.len() implies ranks.contains(#[trigger] order[k]) by {
        assert(order.contains(order[k]));
        assert(order.to_multiset().count(order[k]) > 0);
        assert(ranks.to_multiset().count(order[k]) > 0);
    }
    assert(ranks.contains(order[i]));
    assert(ranks.contains(order[j]));
}

} // verus!
