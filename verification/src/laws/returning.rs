//! Coming back to a session: what is remembered of the view, and how it is restored.

use vstd::prelude::*;

use crate::proto::{ClientMessage, LayoutSnapshot, PaneId, PaneSnapshot, TabId, WorkspaceId, WorkspaceInfo};
use crate::reconnect_view::{self, SavedView};
use crate::sorted;

verus! {

proof fn lemma_last_focus(panes: Seq<PaneSnapshot>, count: int)
    requires
        0 <= count <= panes.len(),
    ensures
        match reconnect_view::last_focus(panes, count) {
            Some(id) => exists|i: int|
                0 <= i < count && (#[trigger] panes[i]).focused && panes[i].id == id,
            None => forall|i: int| 0 <= i < count ==> !(#[trigger] panes[i]).focused,
        },
    decreases count,
{
    if count > 0 && !panes[count - 1].focused {
        lemma_last_focus(panes, count - 1);
        if let Some(id) = reconnect_view::last_focus(panes, count) {
            let i = choose|i: int|
                0 <= i < count - 1 && (#[trigger] panes[i]).focused && panes[i].id == id;
            assert(panes[i].focused);
        }
    } else if count > 0 {
        assert(panes[count - 1].focused);
    }
}

/// What is seen is remembered: the tab that is active in its workspace, and the pane that
/// is focused, in its tab and for the whole view.
pub proof fn law_views_are_remembered(
    before: SavedView,
    layout: LayoutSnapshot,
    after: SavedView,
    pane: int,
)
    requires
        before.wf(),
        after.wf(),
        before.observed(layout, after),
        0 <= pane < layout.panes@.len(),
        layout.panes@[pane].focused,
        forall|i: int|
            0 <= i < layout.panes@.len() && (#[trigger] layout.panes@[i]).focused ==> i == pane,
        sorted::rising(reconnect_view::live_tabs(before.tabs@, layout.workspaces@)),
        sorted::rising(reconnect_view::live_focus(before.focused@, layout.workspaces@)),
    ensures
        sorted::value_of(after.tabs@, layout.active_workspace.0) == Some(layout.active_tab),
        sorted::value_of(after.focused@, layout.active_tab.0) == Some(layout.panes@[pane].id),
        after.active == Some(layout.panes@[pane].id),
{
    lemma_last_focus(layout.panes@, layout.panes@.len() as int);
    assert(layout.panes@[pane].focused);
    sorted::law_put_is_visible(
        reconnect_view::live_tabs(before.tabs@, layout.workspaces@),
        layout.active_workspace.0,
        layout.active_tab,
        layout.active_workspace.0,
    );
    sorted::law_put_is_visible(
        reconnect_view::live_focus(before.focused@, layout.workspaces@),
        layout.active_tab.0,
        layout.panes@[pane].id,
        layout.active_tab.0,
    );
}

/// Where a tab was in a workspace is forgotten exactly when it is not there any more.
pub proof fn law_closed_tabs_are_forgotten(
    tabs: Seq<(u64, TabId)>,
    workspaces: Seq<WorkspaceInfo>,
    entry: (u64, TabId),
)
    ensures
        reconnect_view::live_tabs(tabs, workspaces).contains(entry) <==> tabs.contains(entry) && (
        exists|i: int, k: int|
            0 <= i < workspaces.len() && workspaces[i].id.0 == entry.0 && 0 <= k
                < workspaces[i].tabs@.len() && #[trigger] workspaces[i].tabs@[k].id == entry.1),
{
    let lives = |e: (u64, TabId)| reconnect_view::tab_lives(workspaces, e.0, e.1);
    let kept = tabs.filter(lives);
    if kept.contains(entry) {
        tabs.lemma_filter_contains_rev(lives, entry);
        tabs.lemma_filter_pred(lives, kept.index_of(entry));
        let i = choose|i: int|
            0 <= i < workspaces.len() && (#[trigger] workspaces[i]).id.0 == entry.0
                && reconnect_view::has_tab(workspaces[i].tabs@, entry.1);
        let k = choose|k: int|
            0 <= k < workspaces[i].tabs@.len() && (#[trigger] workspaces[i].tabs@[k]).id
                == entry.1;
        assert(workspaces[i].tabs@[k].id == entry.1);
    }
    if tabs.contains(entry) && (exists|i: int, k: int|
        0 <= i < workspaces.len() && workspaces[i].id.0 == entry.0 && 0 <= k
            < workspaces[i].tabs@.len() && #[trigger] workspaces[i].tabs@[k].id == entry.1) {
        let (i, k) = choose|i: int, k: int|
            0 <= i < workspaces.len() && workspaces[i].id.0 == entry.0 && 0 <= k
                < workspaces[i].tabs@.len() && #[trigger] workspaces[i].tabs@[k].id == entry.1;
        assert(reconnect_view::has_tab(workspaces[i].tabs@, entry.1));
        assert(lives(entry));
        tabs.lemma_filter_contains(lives, tabs.index_of(entry));
    }
}

/// How far a pane on the screen is scrolled back is remembered.
pub proof fn law_scrolling_is_remembered(
    known: Seq<(u64, usize)>,
    panes: Seq<PaneSnapshot>,
    count: int,
    p: int,
)
    requires
        sorted::rising(known),
        0 <= p < count <= panes.len(),
        forall|i: int| p < i < count ==> (#[trigger] panes[i]).id.0 != panes[p].id.0,
    ensures
        sorted::rising(reconnect_view::scroll_with(known, panes, count)),
        sorted::value_of(reconnect_view::scroll_with(known, panes, count), panes[p].id.0) == Some(
            panes[p].scroll_offset,
        ),
    decreases count,
{
    lemma_scroll_rises(known, panes, count - 1);
    lemma_scroll_rises(known, panes, count);
    sorted::law_put_is_visible(
        reconnect_view::scroll_with(known, panes, count - 1),
        panes[count - 1].id.0,
        panes[count - 1].scroll_offset,
        panes[p].id.0,
    );
    if p < count - 1 {
        assert(panes[count - 1].id.0 != panes[p].id.0);
        law_scrolling_is_remembered(known, panes, count - 1, p);
    }
}

proof fn lemma_scroll_rises(known: Seq<(u64, usize)>, panes: Seq<PaneSnapshot>, count: int)
    requires
        sorted::rising(known),
        count <= panes.len(),
    ensures
        sorted::rising(reconnect_view::scroll_with(known, panes, count)),
    decreases count,
{
    if count > 0 {
        lemma_scroll_rises(known, panes, count - 1);
        lemma_put_rises(
            reconnect_view::scroll_with(known, panes, count - 1),
            panes[count - 1].id.0,
            panes[count - 1].scroll_offset,
        );
    }
}

pub proof fn lemma_put_rises<T>(s: Seq<(u64, T)>, key: u64, value: T)
    requires
        sorted::rising(s),
    ensures
        sorted::rising(sorted::put(s, key, value)),
    decreases s.len(),
{
    let after = sorted::put(s, key, value);
    if s.len() > 0 && s[0].0 < key {
        let rest = s.skip(1);
        assert forall|i: int, j: int| 0 <= i < j < rest.len() implies (#[trigger] rest[i]).0 < (
        #[trigger] rest[j]).0 by {
            assert(s[i + 1].0 < s[j + 1].0);
        }
        lemma_put_rises(rest, key, value);
        let put = sorted::put(rest, key, value);
        assert forall|i: int, j: int| 0 <= i < j < after.len() implies (#[trigger] after[i]).0 < (
        #[trigger] after[j]).0 by {
            if i == 0 {
                sorted::lemma_put_adds_one(rest, key, value, j - 1);
                if put[j - 1] != (key, value) {
                    let k = rest.index_of(put[j - 1]);
                    assert(s[0].0 < s[k + 1].0);
                }
            } else {
                assert(put[i - 1].0 < put[j - 1].0);
            }
        }
    } else {
        assert forall|i: int, j: int| 0 <= i < j < after.len() implies (#[trigger] after[i]).0 < (
        #[trigger] after[j]).0 by {
            if s.len() > 0 && s[0].0 == key {
                if i > 0 {
                    assert(s[i].0 < s[j].0);
                } else {
                    assert(s[0].0 < s[j].0);
                }
            } else if i > 0 {
                assert(s[i - 1].0 < s[j - 1].0);
            } else if j > 1 {
                assert(s[0].0 < s[j - 1].0);
            }
        }
    }
}

proof fn lemma_focus_sent(focused: Seq<(u64, PaneId)>, count: int, k: int)
    requires
        0 <= k < count <= focused.len(),
    ensures
        reconnect_view::focus_messages(focused, count).len() == count,
        reconnect_view::focus_messages(focused, count)[k] == (ClientMessage::FocusPaneId {
            id: focused[k].1,
        }),
    decreases count,
{
    if count > 1 {
        lemma_focus_sent(
            focused,
            count - 1,
            if k < count - 1 {
                k
            } else {
                0
            },
        );
    } else {
        assert(reconnect_view::focus_messages(focused, 0).len() == 0);
    }
}

proof fn lemma_tabs_sent(tabs: Seq<(u64, TabId)>, count: int, k: int)
    requires
        0 <= k < count <= tabs.len(),
    ensures
        reconnect_view::tab_messages(tabs, count).len() == 2 * count,
        reconnect_view::tab_messages(tabs, count)[2 * k] == (ClientMessage::SelectWorkspace {
            id: WorkspaceId(tabs[k].0),
        }),
        reconnect_view::tab_messages(tabs, count)[2 * k + 1] == (ClientMessage::SelectTab {
            id: tabs[k].1,
        }),
    decreases count,
{
    if count > 1 {
        lemma_tabs_sent(
            tabs,
            count - 1,
            if k < count - 1 {
                k
            } else {
                0
            },
        );
    } else {
        assert(reconnect_view::tab_messages(tabs, 0).len() == 0);
    }
}

/// Restoring a view selects every remembered tab, in its workspace, and focuses every
/// remembered pane; which pane was active is said last.
pub proof fn law_views_are_restored(
    tabs: Seq<(u64, TabId)>,
    focused: Seq<(u64, PaneId)>,
    scroll: Seq<(u64, usize)>,
    active: Option<PaneId>,
    t: int,
    f: int,
)
    requires
        0 <= t < tabs.len(),
        0 <= f < focused.len(),
    ensures
        ({
            let sent = reconnect_view::restored(tabs, focused, scroll, active);
            &&& sent[f] == (ClientMessage::FocusPaneId { id: focused[f].1 })
            &&& sent[focused.len() + 2 * t] == (ClientMessage::SelectWorkspace {
                id: WorkspaceId(tabs[t].0),
            })
            &&& sent[focused.len() + 2 * t + 1] == (ClientMessage::SelectTab { id: tabs[t].1 })
            &&& active matches Some(id) ==> sent.last() == (ClientMessage::FocusPaneId { id })
        }),
{
    lemma_focus_sent(focused, focused.len() as int, f);
    lemma_tabs_sent(tabs, tabs.len() as int, t);
}

/// A pane that was scrolled back is scrolled back again, as far as one message can say;
/// one that was not is left alone.
pub proof fn law_scrolling_is_restored(scroll: Seq<(u64, usize)>, count: int, k: int)
    requires
        0 <= k < count <= scroll.len(),
    ensures
        scroll[k].1 > 0 ==> exists|m: int|
            0 <= m < reconnect_view::scroll_messages(scroll, count).len() && (
            #[trigger] reconnect_view::scroll_messages(
                scroll,
                count,
            )[m] matches ClientMessage::ScrollPane { id, delta } && id == PaneId(scroll[k].0)
                && delta > 0 && (scroll[k].1 <= i16::MAX ==> delta == scroll[k].1)),
        forall|m: int|
            0 <= m < reconnect_view::scroll_messages(scroll, count).len() ==> (
            #[trigger] reconnect_view::scroll_messages(
                scroll,
                count,
            )[m] matches ClientMessage::ScrollPane { delta, .. } && delta > 0),
    decreases count,
{
    let all = reconnect_view::scroll_messages(scroll, count);
    let front = reconnect_view::scroll_messages(scroll, count - 1);
    if count > 1 {
        law_scrolling_is_restored(
            scroll,
            count - 1,
            if k < count - 1 {
                k
            } else {
                0
            },
        );
    } else {
        assert(front.len() == 0);
    }
    assert forall|m: int| 0 <= m < all.len() implies (
    #[trigger] all[m] matches ClientMessage::ScrollPane { delta, .. } && delta > 0) by {
        if m < front.len() {
            assert(all[m] == front[m]);
        }
    }
    if scroll[k].1 > 0 {
        if k < count - 1 {
            let m = choose|m: int|
                0 <= m < front.len() && (#[trigger] front[m] matches ClientMessage::ScrollPane {
                    id,
                    delta,
                } && id == PaneId(scroll[k].0) && delta > 0 && (scroll[k].1 <= i16::MAX ==> delta
                    == scroll[k].1));
            assert(all[m] == front[m]);
        } else {
            assert(all[all.len() - 1] == all.last());
        }
    }
}

/// An agent runs in a pane of a tab.
pub open spec fn runs_in(workspaces: Seq<WorkspaceInfo>, w: int, t: int, pane: PaneId) -> bool {
    exists|a: int|
        0 <= a < workspaces[w].tabs@[t].agents@.len() && (
        #[trigger] workspaces[w].tabs@[t].agents@[a]).pane == pane
}

/// The focus of a tab that is not on the screen is kept exactly while an agent runs in that
/// pane of that tab.
pub proof fn law_focus_is_kept_with_its_agent(
    s: Seq<(u64, PaneId)>,
    workspaces: Seq<WorkspaceInfo>,
    entry: (u64, PaneId),
)
    ensures
        reconnect_view::live_focus(s, workspaces).contains(entry) <==> s.contains(entry) && (exists|
            w: int,
            t: int,
        |
            0 <= w < workspaces.len() && 0 <= t < workspaces[w].tabs@.len()
                && workspaces[w].tabs@[t].id.0 == entry.0 && #[trigger] runs_in(
                workspaces,
                w,
                t,
                entry.1,
            )),
{
    let lives = |e: (u64, PaneId)| reconnect_view::focus_lives(workspaces, e.0, e.1);
    let kept = s.filter(lives);
    if kept.contains(entry) {
        s.lemma_filter_contains_rev(lives, entry);
        s.lemma_filter_pred(lives, kept.index_of(entry));
        let w = choose|w: int|
            0 <= w < workspaces.len() && reconnect_view::tab_has_pane(
                (#[trigger] workspaces[w]).tabs@,
                entry.0,
                entry.1,
            );
        let t = choose|t: int|
            0 <= t < workspaces[w].tabs@.len() && (#[trigger] workspaces[w].tabs@[t]).id.0
                == entry.0 && reconnect_view::has_agent(workspaces[w].tabs@[t].agents@, entry.1);
        assert(runs_in(workspaces, w, t, entry.1));
    }
    if s.contains(entry) && (exists|w: int, t: int|
        0 <= w < workspaces.len() && 0 <= t < workspaces[w].tabs@.len()
            && workspaces[w].tabs@[t].id.0 == entry.0 && #[trigger] runs_in(
            workspaces,
            w,
            t,
            entry.1,
        )) {
        let (w, t) = choose|w: int, t: int|
            0 <= w < workspaces.len() && 0 <= t < workspaces[w].tabs@.len()
                && workspaces[w].tabs@[t].id.0 == entry.0 && #[trigger] runs_in(
                workspaces,
                w,
                t,
                entry.1,
            );
        let tabs = workspaces[w].tabs@;
        assert(tabs[t].id.0 == entry.0 && reconnect_view::has_agent(tabs[t].agents@, entry.1));
        assert(reconnect_view::tab_has_pane(workspaces[w].tabs@, entry.0, entry.1));
        assert(lives(entry));
        s.lemma_filter_contains(lives, s.index_of(entry));
    }
}

/// How far a pane that is not on the screen is scrolled is kept exactly while an agent runs
/// in it.
pub proof fn law_scrolling_is_kept_with_its_agent(
    s: Seq<(u64, usize)>,
    workspaces: Seq<WorkspaceInfo>,
    entry: (u64, usize),
)
    ensures
        reconnect_view::live_scroll(s, workspaces).contains(entry) <==> s.contains(entry) && (
        exists|w: int, t: int|
            0 <= w < workspaces.len() && 0 <= t < workspaces[w].tabs@.len() && #[trigger] runs_in(
                workspaces,
                w,
                t,
                PaneId(entry.0),
            )),
{
    let lives = |e: (u64, usize)| reconnect_view::pane_lives(workspaces, PaneId(e.0));
    let kept = s.filter(lives);
    let pane = PaneId(entry.0);
    if kept.contains(entry) {
        s.lemma_filter_contains_rev(lives, entry);
        s.lemma_filter_pred(lives, kept.index_of(entry));
        let w = choose|w: int|
            0 <= w < workspaces.len() && reconnect_view::pane_in_tabs(
                (#[trigger] workspaces[w]).tabs@,
                pane,
            );
        let t = choose|t: int|
            0 <= t < workspaces[w].tabs@.len() && reconnect_view::has_agent(
                (#[trigger] workspaces[w].tabs@[t]).agents@,
                pane,
            );
        assert(runs_in(workspaces, w, t, pane));
    }
    if s.contains(entry) && (exists|w: int, t: int|
        0 <= w < workspaces.len() && 0 <= t < workspaces[w].tabs@.len() && #[trigger] runs_in(
            workspaces,
            w,
            t,
            pane,
        )) {
        let (w, t) = choose|w: int, t: int|
            0 <= w < workspaces.len() && 0 <= t < workspaces[w].tabs@.len() && #[trigger] runs_in(
                workspaces,
                w,
                t,
                pane,
            );
        let tabs = workspaces[w].tabs@;
        assert(reconnect_view::has_agent(tabs[t].agents@, pane));
        assert(reconnect_view::pane_in_tabs(workspaces[w].tabs@, pane));
        assert(lives(entry));
        s.lemma_filter_contains(lives, s.index_of(entry));
    }
}

/// While no pane is focused on the screen, what was active stays so, and so does the focus
/// of every tab that is still there.
pub proof fn law_views_without_focus_stay(
    before: SavedView,
    layout: LayoutSnapshot,
    after: SavedView,
)
    requires
        before.observed(layout, after),
        forall|i: int| 0 <= i < layout.panes@.len() ==> !(#[trigger] layout.panes@[i]).focused,
    ensures
        after.active == before.active,
        after.focused@ == reconnect_view::live_focus(before.focused@, layout.workspaces@),
{
    lemma_last_focus(layout.panes@, layout.panes@.len() as int);
}

} // verus!
