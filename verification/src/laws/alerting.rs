//! Alerts: which changes of an agent are told, how, and how they are listed.

use vstd::prelude::*;

use crate::attention;
use crate::laws::searching;
use crate::layout;
use crate::notify::{self, Effect, Notifier, NotifyToast};
use crate::overlay::OverlayTarget;
use crate::proto::{AgentStateKind, LayoutSnapshot, Notification, PaneId};
use crate::rank::{self, Rank};
use crate::text;

verus! {

/// The inbox lists every alert once. Agents that ask something come first; otherwise the
/// newer alert comes first. The result says where each stood.
pub proof fn law_the_inbox_is_in_order(list: Seq<Notification>) -> (at: Seq<int>)
    requires
        list.len() <= usize::MAX,
    ensures
        ({
            let shown = attention::inbox_order(list);
            &&& shown.len() == list.len()
            &&& at.len() == list.len()
            &&& forall|k: int|
                0 <= k < at.len() ==> 0 <= #[trigger] at[k] < list.len() && shown[k] == list[at[k]]
            &&& forall|n: int| 0 <= n < list.len() ==> #[trigger] at.contains(n)
            &&& forall|i: int, j: int|
                0 <= i < j < at.len() ==> {
                    let a = list[#[trigger] at[i]];
                    let b = list[#[trigger] at[j]];
                    &&& b.state == AgentStateKind::Blocked ==> a.state == AgentStateKind::Blocked
                    &&& (a.state == AgentStateKind::Blocked) == (b.state
                        == AgentStateKind::Blocked) ==> a.seq > b.seq || (a.seq == b.seq && at[i]
                        < at[j])
                }
        }),
{
    let ranks = attention::inbox_ranks(list);
    assert forall|i: int, j: int| 0 <= i < j < ranks.len() implies (#[trigger] ranks[i]).index < (
    #[trigger] ranks[j]).index by {}
    searching::law_sorting_puts_ranks_in_order(ranks);
    let order = rank::sort(ranks);
    let at = order.map_values(|r: Rank| r.index as int);
    let shown = attention::inbox_order(list);
    assert forall|k: int| 0 <= k < at.len() implies 0 <= #[trigger] at[k] < list.len() && shown[k]
        == list[at[k]] by {
        let m = ranks.index_of(order[k]);
        assert(ranks[m] == order[k]);
    }
    assert forall|n: int| 0 <= n < list.len() implies #[trigger] at.contains(n) by {
        assert(order.contains(ranks[n]));
        let m = order.index_of(ranks[n]);
        assert(at[m] == n);
    }
    assert forall|i: int, j: int| 0 <= i < j < at.len() implies {
        let a = list[#[trigger] at[i]];
        let b = list[#[trigger] at[j]];
        &&& b.state == AgentStateKind::Blocked ==> a.state == AgentStateKind::Blocked
        &&& (a.state == AgentStateKind::Blocked) == (b.state == AgentStateKind::Blocked) ==> a.seq
            > b.seq || (a.seq == b.seq && at[i] < at[j])
    } by {
        let p = ranks.index_of(order[i]);
        let q = ranks.index_of(order[j]);
        assert(ranks[p] == order[i] && ranks[q] == order[j]);
        assert(searching::leads(order[i], order[j]));
    }
    at
}

/// Every row of the inbox leads to the pane that its alert is about.
pub proof fn law_inbox_rows_lead_to_their_panes(
    list: Seq<Notification>,
    layout: LayoutSnapshot,
    k: int,
)
    requires
        0 <= k < list.len(),
    ensures
        attention::inbox_rows(list, layout).len() == list.len(),
        attention::inbox_rows(list, layout)[k].2 == OverlayTarget::Pane(list[k].pane),
        attention::inbox_rows(Seq::empty(), layout).len() == 1,
        attention::inbox_rows(Seq::empty(), layout)[0].2 == OverlayTarget::Nothing,
{
}

/// A refreshed inbox finds the marked pane again: the first alert about it.
pub proof fn law_the_marked_pane_is_found(list: Seq<Notification>, pane: PaneId, from: int)
    requires
        0 <= from,
    ensures
        match attention::first_of_pane(list, pane, from) {
            Some(i) => from <= i < list.len() && list[i].pane == pane && forall|k: int|
                from <= k < i ==> (#[trigger] list[k]).pane != pane,
            None => forall|k: int| from <= k < list.len() ==> (#[trigger] list[k]).pane != pane,
        },
    decreases list.len() - from,
{
    if from < list.len() && list[from].pane != pane {
        law_the_marked_pane_is_found(list, pane, from + 1);
    }
}

/// An age is told in the largest unit of which there is one, rounded down.
pub proof fn law_ages_are_rounded_down(seconds: nat)
    ensures
        seconds < 60 ==> attention::age(seconds) == text::decimal(seconds) + seq!['s'],
        60 <= seconds < 3600 ==> exists|n: nat|
            n * 60 <= seconds < n * 60 + 60 && attention::age(seconds) == #[trigger] text::decimal(
                n,
            ) + seq!['m'],
        3600 <= seconds ==> exists|n: nat|
            n * 3600 <= seconds < n * 3600 + 3600 && attention::age(seconds)
                == #[trigger] text::decimal(n) + seq!['h'],
{
    reveal_strlit("s");
    reveal_strlit("m");
    reveal_strlit("h");
    assert("s"@ =~= seq!['s'] && "m"@ =~= seq!['m'] && "h"@ =~= seq!['h']);
    if 60 <= seconds < 3600 {
        let n = seconds / 60;
        assert(n * 60 <= seconds < n * 60 + 60 && attention::age(seconds) == text::decimal(n)
            + seq!['m']);
    } else if 3600 <= seconds {
        let n = seconds / 3600;
        assert(n * 3600 <= seconds < n * 3600 + 3600 && attention::age(seconds) == text::decimal(
            n,
        ) + seq!['h']);
    }
}

/// What the age in the inbox says is how long the agent has been in its state, taken from
/// the pane on the screen where it is, else from its tab.
pub proof fn law_ages_are_of_the_pane(notice: Notification, layout: LayoutSnapshot)
    ensures
        attention::known_age(notice, layout) == (match layout::pane_with(
            layout.panes@,
            notice.pane,
        ) {
            Some(pane) => Some(pane.state_age_secs),
            None => match layout::tab_at(layout, notice.workspace, notice.tab) {
                Some(tab) => match layout::agent_in(tab.agents@, notice.pane) {
                    Some(agent) => Some(agent.state_age_secs),
                    None => None::<u64>,
                },
                None => None,
            },
        }),
{
}

// ---------------------------------------------------------------------------- telling

/// An alert is heeded exactly when alerts are on, its state is one that was asked for,
/// and the pane is not the one in focus on the screen where that is to be left out.
pub proof fn law_alerts_are_heeded(told: Notifier, n: Notification, layout: LayoutSnapshot)
    ensures
        !told.enabled ==> !told.heeds(n, layout),
        !told.on@.contains(n.state) ==> !told.heeds(n, layout),
        told.enabled && told.on@.contains(n.state) && !told.only_when_unfocused ==> told.heeds(
            n,
            layout,
        ),
        told.only_when_unfocused && layout.active_workspace == n.workspace && layout.active_tab
            == n.tab && (exists|i: int|
            0 <= i < layout.panes@.len() && (#[trigger] layout.panes@[i]).id == n.pane
                && layout.panes@[i].focused) ==> !told.heeds(n, layout),
        told.enabled && told.on@.contains(n.state) && (layout.active_workspace != n.workspace
            || layout.active_tab != n.tab) ==> told.heeds(n, layout),
        told.enabled && told.on@.contains(n.state) && (forall|i: int|
            0 <= i < layout.panes@.len() ==> (#[trigger] layout.panes@[i]).id != n.pane
                || !layout.panes@[i].focused) ==> told.heeds(n, layout),
{
}

/// A heeded alert is told as it was asked for: in the status bar, by the desktop or not at
/// all, with the bell and the sound where they are on, each once.
pub proof fn law_alerts_are_told_as_asked(
    told: Notifier,
    effects: Seq<Effect>,
    n: Notification,
    layout: LayoutSnapshot,
)
    requires
        told.effects_are(effects, n, layout),
    ensures
        (exists|i: int| 0 <= i < effects.len() && #[trigger] effects[i] is Toast) <==> told.toast
            == NotifyToast::Status,
        (exists|i: int| 0 <= i < effects.len() && #[trigger] effects[i] is Osc777) <==> told.toast
            == NotifyToast::System,
        (exists|i: int| 0 <= i < effects.len() && #[trigger] effects[i] is Bell) <==> told.bell,
        (exists|i: int| 0 <= i < effects.len() && #[trigger] effects[i] is Sound)
            <==> told.sound@.len() > 0,
        forall|i: int|
            0 <= i < effects.len() ==> (#[trigger] effects[i] matches Effect::Sound(command)
                ==> command@ == told.sound@),
        effects.len() <= 3,
{
    if told.toast != NotifyToast::Off {
        assert(effects[0] == effects[0]);
    }
    let shown = if told.toast == NotifyToast::Off {
        0int
    } else {
        1
    };
    let rung = if told.bell {
        1int
    } else {
        0
    };
    if told.bell {
        assert(effects[shown] is Bell);
    }
    if told.sound@.len() > 0 {
        assert(effects[shown + rung] is Sound);
    }
}

/// The newest alert of a pane takes the place of an earlier one, those of other panes
/// stay in order.
pub proof fn law_alerts_of_other_panes_stay(list: Seq<Notification>, n: Notification)
    ensures
        forall|i: int|
            0 <= i < notify::others(list, n).len() ==> (#[trigger] notify::others(list, n)[i]).pane
                != n.pane,
        forall|i: int|
            0 <= i < list.len() && (#[trigger] list[i]).pane != n.pane ==> notify::others(
                list,
                n,
            ).contains(list[i]),
        forall|i: int|
            0 <= i < notify::others(list, n).len() ==> list.contains(
                #[trigger] notify::others(list, n)[i],
            ),
    decreases list.len(),
{
    if list.len() > 0 {
        let front = list.drop_last();
        law_alerts_of_other_panes_stay(front, n);
        let kept = notify::others(front, n);
        let all = notify::others(list, n);
        assert forall|i: int| 0 <= i < list.len() && (#[trigger] list[i]).pane
            != n.pane implies all.contains(list[i]) by {
            if i < front.len() {
                assert(front[i] == list[i]);
                let k = kept.index_of(list[i]);
                assert(all[k] == list[i]);
            } else {
                assert(all[all.len() - 1] == list[i]);
            }
        }
        assert forall|i: int| 0 <= i < all.len() implies list.contains(#[trigger] all[i]) by {
            if i < kept.len() {
                assert(all[i] == kept[i]);
                let k = front.index_of(kept[i]);
                assert(list[k] == all[i]);
            } else {
                assert(list[list.len() - 1] == all[i]);
            }
        }
    }
}

/// How the inbox tells a state.
pub proof fn law_inbox_states(notice: Notification, layout: LayoutSnapshot)
    ensures
        attention::inbox_state(AgentStateKind::Blocked) == "● blocked"@,
        attention::inbox_state(AgentStateKind::Done) == "✓ done"@,
        attention::inbox_state(AgentStateKind::Working) == "working"@,
        attention::inbox_state(AgentStateKind::Idle) == "idle"@,
        attention::inbox_state(AgentStateKind::Unknown) == "unknown"@,
        (attention::inbox_state(notice.state) + " · "@ + notice.agent@ + " · "@).is_prefix_of(
            attention::inbox_row(notice, layout).0,
        ),
        attention::place(notice, layout).is_suffix_of(attention::inbox_row(notice, layout).0),
{
}

/// What is told of an alert is the same wherever it is told.
pub proof fn law_alerts_say_the_same(
    told: Notifier,
    effects: Seq<Effect>,
    n: Notification,
    layout: LayoutSnapshot,
)
    requires
        told.effects_are(effects, n, layout),
    ensures
        told.toast == NotifyToast::Status ==> (effects[0] matches Effect::Toast(said) && said@
            == notify::toast(n, layout, told.jump_hint@)),
        told.toast == NotifyToast::System ==> (effects[0] matches Effect::Osc777 { title, body }
            && title@ == "Ködade"@ && body@ == notify::toast(n, layout, told.jump_hint@)),
{
}

/// An alert tells who is in which state, and where: by the names, or by the numbers of what
/// has been closed.
pub proof fn law_alerts_tell_where(n: Notification, layout: LayoutSnapshot, hint: Seq<char>)
    ensures
        ("● "@ + n.agent@ + " "@ + layout::state_text(n.state) + " in "@).is_prefix_of(
            notify::toast(n, layout, hint),
        ),
        (notify::workspace_label(layout, n) + "/"@ + notify::tab_label(layout, n) + " · prefix "@
            + hint + " to jump"@).is_suffix_of(notify::toast(n, layout, hint)),
        layout::workspace_with(layout.workspaces@, n.workspace) matches Some(w)
            ==> notify::workspace_label(layout, n) == w.name@,
        layout::workspace_with(layout.workspaces@, n.workspace) is None ==> notify::workspace_label(
            layout,
            n,
        ) == "ws"@ + text::decimal(n.workspace.0 as nat),
        layout::tab_at(layout, n.workspace, n.tab) matches Some(t) ==> notify::tab_label(layout, n)
            == t.name@,
        layout::tab_at(layout, n.workspace, n.tab) is None ==> notify::tab_label(layout, n)
            == "tab"@ + text::decimal(n.tab.0 as nat),
{
    let head = "● "@ + n.agent@ + " "@ + layout::state_text(n.state) + " in "@;
    let tail = notify::workspace_label(layout, n) + "/"@ + notify::tab_label(layout, n)
        + " · prefix "@ + hint + " to jump"@;
    assert(notify::toast(n, layout, hint) =~= head + tail);
}

/// The inbox tells for how long, and why, as far as either is known.
pub proof fn law_inbox_hints(notice: Notification, layout: LayoutSnapshot)
    ensures
        ({
            let hint = attention::inbox_hint(notice, layout);
            let reason = attention::known_reason(notice, layout);
            &&& attention::known_age(notice, layout) is None ==> hint == reason
            &&& attention::known_age(notice, layout) matches Some(seconds) ==> {
                &&& reason.len() == 0 ==> hint == attention::age(seconds as nat)
                &&& reason.len() > 0 ==> hint == attention::age(seconds as nat) + " · "@ + reason
            }
        }),
{
}

/// Alerts are read from the last to the first, each once.
pub proof fn law_alerts_are_read_last_first(
    told: Notifier,
    one: Option<Notification>,
    then: Notifier,
    other: Option<Notification>,
    after: Notifier,
)
    requires
        told.reads(one, then),
        then.reads(other, after),
        told.unread@.len() >= 2,
    ensures
        one == Some(told.unread@[told.unread@.len() - 1]),
        other == Some(told.unread@[told.unread@.len() - 2]),
        after.unread@ == told.unread@.take(told.unread@.len() - 2),
{
    if let Some(n) = one {
        assert(told.unread@[told.unread@.len() - 1] == then.unread@.push(n).last());
        if let Some(m) = other {
            assert(after.unread@ =~= told.unread@.take(told.unread@.len() - 2));
        }
    }
}

} // verus!
