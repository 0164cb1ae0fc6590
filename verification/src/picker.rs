//! Fuzzy pickers for the workspace switcher and the goto palette.

use vstd::prelude::*;

use crate::layout;
use crate::overlay;
use crate::overlay::{Overlay, OverlayRow, OverlayTarget};
use crate::proto::{
    AgentInfo, AgentStateKind, LayoutSnapshot, PaneId, SidebarTabInfo, TabId, WorkspaceId,
    WorkspaceInfo,
};
use crate::rank;
use crate::rank::Rank;
use crate::text;

verus! {

/// What activating a picker row does. `Tab` carries only the tab id: a tab can
/// live in an inactive workspace.
#[derive(Debug, Clone, Copy, PartialEq, Eq, Structural)]
pub enum PickTarget {
    Workspace(WorkspaceId),
    Tab(TabId),
    Pane(PaneId),
}

impl PickTarget {
    pub open spec fn as_overlay(self) -> OverlayTarget {
        match self {
            PickTarget::Workspace(id) => OverlayTarget::Workspace(id),
            PickTarget::Tab(id) => OverlayTarget::Tab(id),
            PickTarget::Pane(id) => OverlayTarget::Pane(id),
        }
    }

    /// The overlay's own target, so that clicks and `enter` share a path.
    pub fn overlay_target(&self) -> (r: OverlayTarget)
        ensures
            r == self.as_overlay(),
    {
        match *self {
            PickTarget::Workspace(id) => OverlayTarget::Workspace(id),
            PickTarget::Tab(id) => OverlayTarget::Tab(id),
            PickTarget::Pane(id) => OverlayTarget::Pane(id),
        }
    }
}

/// One searchable entry: a display label, a dim detail, the state that colors
/// its dot, and the target it activates.
#[derive(Debug, PartialEq, Eq)]
pub struct PickerItem {
    pub label: String,
    pub detail: String,
    pub state: AgentStateKind,
    pub target: PickTarget,
}

impl Clone for PickerItem {
    fn clone(&self) -> (r: Self)
        ensures
            r == *self,
    {
        PickerItem {
            label: self.label.clone(),
            detail: self.detail.clone(),
            state: self.state,
            target: self.target,
        }
    }
}

impl PickerItem {
    /// What an entry shows and activates.
    pub open spec fn parts(self) -> (Seq<char>, Seq<char>, AgentStateKind, PickTarget) {
        (self.label@, self.detail@, self.state, self.target)
    }
}

pub open spec fn item_parts(items: Seq<PickerItem>) -> Seq<
    (Seq<char>, Seq<char>, AgentStateKind, PickTarget),
> {
    items.map_values(|item: PickerItem| item.parts())
}

// ---------------------------------------------------------------------- entries

/// The base name of a workspace's root, when set and different from its name.
pub open spec fn distinct_base(workspace: WorkspaceInfo) -> Option<Seq<char>> {
    match workspace.root {
        Some(root) => match text::base_name(root@) {
            Some(base) => if base != workspace.name@ {
                Some(base)
            } else {
                None
            },
            None => None,
        },
        None => None,
    }
}

pub fn root_basename(workspace: &WorkspaceInfo) -> (r: Option<String>)
    ensures
        text::option_text(r) == distinct_base(*workspace),
{
    match &workspace.root {
        Some(root) => match text::file_name(root.as_str()) {
            Some(base) => if text::same(base.as_str(), workspace.name.as_str()) {
                None
            } else {
                Some(base)
            },
            None => None,
        },
        None => None,
    }
}

/// The tab count of a workspace, and its root where that says more.
pub open spec fn workspace_detail(workspace: WorkspaceInfo) -> Seq<char> {
    let count = text::decimal(workspace.tabs@.len()) + " "@ + (if workspace.tabs@.len() == 1 {
        "tab"@
    } else {
        "tabs"@
    });
    match distinct_base(workspace) {
        Some(base) => count + " · "@ + base,
        None => count,
    }
}

pub open spec fn workspace_entry(workspace: WorkspaceInfo) -> (
    Seq<char>,
    Seq<char>,
    AgentStateKind,
    PickTarget,
) {
    (
        workspace.name@,
        workspace_detail(workspace),
        workspace.state,
        PickTarget::Workspace(workspace.id),
    )
}

/// Every workspace as a picker row.
pub fn workspace_items(layout: &LayoutSnapshot) -> (r: Vec<PickerItem>)
    ensures
        item_parts(r@) == layout.workspaces@.map_values(|w: WorkspaceInfo| workspace_entry(w)),
{
    let mut items: Vec<PickerItem> = Vec::new();
    let mut i: usize = 0;
    let ghost all = layout.workspaces@.map_values(|w: WorkspaceInfo| workspace_entry(w));
    while i < layout.workspaces.len()
        invariant
            all == layout.workspaces@.map_values(|w: WorkspaceInfo| workspace_entry(w)),
            i <= layout.workspaces@.len(),
            item_parts(items@) == all.take(i as int),
        decreases layout.workspaces@.len() - i,
    {
        let workspace = &layout.workspaces[i];
        let tabs: usize = workspace.tabs.len();
        let mut detail = text::cat3(
            text::decimal_text(tabs as u64).as_str(),
            " ",
            if tabs == 1 {
                "tab"
            } else {
                "tabs"
            },
        );
        if let Some(base) = root_basename(workspace) {
            detail.append(" · ");
            detail.append(base.as_str());
        }
        let item = PickerItem {
            label: workspace.name.clone(),
            detail,
            state: workspace.state,
            target: PickTarget::Workspace(workspace.id),
        };
        let ghost before = item_parts(items@);
        let ghost parts = item.parts();
        items.push(item);
        assert(item_parts(items@) =~= before.push(parts));
        assert(all.take(i + 1) =~= all.take(i as int).push(all[i as int]));
        i += 1;
    }
    assert(all.take(i as int) =~= all);
    items
}

pub open spec fn agent_entries(path: Seq<char>, agents: Seq<AgentInfo>) -> Seq<
    (Seq<char>, Seq<char>, AgentStateKind, PickTarget),
> {
    agents.map_values(
        |a: AgentInfo|
            (
                path + " › "@ + a.name@,
                layout::state_text(a.state),
                a.state,
                PickTarget::Pane(a.pane),
            ),
    )
}

/// The entries of one tab: the tab, then its agents.
pub open spec fn tab_entries(workspace: Seq<char>, tab: SidebarTabInfo) -> Seq<
    (Seq<char>, Seq<char>, AgentStateKind, PickTarget),
> {
    let path = workspace + " › "@ + tab.name@;
    seq![(path, "tab"@, tab.state, PickTarget::Tab(tab.id))] + agent_entries(path, tab.agents@)
}

/// The entries of the first `count` tabs.
pub open spec fn tabs_entries(workspace: Seq<char>, tabs: Seq<SidebarTabInfo>, count: int) -> Seq<
    (Seq<char>, Seq<char>, AgentStateKind, PickTarget),
>
    decreases count,
{
    if count <= 0 {
        Seq::empty()
    } else {
        tabs_entries(workspace, tabs, count - 1) + tab_entries(workspace, tabs[count - 1])
    }
}

/// The entries of the first `count` workspaces: each workspace, then its tabs,
/// each followed by its agents.
pub open spec fn goto_entries(workspaces: Seq<WorkspaceInfo>, count: int) -> Seq<
    (Seq<char>, Seq<char>, AgentStateKind, PickTarget),
>
    decreases count,
{
    if count <= 0 {
        Seq::empty()
    } else {
        let w = workspaces[count - 1];
        goto_entries(workspaces, count - 1) + seq![
            (w.name@, "workspace"@, w.state, PickTarget::Workspace(w.id)),
        ] + tabs_entries(w.name@, w.tabs@, w.tabs@.len() as int)
    }
}

fn push_item(
    items: &mut Vec<PickerItem>,
    label: String,
    detail: &str,
    state: AgentStateKind,
    target: PickTarget,
)
    ensures
        item_parts(final(items)@) == item_parts(old(items)@).push(
            (label@, detail@, state, target),
        ),
{
    let ghost before = item_parts(items@);
    let ghost parts = (label@, detail@, state, target);
    items.push(PickerItem { label, detail: detail.to_owned(), state, target });
    assert(item_parts(items@) =~= before.push(parts));
}

fn push_tab(items: &mut Vec<PickerItem>, workspace: &str, tab: &SidebarTabInfo)
    ensures
        item_parts(final(items)@) == item_parts(old(items)@) + tab_entries(workspace@, *tab),
{
    let ghost start = item_parts(items@);
    let path = text::cat3(workspace, " › ", tab.name.as_str());
    let ghost path_text = path@;
    push_item(items, path.clone(), "tab", tab.state, PickTarget::Tab(tab.id));
    let ghost head = start.push((path_text, "tab"@, tab.state, PickTarget::Tab(tab.id)));
    let ghost agents = agent_entries(path_text, tab.agents@);
    let mut i: usize = 0;
    assert(head + agents.take(0) =~= head);
    while i < tab.agents.len()
        invariant
            path@ == path_text,
            agents == agent_entries(path_text, tab.agents@),
            i <= tab.agents@.len(),
            item_parts(items@) == head + agents.take(i as int),
        decreases tab.agents@.len() - i,
    {
        let agent = &tab.agents[i];
        push_item(
            items,
            text::cat3(path.as_str(), " › ", agent.name.as_str()),
            layout::state_name(agent.state),
            agent.state,
            PickTarget::Pane(agent.pane),
        );
        assert(agents.take(i + 1) =~= agents.take(i as int).push(agents[i as int]));
        assert(item_parts(items@) =~= head + agents.take(i + 1));
        i += 1;
    }
    assert(agents.take(i as int) =~= agents);
    assert(item_parts(items@) =~= start + tab_entries(workspace@, *tab));
}

/// Every workspace, tab, and agent pane as a flat list. Tabs and panes carry a
/// breadcrumb so that a search hits the deepest match.
pub fn goto_items(layout: &LayoutSnapshot) -> (r: Vec<PickerItem>)
    ensures
        item_parts(r@) == goto_entries(layout.workspaces@, layout.workspaces@.len() as int),
{
    let mut items: Vec<PickerItem> = Vec::new();
    let mut i: usize = 0;
    assert(item_parts(items@) =~= Seq::empty());
    while i < layout.workspaces.len()
        invariant
            i <= layout.workspaces@.len(),
            item_parts(items@) == goto_entries(layout.workspaces@, i as int),
        decreases layout.workspaces@.len() - i,
    {
        let workspace = &layout.workspaces[i];
        let ghost start = item_parts(items@);
        push_item(
            &mut items,
            workspace.name.clone(),
            "workspace",
            workspace.state,
            PickTarget::Workspace(workspace.id),
        );
        let ghost head = start + seq![
            (
                workspace.name@,
                "workspace"@,
                workspace.state,
                PickTarget::Workspace(workspace.id),
            ),
        ];
        assert(item_parts(items@) =~= head + tabs_entries(workspace.name@, workspace.tabs@, 0));
        let mut k: usize = 0;
        while k < workspace.tabs.len()
            invariant
                k <= workspace.tabs@.len(),
                item_parts(items@) == head + tabs_entries(
                    workspace.name@,
                    workspace.tabs@,
                    k as int,
                ),
            decreases workspace.tabs@.len() - k,
        {
            push_tab(&mut items, workspace.name.as_str(), &workspace.tabs[k]);
            assert(item_parts(items@) =~= head + tabs_entries(
                workspace.name@,
                workspace.tabs@,
                k + 1,
            ));
            k += 1;
        }
        i += 1;
    }
    items
}

// ---------------------------------------------------------------------- scoring

/// Whether a match at `index` starts a word.
pub open spec fn starts_word(hay: Seq<char>, index: int) -> bool {
    index == 0 || hay[index - 1] == ' ' || hay[index - 1] == '›' || hay[index - 1] == '·'
        || hay[index - 1] == '/' || hay[index - 1] == '-' || hay[index - 1] == '_'
        || hay[index - 1] == '.'
}

/// The points for the rest of the needle, taken greedily from `index` on: one
/// for each character, three more at a word start, two more right after
/// another match.
pub open spec fn points(
    hay: Seq<char>,
    needle: Seq<char>,
    index: int,
    next: int,
    contiguous: bool,
) -> Option<nat>
    decreases hay.len() - index,
{
    if index >= hay.len() {
        if next == needle.len() {
            Some(0)
        } else {
            None
        }
    } else if next < needle.len() && hay[index] == needle[next] {
        let gain: nat = 1 + (if starts_word(hay, index) {
            3nat
        } else {
            0
        }) + (if contiguous {
            2nat
        } else {
            0
        });
        match points(hay, needle, index + 1, next + 1, true) {
            Some(rest) => Some(gain + rest),
            None => None,
        }
    } else {
        points(hay, needle, index + 1, next, false)
    }
}

/// The score of a text for a query, compared in lower case. An empty query
/// matches everything with score zero.
pub open spec fn score_of(query: Seq<char>, text: Seq<char>) -> Option<u32> {
    if query.len() == 0 || text::lowercase(query).len() == 0 {
        Some(0)
    } else {
        match points(text::lowercase(text), text::lowercase(query), 0, 0, false) {
            Some(n) => Some(
                if n > u32::MAX {
                    u32::MAX
                } else {
                    n as u32
                },
            ),
            None => None,
        }
    }
}

/// Case-insensitive subsequence score, or `None` when `query` is not a
/// subsequence of `text`. Tighter, word-aligned matches score higher. A score
/// stops growing at the largest number it can say.
pub fn fuzzy_score(query: &str, text: &str) -> (r: Option<u32>)
    ensures
        r == score_of(query@, text@),
{
    if query.is_empty() {
        return Some(0);
    }
    let needle = text::chars_of(query.to_lowercase().as_str());
    if needle.len() == 0 {
        return Some(0);
    }
    let hay = text::chars_of(text.to_lowercase().as_str());
    let mut score: u32 = 0;
    let mut next: usize = 0;
    let mut contiguous = false;
    let mut index: usize = 0;
    let ghost mut total: nat = 0;
    while index < hay.len()
        invariant
            index <= hay@.len(),
            next <= needle@.len(),
            score == (if total > u32::MAX {
                u32::MAX as nat
            } else {
                total
            }),
            points(hay@, needle@, 0, 0, false) == (match points(
                hay@,
                needle@,
                index as int,
                next as int,
                contiguous,
            ) {
                Some(rest) => Some(total + rest),
                None => None::<nat>,
            }),
        decreases hay@.len() - index,
    {
        if next < needle.len() && hay[index] == needle[next] {
            let word_start = index == 0 || is_separator(hay[index - 1]);
            let mut gain: u32 = 1;
            if word_start {
                gain += 3;
            }
            if contiguous {
                gain += 2;
            }
            score = score.saturating_add(gain);
            proof {
                total = total + gain as nat;
            }
            contiguous = true;
            next += 1;
        } else {
            contiguous = false;
        }
        index += 1;
    }
    if next == needle.len() {
        Some(score)
    } else {
        None
    }
}

fn is_separator(c: char) -> (r: bool)
    ensures
        r == (c == ' ' || c == '›' || c == '·' || c == '/' || c == '-' || c == '_' || c == '.'),
{
    c == ' ' || c == '›' || c == '·' || c == '/' || c == '-' || c == '_' || c == '.'
}

/// Whether the characters of `needle` occur in `hay` in order.
pub open spec fn subsequence(needle: Seq<char>, hay: Seq<char>) -> bool
    decreases hay.len(),
{
    if needle.len() == 0 {
        true
    } else if hay.len() == 0 {
        false
    } else {
        (needle[0] == hay[0] && subsequence(needle.skip(1), hay.skip(1))) || subsequence(
            needle,
            hay.skip(1),
        )
    }
}

proof fn lemma_subsequence_tail(needle: Seq<char>, hay: Seq<char>)
    requires
        needle.len() > 0,
        subsequence(needle, hay),
    ensures
        subsequence(needle.skip(1), hay),
    decreases hay.len(),
{
    if needle.len() > 1 {
        if needle[0] == hay[0] && subsequence(needle.skip(1), hay.skip(1)) {
        } else {
            lemma_subsequence_tail(needle, hay.skip(1));
        }
    }
}

proof fn lemma_points_subsequence(
    hay: Seq<char>,
    needle: Seq<char>,
    index: int,
    next: int,
    contiguous: bool,
)
    requires
        0 <= index <= hay.len(),
        0 <= next <= needle.len(),
    ensures
        points(hay, needle, index, next, contiguous) is Some <==> subsequence(
            needle.skip(next),
            hay.skip(index),
        ),
    decreases hay.len() - index,
{
    let rest = needle.skip(next);
    let here = hay.skip(index);
    if index < hay.len() {
        assert(here[0] == hay[index]);
        assert(here.skip(1) =~= hay.skip(index + 1));
        if next < needle.len() {
            assert(rest[0] == needle[next]);
            assert(rest.skip(1) =~= needle.skip(next + 1));
            if hay[index] == needle[next] {
                lemma_points_subsequence(hay, needle, index + 1, next + 1, true);
                if subsequence(rest, here.skip(1)) {
                    lemma_subsequence_tail(rest, here.skip(1));
                }
            } else {
                lemma_points_subsequence(hay, needle, index + 1, next, false);
            }
        } else {
            lemma_points_subsequence(hay, needle, index + 1, next, false);
        }
    }
}

/// A text matches a query exactly when the query's characters occur in it in
/// order, compared in lower case; an empty query matches everything with score
/// zero.
pub proof fn law_matches_are_subsequences(query: Seq<char>, text: Seq<char>)
    ensures
        query.len() == 0 ==> score_of(query, text) == Some(0u32),
        query.len() > 0 ==> (score_of(query, text) is Some <==> subsequence(
            text::lowercase(query),
            text::lowercase(text),
        )),
{
    let needle = text::lowercase(query);
    let hay = text::lowercase(text);
    lemma_points_subsequence(hay, needle, 0, 0, false);
    assert(needle.skip(0) =~= needle);
    assert(hay.skip(0) =~= hay);
}

// -------------------------------------------------------------------- filtering

/// The ranks of the matching entries among the first `count`: blocked ones in
/// front, higher scores first.
pub open spec fn match_ranks(items: Seq<PickerItem>, query: Seq<char>, count: int) -> Seq<Rank>
    decreases count,
{
    if count <= 0 {
        Seq::empty()
    } else {
        let item = items[count - 1];
        let before = match_ranks(items, query, count - 1);
        match score_of(query, item.label@) {
            Some(score) => before.push(
                Rank {
                    group: if item.state == AgentStateKind::Blocked {
                        0
                    } else {
                        1
                    },
                    weight: score as u64,
                    index: (count - 1) as usize,
                },
            ),
            None => before,
        }
    }
}

/// The matching entries, blocked first, then by score, then as they were.
pub open spec fn filtered(items: Seq<PickerItem>, query: Seq<char>) -> Seq<PickerItem> {
    rank::sort(match_ranks(items, query, items.len() as int)).map_values(
        |r: Rank| items[r.index as int],
    )
}

/// Entries matching `query`, in order.
pub fn filter(items: &Vec<PickerItem>, query: &str) -> (r: Vec<PickerItem>)
    ensures
        r@ == filtered(items@, query@),
{
    let mut ranks: Vec<Rank> = Vec::new();
    let mut i: usize = 0;
    while i < items.len()
        invariant
            i <= items@.len(),
            ranks@ == match_ranks(items@, query@, i as int),
            forall|k: int| 0 <= k < ranks@.len() ==> (#[trigger] ranks@[k]).index < i,
        decreases items@.len() - i,
    {
        if let Some(score) = fuzzy_score(query, items[i].label.as_str()) {
            let group: u64 = if items[i].state == AgentStateKind::Blocked {
                0
            } else {
                1
            };
            ranks.push(Rank { group, weight: score as u64, index: i });
        }
        i += 1;
    }
    let order = rank::sorted(&ranks);
    proof {
        lemma_sorted_in_range(ranks@, items@.len() as int);
    }
    let mut out: Vec<PickerItem> = Vec::new();
    let mut k: usize = 0;
    let ghost all = filtered(items@, query@);
    while k < order.len()
        invariant
            k <= order@.len(),
            order@.len() == all.len(),
            forall|j: int| 0 <= j < order@.len() ==> (#[trigger] order@[j]).index < items@.len(),
            forall|j: int|
                0 <= j < order@.len() ==> all[j] == items@[(#[trigger] order@[j]).index as int],
            out@ == all.take(k as int),
        decreases order@.len() - k,
    {
        out.push(items[order[k].index].clone());
        assert(all.take(k + 1) =~= all.take(k as int).push(all[k as int]));
        k += 1;
    }
    assert(all.take(k as int) =~= all);
    out
}

/// Sorting keeps every rank's index in range.
pub proof fn lemma_sorted_in_range(ranks: Seq<Rank>, bound: int)
    requires
        forall|k: int| 0 <= k < ranks.len() ==> (#[trigger] ranks[k]).index < bound,
    ensures
        forall|k: int|
            0 <= k < rank::sort(ranks).len() ==> (#[trigger] rank::sort(ranks)[k]).index < bound,
{
    broadcast use vstd::seq_lib::group_to_multiset_ensures;

    rank::law_sort_orders_the_same_entries(ranks);
    let order = rank::sort(ranks);
    assert forall|k: int| 0 <= k < order.len() implies (#[trigger] order[k]).index < bound by {
        assert(order.contains(order[k]));
        assert(order.to_multiset().count(order[k]) > 0);
        assert(ranks.to_multiset().count(order[k]) > 0);
        assert(ranks.contains(order[k]));
    }
}

/// Blocked entries come before all others.
pub proof fn law_blocked_entries_lead(items: Seq<PickerItem>, query: Seq<char>, i: int, j: int)
    requires
        items.len() <= usize::MAX,
        0 <= i < j < filtered(items, query).len(),
        filtered(items, query)[j].state == AgentStateKind::Blocked,
    ensures
        filtered(items, query)[i].state == AgentStateKind::Blocked,
{
    let ranks = match_ranks(items, query, items.len() as int);
    rank::law_sort_orders_the_same_entries(ranks);
    lemma_rank_groups(items, query, items.len() as int);
    lemma_sorted_from(ranks, i);
    lemma_sorted_from(ranks, j);
    let order = rank::sort(ranks);
    assert(!rank::above(order[j], order[i]));
}

/// A sorted rank is one of the ranks.
proof fn lemma_sorted_from(ranks: Seq<Rank>, k: int)
    requires
        0 <= k < rank::sort(ranks).len(),
    ensures
        ranks.contains(rank::sort(ranks)[k]),
{
    broadcast use vstd::seq_lib::group_to_multiset_ensures;

    rank::law_sort_orders_the_same_entries(ranks);
    let order = rank::sort(ranks);
    assert(order.contains(order[k]));
    assert(order.to_multiset().count(order[k]) > 0);
    assert(ranks.to_multiset().count(order[k]) > 0);
}

proof fn lemma_rank_groups(items: Seq<PickerItem>, query: Seq<char>, count: int)
    requires
        0 <= count <= items.len() <= usize::MAX,
    ensures
        forall|k: int|
            0 <= k < match_ranks(items, query, count).len() ==> {
                let r = #[trigger] match_ranks(items, query, count)[k];
                r.index < count && (r.group == 0 || r.group == 1) && (r.group == 0
                    <==> items[r.index as int].state == AgentStateKind::Blocked)
            },
    decreases count,
{
    if count > 0 {
        lemma_rank_groups(items, query, count - 1);
    }
}

/// An empty query keeps every entry.
pub proof fn law_empty_query_keeps_everything(items: Seq<PickerItem>)
    ensures
        filtered(items, Seq::empty()).len() == items.len(),
{
    lemma_all_match(items, items.len() as int);
    rank::law_sort_orders_the_same_entries(
        match_ranks(items, Seq::empty(), items.len() as int),
    );
}

proof fn lemma_all_match(items: Seq<PickerItem>, count: int)
    requires
        0 <= count <= items.len(),
    ensures
        match_ranks(items, Seq::empty(), count).len() == count,
    decreases count,
{
    if count > 0 {
        lemma_all_match(items, count - 1);
    }
}

// ----------------------------------------------------------------------- picker

/// A picker overlay plus the entries behind it, so that filtering can rebuild
/// the visible rows and map a selection back to its target and state.
pub struct Picker {
    pub all: Vec<PickerItem>,
    /// Entries behind the current rows, aligned with `overlay.rows`.
    pub visible: Vec<PickerItem>,
    pub overlay: Overlay,
}

/// The row of an entry: its label, its detail, its target.
pub open spec fn row_for(item: PickerItem) -> (Seq<char>, Seq<char>, OverlayTarget) {
    (item.label@, item.detail@, item.target.as_overlay())
}

pub open spec fn rows_for(items: Seq<PickerItem>) -> Seq<(Seq<char>, Seq<char>, OverlayTarget)> {
    items.map_values(|item: PickerItem| row_for(item))
}

fn row_of(item: &PickerItem) -> (r: OverlayRow)
    ensures
        r.parts() == row_for(*item),
{
    OverlayRow::new(item.label.clone(), item.detail.clone(), item.target.overlay_target())
}

fn rows_of(items: &Vec<PickerItem>) -> (r: Vec<OverlayRow>)
    ensures
        overlay::row_parts(r@) == rows_for(items@),
{
    let mut rows: Vec<OverlayRow> = Vec::new();
    let mut i: usize = 0;
    while i < items.len()
        invariant
            i <= items@.len(),
            overlay::row_parts(rows@) == rows_for(items@).take(i as int),
        decreases items@.len() - i,
    {
        let row = row_of(&items[i]);
        let ghost before = overlay::row_parts(rows@);
        let ghost parts = row.parts();
        rows.push(row);
        assert(overlay::row_parts(rows@) =~= before.push(parts));
        assert(rows_for(items@).take(i + 1) =~= rows_for(items@).take(i as int).push(
            rows_for(items@)[i as int],
        ));
        i += 1;
    }
    assert(rows_for(items@).take(i as int) =~= rows_for(items@));
    rows
}

impl Picker {
    /// The rows show the visible entries.
    pub open spec fn aligned(self) -> bool {
        overlay::row_parts(self.overlay.rows@) == rows_for(self.visible@)
    }

    /// Builds a picker over `items`, filter box open and empty.
    pub fn new(title: &str, items: Vec<PickerItem>) -> (r: Self)
        ensures
            r.all == items,
            r.visible@ == filtered(items@, Seq::empty()),
            r.aligned(),
            r.overlay.title@ == title@,
            text::option_text(r.overlay.filter) == Some(Seq::<char>::empty()),
            r.overlay.selected == 0,
    {
        let empty = String::new();
        let visible = filter(&items, empty.as_str());
        let rows = rows_of(&visible);
        let mut overlay = Overlay::new(title, rows);
        overlay.filter = Some(String::new());
        Picker { all: items, visible, overlay }
    }

    /// Rebuilds the visible rows from the filter text, keeping the selection in
    /// range.
    pub fn apply_filter(&mut self)
        ensures
            final(self).all == old(self).all,
            final(self).visible@ == filtered(
                old(self).all@,
                match old(self).overlay.filter {
                    Some(query) => query@,
                    None => Seq::empty(),
                },
            ),
            final(self).aligned(),
            final(self).overlay.title == old(self).overlay.title,
            final(self).overlay.filter == old(self).overlay.filter,
            final(self).overlay.selected == crate::num::min(
                old(self).overlay.selected as int,
                crate::num::max(final(self).visible@.len() - 1, 0),
            ),
    {
        let empty = String::new();
        let visible = match &self.overlay.filter {
            Some(query) => filter(&self.all, query.as_str()),
            None => filter(&self.all, empty.as_str()),
        };
        let rows = rows_of(&visible);
        assert(rows@.len() == visible@.len()) by {
            assert(overlay::row_parts(rows@).len() == rows_for(visible@).len());
        }
        let last: usize = rows.len().saturating_sub(1);
        self.visible = visible;
        self.overlay.rows = rows;
        if self.overlay.selected > last {
            self.overlay.selected = last;
        }
    }

    /// The target behind the highlighted row, if any.
    pub fn current_target(&self) -> (r: Option<PickTarget>)
        ensures
            r == (if self.overlay.selected < self.visible@.len() {
                Some(self.visible@[self.overlay.selected as int].target)
            } else {
                None
            }),
    {
        if self.overlay.selected < self.visible.len() {
            Some(self.visible[self.overlay.selected].target)
        } else {
            None
        }
    }

    /// State of the row at `index`, for coloring its dot.
    pub fn state_at(&self, index: usize) -> (r: AgentStateKind)
        ensures
            r == (if index < self.visible@.len() {
                self.visible@[index as int].state
            } else {
                AgentStateKind::Unknown
            }),
    {
        if index < self.visible.len() {
            self.visible[index].state
        } else {
            AgentStateKind::Unknown
        }
    }
}

} // verus!
