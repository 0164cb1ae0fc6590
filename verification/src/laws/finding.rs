//! Looking things up: what is found is what was asked for, and nothing is missed.

use vstd::prelude::*;

use crate::geometry::Rect;
use crate::input::{self, TabSpan};
use crate::layout;
use crate::proto::{
    AgentInfo, Direction, PaneId, PaneSnapshot, SidebarTabInfo, TabId, WorkspaceId,
    WorkspaceInfo,
};

verus! {

/// A cell hits a pane exactly when the pane's rectangle holds it.
pub proof fn law_panes_are_hit_where_they_are(rects: Seq<(PaneId, Rect)>, column: int, row: int)
    ensures
        input::pane_under(rects, column, row) is Some <==> exists|i: int|
            0 <= i < rects.len() && (#[trigger] rects[i]).1.has_cell(column, row),
        input::pane_under(rects, column, row) matches Some(id) ==> exists|i: int|
            0 <= i < rects.len() && (#[trigger] rects[i]).0 == id && rects[i].1.has_cell(
                column,
                row,
            ),
    decreases rects.len(),
{
    if rects.len() > 0 {
        if rects[0].1.has_cell(column, row) {
            assert(rects[0].0 == input::pane_under(rects, column, row)->0);
        } else {
            let rest = rects.skip(1);
            law_panes_are_hit_where_they_are(rest, column, row);
            if let Some(id) = input::pane_under(rest, column, row) {
                let i = choose|i: int|
                    0 <= i < rest.len() && (#[trigger] rest[i]).0 == id && rest[i].1.has_cell(
                        column,
                        row,
                    );
                assert(rects[i + 1] == rest[i]);
            } else if exists|i: int|
                0 <= i < rects.len() && (#[trigger] rects[i]).1.has_cell(column, row) {
                let i = choose|i: int|
                    0 <= i < rects.len() && (#[trigger] rects[i]).1.has_cell(column, row);
                assert(rest[i - 1] == rects[i]);
            }
        }
    }
}

/// A rectangle holds the cells from its corner on, as many as its width and height say.
pub proof fn law_rectangles_hold_their_cells(rect: Rect, column: int, row: int)
    requires
        rect.x + rect.width <= u16::MAX,
        rect.y + rect.height <= u16::MAX,
    ensures
        rect.has_cell(column, row) <==> 0 <= column - rect.x < rect.width && 0 <= row - rect.y
            < rect.height,
        rect.width >= 2 && rect.height >= 2 ==> (rect.inside().has_cell(column, row) <==> 1
            <= column - rect.x < rect.width - 1 && 1 <= row - rect.y < rect.height - 1),
{
}

/// Two rectangles share an edge, upright or level, and a cell lies on it or right beside
/// it, along the part that both have.
pub open spec fn touching(a: Rect, b: Rect, column: int, row: int) -> bool {
    ||| a.right_edge() == b.x && -1 <= column - b.x <= 1 && a.y <= row < a.bottom_edge() && b.y
        <= row < b.bottom_edge()
    ||| a.bottom_edge() == b.y && -1 <= row - b.y <= 1 && a.x <= column < a.right_edge() && b.x
        <= column < b.right_edge()
}

proof fn lemma_pair(first: (PaneId, Rect), second: (PaneId, Rect), column: int, row: int)
    ensures
        input::pair_border(first, second, column, row) is Some <==> touching(
            first.1,
            second.1,
            column,
            row,
        ) || touching(second.1, first.1, column, row),
        input::pair_border(first, second, column, row) matches Some(hit) ==> (hit.pane == first.0
            && bordered(hit.vertical, hit.direction, first.1, second.1)) || (hit.pane == second.0
            && bordered(hit.vertical, hit.direction, second.1, first.1)),
{
}

/// The border belongs to the pane left of it or above it.
pub open spec fn bordered(vertical: bool, direction: Direction, pane: Rect, other: Rect) -> bool {
    if vertical {
        direction == Direction::Left && pane.right_edge() == other.x
    } else {
        direction == Direction::Up && pane.bottom_edge() == other.y
    }
}

proof fn lemma_borders(rects: Seq<(PaneId, Rect)>, i: int, j: int, column: int, row: int)
    requires
        0 <= i,
        i < j,
    ensures
        ({
            let hit = input::border_from(rects, i, j, column, row);
            &&& hit is Some ==> exists|a: int, b: int|
                #![trigger rects[a], rects[b]]
                0 <= a < rects.len() && 0 <= b < rects.len() && a != b && touching(
                    rects[a].1,
                    rects[b].1,
                    column,
                    row,
                ) && (hit->0.pane == rects[a].0 || hit->0.pane == rects[b].0)
            &&& hit is None ==> forall|a: int, b: int|
                #![trigger rects[a], rects[b]]
                (a > i || (a == i && b >= j)) && a < b < rects.len() ==> !touching(
                    rects[a].1,
                    rects[b].1,
                    column,
                    row,
                ) && !touching(rects[b].1, rects[a].1, column, row)
        }),
    decreases rects.len() - i, rects.len() - j,
{
    if i < rects.len() {
        if j >= rects.len() {
            lemma_borders(rects, i + 1, i + 2, column, row);
        } else {
            lemma_pair(rects[i], rects[j], column, row);
            if input::pair_border(rects[i], rects[j], column, row) is None {
                lemma_borders(rects, i, j + 1, column, row);
            }
        }
    }
}

/// A border is hit exactly where two panes meet: on their common edge or right beside
/// it. The pane that is named is one of the two.
pub proof fn law_borders_lie_between_panes(rects: Seq<(PaneId, Rect)>, column: int, row: int)
    ensures
        ({
            let hit = input::border_from(rects, 0, 1, column, row);
            &&& hit is Some ==> exists|a: int, b: int|
                #![trigger rects[a], rects[b]]
                0 <= a < rects.len() && 0 <= b < rects.len() && a != b && touching(
                    rects[a].1,
                    rects[b].1,
                    column,
                    row,
                ) && (hit->0.pane == rects[a].0 || hit->0.pane == rects[b].0)
            &&& hit is None ==> forall|a: int, b: int|
                #![trigger rects[a], rects[b]]
                0 <= a < rects.len() && 0 <= b < rects.len() && a != b ==> !touching(
                    rects[a].1,
                    rects[b].1,
                    column,
                    row,
                )
        }),
{
    lemma_borders(rects, 0, 1, column, row);
}

/// The border between two panes side by side belongs to the left one and is upright; that
/// between two panes one above the other belongs to the upper one and is level.
pub proof fn law_borders_belong_to_the_first_pane(
    first: (PaneId, Rect),
    second: (PaneId, Rect),
    column: int,
    row: int,
)
    requires
        first.1.width > 0,
        first.1.height > 0,
        second.1.width > 0,
        second.1.height > 0,
        first.1.fits(),
        second.1.fits(),
    ensures
        input::pair_border(first, second, column, row) matches Some(hit) ==> {
            &&& hit.vertical && hit.pane == first.0 && first.0 != second.0 ==> first.1.right_edge()
                == second.1.x && hit.direction == Direction::Left
            &&& hit.vertical && hit.pane == second.0 && first.0 != second.0
                ==> second.1.right_edge() == first.1.x && hit.direction == Direction::Left
            &&& !hit.vertical && hit.pane == first.0 && first.0 != second.0
                ==> first.1.bottom_edge() == second.1.y && hit.direction == Direction::Up
            &&& !hit.vertical && hit.pane == second.0 && first.0 != second.0
                ==> second.1.bottom_edge() == first.1.y && hit.direction == Direction::Up
        },
{
}

/// A column hits a tab exactly when a span of that tab holds it.
pub proof fn law_tabs_are_hit_where_they_are(spans: Seq<TabSpan>, column: int)
    ensures
        input::tab_under(spans, column) is Some <==> exists|i: int|
            0 <= i < spans.len() && (#[trigger] spans[i]).start <= column < spans[i].end,
        input::tab_under(spans, column) matches Some(id) ==> exists|i: int|
            0 <= i < spans.len() && (#[trigger] spans[i]).id == id && spans[i].start <= column
                < spans[i].end,
    decreases spans.len(),
{
    if spans.len() > 0 {
        if spans[0].start <= column < spans[0].end {
            assert(spans[0].id == input::tab_under(spans, column)->0);
        } else {
            let rest = spans.skip(1);
            law_tabs_are_hit_where_they_are(rest, column);
            if let Some(id) = input::tab_under(rest, column) {
                let i = choose|i: int|
                    0 <= i < rest.len() && (#[trigger] rest[i]).id == id && rest[i].start
                        <= column < rest[i].end;
                assert(spans[i + 1] == rest[i]);
            } else if exists|i: int|
                0 <= i < spans.len() && (#[trigger] spans[i]).start <= column < spans[i].end {
                let i = choose|i: int|
                    0 <= i < spans.len() && (#[trigger] spans[i]).start <= column < spans[i].end;
                assert(rest[i - 1] == spans[i]);
            }
        }
    }
}

/// The workspace that is looked up has the id, and is found wherever there is one.
pub proof fn law_workspaces_are_found(list: Seq<WorkspaceInfo>, id: WorkspaceId)
    ensures
        layout::workspace_with(list, id) matches Some(found) ==> found.id == id && list.contains(
            found,
        ),
        layout::workspace_with(list, id) is None ==> forall|i: int|
            0 <= i < list.len() ==> (#[trigger] list[i]).id != id,
    decreases list.len(),
{
    if list.len() > 0 {
        if list[0].id == id {
            assert(list.contains(list[0]));
        } else {
            let rest = list.skip(1);
            law_workspaces_are_found(rest, id);
            if let Some(found) = layout::workspace_with(rest, id) {
                assert(list[rest.index_of(found) + 1] == found);
            } else {
                assert forall|i: int| 0 <= i < list.len() implies (#[trigger] list[i]).id != id by {
                    if i > 0 {
                        assert(rest[i - 1] == list[i]);
                    }
                }
            }
        }
    }
}

/// The tab that is looked up has the id, and is found wherever there is one.
pub proof fn law_tabs_are_found(list: Seq<SidebarTabInfo>, id: TabId)
    ensures
        layout::tab_with(list, id) matches Some(found) ==> found.id == id && list.contains(found),
        layout::tab_with(list, id) is None ==> forall|i: int|
            0 <= i < list.len() ==> (#[trigger] list[i]).id != id,
    decreases list.len(),
{
    if list.len() > 0 {
        if list[0].id == id {
            assert(list.contains(list[0]));
        } else {
            let rest = list.skip(1);
            law_tabs_are_found(rest, id);
            if let Some(found) = layout::tab_with(rest, id) {
                assert(list[rest.index_of(found) + 1] == found);
            } else {
                assert forall|i: int| 0 <= i < list.len() implies (#[trigger] list[i]).id != id by {
                    if i > 0 {
                        assert(rest[i - 1] == list[i]);
                    }
                }
            }
        }
    }
}

/// The agent that is looked up is in the pane, and is found wherever there is one.
pub proof fn law_agents_are_found(list: Seq<AgentInfo>, pane: PaneId)
    ensures
        layout::agent_in(list, pane) matches Some(found) ==> found.pane == pane && list.contains(
            found,
        ),
        layout::agent_in(list, pane) is None ==> forall|i: int|
            0 <= i < list.len() ==> (#[trigger] list[i]).pane != pane,
    decreases list.len(),
{
    if list.len() > 0 {
        if list[0].pane == pane {
            assert(list.contains(list[0]));
        } else {
            let rest = list.skip(1);
            law_agents_are_found(rest, pane);
            if let Some(found) = layout::agent_in(rest, pane) {
                assert(list[rest.index_of(found) + 1] == found);
            } else {
                assert forall|i: int| 0 <= i < list.len() implies (#[trigger] list[i]).pane
                    != pane by {
                    if i > 0 {
                        assert(rest[i - 1] == list[i]);
                    }
                }
            }
        }
    }
}

/// The pane that is looked up has the id, and is found wherever there is one.
pub proof fn law_panes_are_found(list: Seq<PaneSnapshot>, id: PaneId)
    ensures
        layout::pane_with(list, id) matches Some(found) ==> found.id == id && list.contains(found),
        layout::pane_with(list, id) is None ==> forall|i: int|
            0 <= i < list.len() ==> (#[trigger] list[i]).id != id,
    decreases list.len(),
{
    if list.len() > 0 {
        if list[0].id == id {
            assert(list.contains(list[0]));
        } else {
            let rest = list.skip(1);
            law_panes_are_found(rest, id);
            if let Some(found) = layout::pane_with(rest, id) {
                assert(list[rest.index_of(found) + 1] == found);
            } else {
                assert forall|i: int| 0 <= i < list.len() implies (#[trigger] list[i]).id != id by {
                    if i > 0 {
                        assert(rest[i - 1] == list[i]);
                    }
                }
            }
        }
    }
}

/// The pane in focus is focused, and there is none only where none is.
pub proof fn law_the_focus_is_found(list: Seq<PaneSnapshot>)
    ensures
        layout::pane_in_focus(list) matches Some(found) ==> found.focused && list.contains(found),
        layout::pane_in_focus(list) is None ==> forall|i: int|
            0 <= i < list.len() ==> !(#[trigger] list[i]).focused,
    decreases list.len(),
{
    if list.len() > 0 {
        if list[0].focused {
            assert(list.contains(list[0]));
        } else {
            let rest = list.skip(1);
            law_the_focus_is_found(rest);
            if let Some(found) = layout::pane_in_focus(rest) {
                assert(list[rest.index_of(found) + 1] == found);
            } else {
                assert forall|i: int| 0 <= i < list.len() implies !(
                #[trigger] list[i]).focused by {
                    if i > 0 {
                        assert(rest[i - 1] == list[i]);
                    }
                }
            }
        }
    }
}

/// The workspace in use is active, and there is none only where none is.
pub proof fn law_the_workspace_in_use_is_found(list: Seq<WorkspaceInfo>)
    ensures
        layout::workspace_in_use(list) matches Some(found) ==> found.active && list.contains(
            found,
        ),
        layout::workspace_in_use(list) is None ==> forall|i: int|
            0 <= i < list.len() ==> !(#[trigger] list[i]).active,
    decreases list.len(),
{
    if list.len() > 0 {
        if list[0].active {
            assert(list.contains(list[0]));
        } else {
            let rest = list.skip(1);
            law_the_workspace_in_use_is_found(rest);
            if let Some(found) = layout::workspace_in_use(rest) {
                assert(list[rest.index_of(found) + 1] == found);
            } else {
                assert forall|i: int| 0 <= i < list.len() implies !(#[trigger] list[i]).active by {
                    if i > 0 {
                        assert(rest[i - 1] == list[i]);
                    }
                }
            }
        }
    }
}

/// Each tab's label has its columns, as many as it is long, with one between neighbours.
pub proof fn law_labels_stand_side_by_side(start: u16, tabs: Seq<crate::proto::TabInfo>, t: int)
    requires
        0 <= t < tabs.len(),
    ensures
        ({
            let spans = input::spans_from(start, tabs);
            &&& spans.len() == tabs.len()
            &&& spans[t].id == tabs[t].id
            &&& spans[0].start == start
            &&& spans[t].end < u16::MAX && input::drawn_label(tabs[t]).len() <= u16::MAX
                ==> spans[t].end == spans[t].start + input::drawn_label(tabs[t]).len()
            &&& t > 0 && spans[t].start < u16::MAX ==> spans[t].start == spans[t - 1].end + 1
        }),
    decreases tabs.len(),
{
    let rest = tabs.skip(1);
    let spans = input::spans_from(start, tabs);
    if rest.len() > 0 {
        let next = spans[1].start;
        let after = input::spans_from(
            crate::num::min(spans[0].end + 1, u16::MAX as int) as u16,
            rest,
        );
        law_labels_stand_side_by_side(
            crate::num::min(spans[0].end + 1, u16::MAX as int) as u16,
            rest,
            if t > 0 {
                t - 1
            } else {
                0
            },
        );
        assert(spans =~= seq![spans[0]] + after);
        if t > 0 {
            assert(spans[t] == after[t - 1]);
            assert(rest[t - 1] == tabs[t]);
            if t > 1 {
                assert(spans[t - 1] == after[t - 2]);
            }
        }
    } else {
        assert(input::spans_from(
            crate::num::min(spans[0].end + 1, u16::MAX as int) as u16,
            rest,
        ).len() == 0);
    }
}

} // verus!
