//! Hit testing of tabs, panes and pane borders.

use vstd::prelude::*;

use crate::geometry::Rect;
use crate::num;
use crate::proto::{Direction, PaneId, TabId, TabInfo};
use crate::render;

verus! {

#[derive(Debug, Clone, Copy, PartialEq, Eq, Structural)]
pub struct TabSpan {
    pub id: TabId,
    pub start: u16,
    pub end: u16,
}

#[derive(Debug, Clone, Copy, PartialEq, Eq, Structural)]
pub struct DragBorder {
    pub pane: PaneId,
    pub direction: Direction,
    pub vertical: bool,
}

/// The label of a tab as it is drawn.
pub open spec fn drawn_label(tab: TabInfo) -> Seq<char> {
    render::tab_text(tab.name@, tab.active, tab.state)
}

/// The columns of each tab label, with one column between neighbours.
pub open spec fn spans_from(start: u16, tabs: Seq<TabInfo>) -> Seq<TabSpan>
    decreases tabs.len(),
{
    if tabs.len() == 0 {
        Seq::empty()
    } else {
        let width = drawn_label(tabs[0]).len() as u16;
        let end = num::min(start + width, u16::MAX as int) as u16;
        let next = num::min(end + 1, u16::MAX as int) as u16;
        seq![TabSpan { id: tabs[0].id, start, end }] + spans_from(next, tabs.skip(1))
    }
}

pub fn tab_spans(start: u16, tabs: &[TabInfo]) -> (r: Vec<TabSpan>)
    ensures
        r@ == spans_from(start, tabs@),
{
    let mut out: Vec<TabSpan> = Vec::new();
    let mut column: u16 = start;
    let mut i: usize = 0;
    assert(tabs@.skip(0) =~= tabs@);
    while i < tabs.len()
        invariant
            i <= tabs@.len(),
            out@ + spans_from(column, tabs@.skip(i as int)) == spans_from(start, tabs@),
        decreases tabs@.len() - i,
    {
        let tab = &tabs[i];
        let label = render::tab_label(tab.name.as_str(), tab.active, tab.state);
        let width: u16 = label.as_str().unicode_len() as u16;
        let end: u16 = column.saturating_add(width);
        let ghost before = out@;
        let ghost column0 = column;
        out.push(TabSpan { id: tab.id, start: column, end });
        column = end.saturating_add(1);
        assert(tabs@.skip(i as int)[0] == tabs@[i as int]);
        assert(tabs@.skip(i as int).skip(1) =~= tabs@.skip(i + 1));
        assert(out@ + spans_from(column, tabs@.skip(i + 1)) =~= before + spans_from(
            column0,
            tabs@.skip(i as int),
        ));
        i += 1;
    }
    assert(tabs@.skip(i as int) =~= Seq::<TabInfo>::empty());
    assert(out@ + spans_from(column, tabs@.skip(i as int)) =~= out@);
    out
}

/// The tab whose span holds a column, the first where several do.
pub open spec fn tab_under(spans: Seq<TabSpan>, column: int) -> Option<TabId>
    decreases spans.len(),
{
    if spans.len() == 0 {
        None
    } else if spans[0].start <= column < spans[0].end {
        Some(spans[0].id)
    } else {
        tab_under(spans.skip(1), column)
    }
}

pub fn tab_at(spans: &[TabSpan], column: u16) -> (r: Option<TabId>)
    ensures
        r == tab_under(spans@, column as int),
{
    let mut i: usize = 0;
    assert(spans@.skip(0) =~= spans@);
    while i < spans.len()
        invariant
            i <= spans@.len(),
            tab_under(spans@, column as int) == tab_under(spans@.skip(i as int), column as int),
        decreases spans@.len() - i,
    {
        assert(spans@.skip(i as int)[0] == spans@[i as int]);
        assert(spans@.skip(i as int).skip(1) =~= spans@.skip(i + 1));
        if spans[i].start <= column && column < spans[i].end {
            return Some(spans[i].id);
        }
        i += 1;
    }
    None
}

pub proof fn lemma_spans_start(start: u16, tabs: Seq<TabInfo>, i: int)
    requires
        0 <= i < spans_from(start, tabs).len(),
    ensures
        start <= spans_from(start, tabs)[i].start <= spans_from(start, tabs)[i].end,
    decreases tabs.len(),
{
    if i > 0 {
        let width = drawn_label(tabs[0]).len() as u16;
        let end = num::min(start + width, u16::MAX as int) as u16;
        let next = num::min(end + 1, u16::MAX as int) as u16;
        lemma_spans_start(next, tabs.skip(1), i - 1);
        assert(spans_from(start, tabs)[i] == spans_from(next, tabs.skip(1))[i - 1]);
    }
}

/// There is a span for every tab.
pub proof fn lemma_span_count(start: u16, tabs: Seq<TabInfo>)
    ensures
        spans_from(start, tabs).len() == tabs.len(),
    decreases tabs.len(),
{
    if tabs.len() > 0 {
        let width = drawn_label(tabs[0]).len() as u16;
        let end = num::min(start + width, u16::MAX as int) as u16;
        let next = num::min(end + 1, u16::MAX as int) as u16;
        lemma_span_count(next, tabs.skip(1));
    }
}

/// No span ends after the last one.
pub proof fn lemma_spans_end(start: u16, tabs: Seq<TabInfo>, i: int)
    requires
        0 <= i < spans_from(start, tabs).len(),
    ensures
        spans_from(start, tabs)[i].end <= spans_from(start, tabs).last().end,
    decreases tabs.len(),
{
    let width = drawn_label(tabs[0]).len() as u16;
    let end = num::min(start + width, u16::MAX as int) as u16;
    let next = num::min(end + 1, u16::MAX as int) as u16;
    let rest = spans_from(next, tabs.skip(1));
    let spans = spans_from(start, tabs);
    if rest.len() > 0 {
        assert(spans.last() == rest.last());
        if i > 0 {
            lemma_spans_end(next, tabs.skip(1), i - 1);
            assert(spans[i] == rest[i - 1]);
        } else {
            lemma_spans_start(next, tabs.skip(1), rest.len() - 1);
        }
    }
}

/// A column inside the span of a tab hits that tab and no other.
pub proof fn law_tab_hits_follow_spans(start: u16, tabs: Seq<TabInfo>, i: int, column: int)
    requires
        0 <= i < spans_from(start, tabs).len(),
        spans_from(start, tabs)[i].start <= column < spans_from(start, tabs)[i].end,
    ensures
        tab_under(spans_from(start, tabs), column) == Some(spans_from(start, tabs)[i].id),
    decreases tabs.len(),
{
    let spans = spans_from(start, tabs);
    let width = drawn_label(tabs[0]).len() as u16;
    let end = num::min(start + width, u16::MAX as int) as u16;
    let next = num::min(end + 1, u16::MAX as int) as u16;
    let rest = spans_from(next, tabs.skip(1));
    assert(spans.skip(1) =~= rest);
    if i > 0 {
        assert(spans[i] == rest[i - 1]);
        lemma_spans_start(next, tabs.skip(1), i - 1);
        assert(column >= end);
        law_tab_hits_follow_spans(next, tabs.skip(1), i - 1, column);
    }
}

/// The pane whose rectangle holds a cell, the first where several do.
pub open spec fn pane_under(rects: Seq<(PaneId, Rect)>, column: int, row: int) -> Option<PaneId>
    decreases rects.len(),
{
    if rects.len() == 0 {
        None
    } else if rects[0].1.has_cell(column, row) {
        Some(rects[0].0)
    } else {
        pane_under(rects.skip(1), column, row)
    }
}

pub fn pane_at(rects: &[(PaneId, Rect)], column: u16, row: u16) -> (r: Option<PaneId>)
    ensures
        r == pane_under(rects@, column as int, row as int),
{
    let mut i: usize = 0;
    assert(rects@.skip(0) =~= rects@);
    while i < rects.len()
        invariant
            i <= rects@.len(),
            pane_under(rects@, column as int, row as int) == pane_under(
                rects@.skip(i as int),
                column as int,
                row as int,
            ),
        decreases rects@.len() - i,
    {
        assert(rects@.skip(i as int)[0] == rects@[i as int]);
        assert(rects@.skip(i as int).skip(1) =~= rects@.skip(i + 1));
        if rects[i].1.contains(column, row) {
            return Some(rects[i].0);
        }
        i += 1;
    }
    None
}

/// Whether a point lies in both stretches.
pub open spec fn in_both(start: int, len: int, other_start: int, other_len: int, point: int) -> bool {
    &&& num::max(start, other_start) <= point
    &&& point < num::min(
        num::min(start + len, u16::MAX as int),
        num::min(other_start + other_len, u16::MAX as int),
    )
}

pub fn overlaps(start: u16, len: u16, other_start: u16, other_len: u16, point: u16) -> (r: bool)
    ensures
        r == in_both(
            start as int,
            len as int,
            other_start as int,
            other_len as int,
            point as int,
        ),
{
    let end: u16 = start.saturating_add(len);
    let other_end: u16 = other_start.saturating_add(other_len);
    point >= num::max_u16(start, other_start) && point < num::min_u16(end, other_end)
}

pub fn distance(a: u16, b: u16) -> (r: u16)
    ensures
        r == num::max(a as int, b as int) - num::min(a as int, b as int),
{
    num::max_u16(a, b) - num::min_u16(a, b)
}

pub open spec fn near(a: int, b: int) -> bool {
    -1 <= a - b <= 1
}

/// The right edge of `left` touches the left edge of `right`, and the cell is
/// on or beside that border.
pub open spec fn on_vertical_border(left: Rect, right: Rect, column: int, row: int) -> bool {
    &&& left.right_edge() == right.x
    &&& in_both(left.y as int, left.height as int, right.y as int, right.height as int, row)
    &&& near(column, right.x as int)
}

/// The lower edge of `upper` touches the upper edge of `lower`, and the cell is
/// on or beside that border.
pub open spec fn on_horizontal_border(upper: Rect, lower: Rect, column: int, row: int) -> bool {
    &&& upper.bottom_edge() == lower.y
    &&& in_both(upper.x as int, upper.width as int, lower.x as int, lower.width as int, column)
    &&& near(row, lower.y as int)
}

/// The border between two panes under a cell: vertical ones before horizontal
/// ones, the pane named is the one left of it or above it.
pub open spec fn pair_border(
    first: (PaneId, Rect),
    second: (PaneId, Rect),
    column: int,
    row: int,
) -> Option<DragBorder> {
    if on_vertical_border(first.1, second.1, column, row) {
        Some(DragBorder { pane: first.0, direction: Direction::Left, vertical: true })
    } else if on_vertical_border(second.1, first.1, column, row) {
        Some(DragBorder { pane: second.0, direction: Direction::Left, vertical: true })
    } else if on_horizontal_border(first.1, second.1, column, row) {
        Some(DragBorder { pane: first.0, direction: Direction::Up, vertical: false })
    } else if on_horizontal_border(second.1, first.1, column, row) {
        Some(DragBorder { pane: second.0, direction: Direction::Up, vertical: false })
    } else {
        None
    }
}

/// The first border between pane `i` and a pane from `j` on, or between two
/// panes after `i`.
pub open spec fn border_from(
    rects: Seq<(PaneId, Rect)>,
    i: int,
    j: int,
    column: int,
    row: int,
) -> Option<DragBorder>
    decreases rects.len() - i, rects.len() - j,
{
    if i < 0 || i >= rects.len() {
        None
    } else if j >= rects.len() {
        border_from(rects, i + 1, i + 2, column, row)
    } else if pair_border(rects[i], rects[j], column, row) is Some {
        pair_border(rects[i], rects[j], column, row)
    } else {
        border_from(rects, i, j + 1, column, row)
    }
}

fn border_between(
    first: &(PaneId, Rect),
    second: &(PaneId, Rect),
    column: u16,
    row: u16,
) -> (r: Option<DragBorder>)
    ensures
        r == pair_border(*first, *second, column as int, row as int),
{
    let (first_id, a) = *first;
    let (second_id, b) = *second;
    if a.right() == b.x && overlaps(a.y, a.height, b.y, b.height, row) && distance(column, b.x)
        <= 1 {
        return Some(DragBorder { pane: first_id, direction: Direction::Left, vertical: true });
    }
    if b.right() == a.x && overlaps(a.y, a.height, b.y, b.height, row) && distance(column, a.x)
        <= 1 {
        return Some(DragBorder { pane: second_id, direction: Direction::Left, vertical: true });
    }
    if a.bottom() == b.y && overlaps(a.x, a.width, b.x, b.width, column) && distance(row, b.y)
        <= 1 {
        return Some(DragBorder { pane: first_id, direction: Direction::Up, vertical: false });
    }
    if b.bottom() == a.y && overlaps(a.x, a.width, b.x, b.width, column) && distance(row, a.y)
        <= 1 {
        return Some(DragBorder { pane: second_id, direction: Direction::Up, vertical: false });
    }
    None
}

/// The draggable border under a cell.
pub fn border_at(rects: &[(PaneId, Rect)], column: u16, row: u16) -> (r: Option<DragBorder>)
    ensures
        r == border_from(rects@, 0, 1, column as int, row as int),
{
    let mut i: usize = 0;
    while i < rects.len()
        invariant
            i <= rects.len(),
            border_from(rects@, 0, 1, column as int, row as int) == border_from(
                rects@,
                i as int,
                i + 1,
                column as int,
                row as int,
            ),
        decreases rects@.len() - i,
    {
        let mut j: usize = i + 1;
        while j < rects.len()
            invariant
                i < j <= rects.len(),
                border_from(rects@, 0, 1, column as int, row as int) == border_from(
                    rects@,
                    i as int,
                    j as int,
                    column as int,
                    row as int,
                ),
            decreases rects@.len() - j,
        {
            let hit = border_between(&rects[i], &rects[j], column, row);
            if hit.is_some() {
                return hit;
            }
            j += 1;
        }
        i += 1;
    }
    None
}

/// How far the pointer moved, held to what a resize can carry.
pub fn drag_delta(start: u16, current: u16) -> (r: i16)
    ensures
        r == num::max(i16::MIN as int, num::min(i16::MAX as int, current - start)),
{
    let delta: i32 = current as i32 - start as i32;
    if delta > 32767 {
        32767
    } else if delta < -32768 {
        -32768
    } else {
        delta as i16
    }
}

} // verus!
