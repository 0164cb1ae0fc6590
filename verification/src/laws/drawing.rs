//! What is drawn: labels, rows, panes and the cursor.

use vstd::prelude::*;

use crate::geometry::Rect;
use crate::input::TabSpan;
use crate::laws::{finding, returning};
use crate::layout;
use crate::mode::{Menu, MenuAction};
use crate::proto::{
    AgentInfo, AgentStateKind, CellColor, LayoutSnapshot, LayoutTree, PaneSnapshot, Run, Screen,
    SidebarTabInfo, SplitAxis, TabInfo, WorkspaceInfo,
};
use crate::render::{self, SidebarTarget, StatusWidget, Style, Ui};
use crate::selection::Selection;
use crate::share;
use crate::sorted;
use crate::text;
use crate::theme::{Color, Theme};

verus! {

// ------------------------------------------------------------------------------ labels

/// A text that is too wide is cut to the width, and its last cell says so; any other is
/// drawn as it is.
pub proof fn law_wide_texts_are_cut(s: Seq<char>, width: int)
    ensures
        0 <= width ==> render::ellipsized(s, width).len() <= width,
        s.len() <= width ==> render::ellipsized(s, width) == s,
        0 < width < s.len() ==> {
            let cut = render::ellipsized(s, width);
            &&& cut.len() == width
            &&& cut.drop_last().is_prefix_of(s)
            &&& cut.last() == '…'
        },
{
    if 0 < width < s.len() {
        assert(render::ellipsized(s, width).drop_last() =~= s.take(width - 1));
    }
}

/// An age is told in whole seconds within the first minute, in whole minutes within the
/// first hour, and then in whole hours.
pub proof fn law_ages_are_told_in_whole_units(secs: nat) -> (told: nat)
    ensures
        secs < 60 ==> told == secs && render::age_text(secs) == text::decimal(told).push('s'),
        60 <= secs < 3600 ==> told * 60 <= secs < (told + 1) * 60 && render::age_text(secs)
            == text::decimal(told).push('m'),
        3600 <= secs ==> told * 3600 <= secs < (told + 1) * 3600 && render::age_text(secs)
            == text::decimal(told).push('h'),
{
    reveal_strlit("s");
    reveal_strlit("m");
    reveal_strlit("h");
    let told = if secs < 60 {
        secs
    } else if secs < 3600 {
        secs / 60
    } else {
        secs / 3600
    };
    assert(text::decimal(told) + "s"@ =~= text::decimal(told).push('s'));
    assert(text::decimal(told) + "m"@ =~= text::decimal(told).push('m'));
    assert(text::decimal(told) + "h"@ =~= text::decimal(told).push('h'));
    told
}

/// A state is drawn in its own color of the theme.
pub proof fn law_states_have_colors(theme: Theme)
    ensures
        render::tint(theme, AgentStateKind::Blocked) == theme.blocked,
        render::tint(theme, AgentStateKind::Working) == theme.working,
        render::tint(theme, AgentStateKind::Done) == theme.done,
        render::tint(theme, AgentStateKind::Idle) == theme.idle,
        render::tint(theme, AgentStateKind::Unknown) == theme.idle,
        render::row_mark(AgentStateKind::Working) == seq!['◐'],
        render::row_mark(AgentStateKind::Blocked) == seq!['●'],
        render::row_mark(AgentStateKind::Done) == seq!['●'],
        render::row_mark(AgentStateKind::Idle) == seq!['·'],
        render::row_mark(AgentStateKind::Unknown) == seq!['·'],
{
    reveal_strlit("◐");
    reveal_strlit("●");
    reveal_strlit("·");
}

/// The label of the active tab stands in brackets, and that of another between blanks. A
/// dot in front says that an agent in it works or is blocked.
pub proof fn law_tabs_are_labelled(name: Seq<char>, active: bool, state: AgentStateKind)
    ensures
        ({
            let label = render::tab_text(name, active, state);
            let busy = state == AgentStateKind::Blocked || state == AgentStateKind::Working;
            let short = render::ellipsized(name, 24);
            &&& active && busy ==> label == seq!['●', ' ', '['] + short + seq![']']
            &&& active && !busy ==> label == seq!['['] + short + seq![']']
            &&& !active && busy ==> label == seq![' ', '●', ' '] + short + seq![' ']
            &&& !active && !busy ==> label == seq![' '] + short + seq![' ']
        }),
{
    reveal_strlit("● ");
    reveal_strlit("");
    reveal_strlit("[");
    reveal_strlit("]");
    reveal_strlit(" ");
    let label = render::tab_text(name, active, state);
    let busy = state == AgentStateKind::Blocked || state == AgentStateKind::Working;
    let short = render::ellipsized(name, 24);
    if active && busy {
        assert(label =~= seq!['●', ' ', '['] + short + seq![']']);
    } else if active {
        assert(label =~= seq!['['] + short + seq![']']);
    } else if busy {
        assert(label =~= seq![' ', '●', ' '] + short + seq![' ']);
    } else {
        assert(label =~= seq![' '] + short + seq![' ']);
    }
}

/// The active tab stands out by its colors, and a blocked one by its own and in bold.
pub proof fn law_tabs_are_colored(tab: TabInfo, theme: Theme)
    ensures
        ({
            let style = render::tab_style(tab, theme);
            &&& style.bg == Some(
                if tab.active {
                    theme.tab_active_bg
                } else {
                    theme.tabbar_bg
                },
            )
            &&& style.bold <==> tab.state == AgentStateKind::Blocked
            &&& tab.state == AgentStateKind::Blocked ==> style.fg == Some(theme.blocked)
            &&& tab.state != AgentStateKind::Blocked ==> style.fg == Some(
                if tab.active {
                    theme.tab_active_fg
                } else {
                    theme.text
                },
            )
        }),
{
}

/// The active tab that is kept in view is the first that is active.
pub proof fn law_the_active_tab_is_found(tabs: Seq<TabInfo>, from: int)
    requires
        0 <= from,
    ensures
        match render::active_index(tabs, from) {
            Some(i) => from <= i < tabs.len() && tabs[i].active && forall|j: int|
                from <= j < i ==> !(#[trigger] tabs[j]).active,
            None => forall|j: int| from <= j < tabs.len() ==> !(#[trigger] tabs[j]).active,
        },
    decreases tabs.len() - from,
{
    if from < tabs.len() && !tabs[from].active {
        law_the_active_tab_is_found(tabs, from + 1);
    }
}

/// A column of the strip belongs to a tab exactly when the column of the scrolled labels
/// that is drawn there does.
pub proof fn law_scrolled_tabs_are_drawn_in_place(
    span: TabSpan,
    offset: int,
    available: int,
    origin: int,
    column: int,
)
    requires
        0 <= origin,
        0 <= available,
        origin + available <= 0xffff,
    ensures
        match render::seen_part(span, offset, available, origin) {
            Some(part) => part.id == span.id && (part.start <= column < part.end <==> (span.start
                <= column - origin + offset < span.end && 0 <= column - origin < available)),
            None => !(span.start <= column - origin + offset < span.end && 0 <= column - origin
                < available),
        },
{
}

/// A pane's title tells its id and its state, and who is in it: the agent, or else what
/// the terminal says. A pane that is scrolled back says so, and no other.
pub proof fn law_titles_tell_who_is_in_a_pane(pane: PaneSnapshot, theme: Theme)
    ensures
        ({
            let pieces = render::title_pieces(pane, theme);
            &&& pieces[0].0 == seq!['#'] + text::decimal(pane.id.0 as nat) + seq![' ']
            &&& pieces[1].0 == (match pane.agent {
                Some(agent) => agent@,
                None => pane.title@,
            })
            &&& pieces[2].0 == seq![' ', '—', ' '] + layout::state_text(pane.state)
            &&& pane.scroll_offset > 0 <==> pieces.len() == 4
            &&& pane.scroll_offset == 0 <==> pieces.len() == 3
            &&& pane.scroll_offset > 0 ==> pieces[3].0 == " [scroll]"@
        }),
{
    reveal_strlit("#");
    reveal_strlit(" ");
    reveal_strlit(" — ");
    let pieces = render::title_pieces(pane, theme);
    assert(pieces[0].0 =~= seq!['#'] + text::decimal(pane.id.0 as nat) + seq![' ']);
    assert(pieces[2].0 =~= seq![' ', '—', ' '] + layout::state_text(pane.state));
}

// ------------------------------------------------------------------------------ sidebar

/// A workspace's row opens downwards when it is active, and sideways when it is not; its
/// directory stands behind its name where it is called otherwise.
pub proof fn law_workspaces_are_labelled(workspace: WorkspaceInfo)
    ensures
        ({
            let row = render::workspace_row(workspace);
            let base = match workspace.root {
                Some(root) => text::base_name(root@),
                None => None,
            };
            &&& row.0 == SidebarTarget::Workspace(workspace.id)
            &&& row.2 == workspace.state
            &&& row.1[0] == '▾' <==> workspace.active
            &&& row.1[0] == '▸' <==> !workspace.active
            &&& row.1[1] == ' '
            &&& base is None || base == Some(workspace.name@) ==> row.1.skip(2) == workspace.name@
            &&& base is Some && base != Some(workspace.name@) ==> row.1.skip(2) == workspace.name@
                + seq![' ', ' '] + base->0
        }),
{
    reveal_strlit("▾");
    reveal_strlit("▸");
    reveal_strlit(" ");
    reveal_strlit("  ");
    let row = render::workspace_row(workspace);
    assert(row.1.skip(2) =~= render::workspace_label(workspace));
    assert("  "@ =~= seq![' ', ' ']);
}

/// An agent's row leads to its pane, and tells for how long it has been blocked, working
/// or done.
pub proof fn law_agents_are_labelled(agent: AgentInfo)
    ensures
        ({
            let row = render::agent_row(agent);
            let told = agent.state == AgentStateKind::Blocked || agent.state
                == AgentStateKind::Working || agent.state == AgentStateKind::Done;
            &&& row.0 == SidebarTarget::Pane(agent.pane)
            &&& row.2 == agent.state
            &&& told ==> row.1 == seq![' ', ' ', ' ', ' '] + agent.name@ + seq![' ']
                + render::age_text(agent.state_age_secs as nat)
            &&& !told ==> row.1 == seq![' ', ' ', ' ', ' '] + agent.name@
        }),
{
    reveal_strlit("    ");
    reveal_strlit(" ");
    assert("    "@ =~= seq![' ', ' ', ' ', ' ']);
    assert(" "@ =~= seq![' ']);
}

/// The sidebar has a row for every workspace, in order; below the row of an active one,
/// and of no other, stand the rows of its tabs.
pub proof fn law_the_sidebar_lists_everything(
    workspaces: Seq<WorkspaceInfo>,
    count: int,
    w: int,
) -> (at: int)
    requires
        0 <= w < count <= workspaces.len(),
    ensures
        ({
            let rows = render::workspace_rows(workspaces, count);
            let tabs = render::tab_rows(workspaces[w].tabs@, workspaces[w].tabs@.len() as int);
            let below = if workspaces[w].active {
                tabs.len() as int
            } else {
                0
            };
            &&& 0 <= at && at + below < rows.len()
            &&& w == 0 ==> at == 0
            &&& rows[at] == render::workspace_row(workspaces[w])
            &&& workspaces[w].active ==> rows.subrange(at + 1, at + 1 + below) == tabs
            &&& w + 1 < count ==> at + 1 + below < rows.len() && rows[at + 1 + below]
                == render::workspace_row(workspaces[w + 1])
            &&& w + 1 == count ==> at + 1 + below == rows.len()
        }),
    decreases count,
{
    let before = render::workspace_rows(workspaces, count - 1);
    let rows = render::workspace_rows(workspaces, count);
    let tabs = render::tab_rows(workspaces[w].tabs@, workspaces[w].tabs@.len() as int);
    if w < count - 1 {
        let at = law_the_sidebar_lists_everything(workspaces, count - 1, w);
        let below = if workspaces[w].active {
            tabs.len() as int
        } else {
            0
        };
        assert(before.is_prefix_of(rows));
        assert(forall|i: int| 0 <= i < before.len() ==> #[trigger] rows[i] == before[i]);
        if workspaces[w].active {
            assert(rows.subrange(at + 1, at + 1 + below) =~= before.subrange(
                at + 1,
                at + 1 + below,
            ));
        }
        assert(rows[before.len() as int] == render::workspace_row(workspaces[count - 1]));
        at
    } else {
        let at = before.len() as int;
        if workspaces[w].active {
            assert(rows.subrange(at + 1, at + 1 + tabs.len()) =~= tabs);
        }
        at
    }
}

/// Below the row of a tab stand the rows of its agents.
pub proof fn law_agents_stand_below_their_tab(tabs: Seq<SidebarTabInfo>, count: int, t: int) -> (at:
    int)
    requires
        0 <= t < count <= tabs.len(),
    ensures
        ({
            let rows = render::tab_rows(tabs, count);
            let agents = tabs[t].agents@;
            &&& 0 <= at && at + agents.len() < rows.len()
            &&& t == 0 ==> at == 0
            &&& rows[at] == render::tab_row(tabs[t])
            &&& forall|a: int|
                0 <= a < agents.len() ==> #[trigger] rows[at + 1 + a] == render::agent_row(agents[a])
            &&& t + 1 < count ==> at + 1 + agents.len() < rows.len() && rows[at + 1
                + agents.len()] == render::tab_row(tabs[t + 1])
            &&& t + 1 == count ==> at + 1 + agents.len() == rows.len()
        }),
    decreases count,
{
    let before = render::tab_rows(tabs, count - 1);
    let rows = render::tab_rows(tabs, count);
    let agents = tabs[t].agents@;
    if t < count - 1 {
        let at = law_agents_stand_below_their_tab(tabs, count - 1, t);
        assert(forall|i: int| 0 <= i < before.len() ==> #[trigger] rows[i] == before[i]);
        assert forall|a: int| 0 <= a < agents.len() implies #[trigger] rows[at + 1 + a]
            == render::agent_row(agents[a]) by {
            assert(before[at + 1 + a] == rows[at + 1 + a]);
        }
        assert(rows[before.len() as int] == render::tab_row(tabs[count - 1]));
        at
    } else {
        let at = before.len() as int;
        assert forall|a: int| 0 <= a < agents.len() implies #[trigger] rows[at + 1 + a]
            == render::agent_row(agents[a]) by {
            assert(render::agent_rows(agents)[a] == render::agent_row(agents[a]));
        }
        at
    }
}

/// A tab's row leads to the tab and shows its name, indented once.
pub proof fn law_tabs_have_rows(tab: SidebarTabInfo)
    ensures
        render::tab_row(tab).0 == SidebarTarget::Tab(tab.id),
        render::tab_row(tab).1 == seq![' ', ' '] + tab.name@,
        render::tab_row(tab).2 == tab.state,
{
    reveal_strlit("  ");
    assert("  "@ =~= seq![' ', ' ']);
}

// ----------------------------------------------------------------------------- contents

/// The color of a cell is the terminal's own where it names one, and the theme's where it
/// names an index that the theme has.
pub proof fn law_cells_have_colors(theme: Theme, index: u8, red: u8, green: u8, blue: u8)
    ensures
        render::cell_tint(CellColor::Default, theme) is None,
        render::cell_tint(CellColor::Rgb(red, green, blue), theme) == Some(
            Color::Rgb(red, green, blue),
        ),
        index < theme.ansi@.len() ==> render::cell_tint(CellColor::Indexed(index), theme) == Some(
            theme.ansi@[index as int],
        ),
        index >= theme.ansi@.len() ==> render::cell_tint(CellColor::Indexed(index), theme) == Some(
            Color::Indexed(index),
        ),
{
}

/// The attributes of a run are its bits, from the lowest: bold, italic, underlined, dim
/// and reversed; what it does not color has the theme's text and background.
pub proof fn law_runs_are_drawn_as_they_say(run: Run, theme: Theme)
    ensures
        ({
            let style = render::run_style(run, theme);
            &&& style.bold <==> run.attrs % 2 == 1
            &&& style.italic <==> run.attrs / 2 % 2 == 1
            &&& style.underlined <==> run.attrs / 4 % 2 == 1
            &&& style.dim <==> run.attrs / 8 % 2 == 1
            &&& style.reversed <==> run.attrs / 16 % 2 == 1
            &&& run.fg is Default ==> style.fg == Some(theme.text)
            &&& run.bg is Default ==> style.bg == Some(theme.bg)
            &&& !(run.fg is Default) ==> style.fg == render::cell_tint(run.fg, theme)
            &&& !(run.bg is Default) ==> style.bg == render::cell_tint(run.bg, theme)
        }),
{
    let bits = run.attrs;
    assert(bits & 1 != 0 <==> bits % 2 == 1) by (bit_vector);
    assert(bits & 2 != 0 <==> bits / 2 % 2 == 1) by (bit_vector);
    assert(bits & 4 != 0 <==> bits / 4 % 2 == 1) by (bit_vector);
    assert(bits & 8 != 0 <==> bits / 8 % 2 == 1) by (bit_vector);
    assert(bits & 16 != 0 <==> bits / 16 % 2 == 1) by (bit_vector);
}

/// Whether each character of a run of pieces is marked.
pub open spec fn marks(pieces: Seq<(Seq<char>, bool)>) -> Seq<bool>
    decreases pieces.len(),
{
    if pieces.len() == 0 {
        Seq::empty()
    } else {
        marks(pieces.drop_last()) + Seq::new(pieces.last().0.len(), |k: int| pieces.last().1)
    }
}

/// Exactly the characters whose cells are selected are marked.
pub proof fn law_selected_characters_are_marked(
    s: Seq<char>,
    selection: Selection,
    row: int,
    column: int,
)
    requires
        0 <= row <= usize::MAX,
        0 <= column,
        column + s.len() <= usize::MAX,
    ensures
        marks(render::stretches(s, selection, row, column)) == Seq::new(
            s.len(),
            |k: int| selection.covers(row, column + k),
        ),
    decreases s.len(),
{
    let pieces = render::stretches(s, selection, row, column);
    if s.len() > 0 {
        let front = s.drop_last();
        law_selected_characters_are_marked(front, selection, row, column);
        let before = render::stretches(front, selection, row, column);
        let now = selection.covers(row, column + s.len() - 1);
        assert(now == render::selected_cell(selection, row, column + s.len() - 1));
        if before.len() > 0 && before.last().1 == now {
            assert(pieces.drop_last() =~= before.drop_last());
            assert(marks(pieces) =~= marks(before).push(now));
        } else {
            assert(pieces.drop_last() =~= before);
            assert(marks(pieces) =~= marks(before).push(now));
        }
        assert(marks(pieces) =~= Seq::new(s.len(), |k: int| selection.covers(row, column + k)));
    } else {
        assert(marks(pieces) =~= Seq::new(s.len(), |k: int| selection.covers(row, column + k)));
    }
}

/// A selection changes the background alone, to the theme's.
pub proof fn law_selections_change_the_background(style: Style, theme: Theme)
    ensures
        render::stretch_style(style, theme, false) == style,
        render::stretch_style(style, theme, true) == (Style { bg: Some(theme.selection), ..style }),
{
}

/// How many cells the characters in front of a place take.
pub open spec fn cells_before(s: Seq<char>, at: int) -> int
    decreases at,
{
    if at <= 0 {
        0
    } else {
        cells_before(s, at - 1) + if text::cells_of(s[at - 1]) <= 1 {
            1
        } else {
            text::cells_of(s[at - 1]) as int
        }
    }
}

proof fn lemma_covering(s: Seq<char>, from: int, column: int)
    requires
        0 <= from <= s.len(),
        0 <= column,
    ensures
        match render::covering(s, from, column) {
            Ok(c) => exists|k: int|
                from <= k < s.len() && (#[trigger] s[k]) == c && cells_before(s, k) <= column
                    + cells_before(s, from) < cells_before(s, k + 1),
            Err(left) => left == column + cells_before(s, from) - cells_before(s, s.len() as int)
                && left >= 0,
        },
    decreases s.len() - from,
{
    if from < s.len() {
        if column < render::char_width(s[from]) {
            assert(s[from] == s[from]);
        } else {
            lemma_covering(s, from + 1, column - render::char_width(s[from]));
        }
    }
}

/// The character at a column is the one whose cells hold it; past the last character
/// there is none, and what is left is how far past.
pub proof fn law_characters_cover_their_cells(s: Seq<char>, column: int)
    requires
        0 <= column,
    ensures
        match render::covering(s, 0, column) {
            Ok(c) => exists|k: int|
                0 <= k < s.len() && (#[trigger] s[k]) == c && cells_before(s, k) <= column
                    < cells_before(s, k + 1),
            Err(left) => left == column - cells_before(s, s.len() as int) && left >= 0,
        },
{
    lemma_covering(s, 0, column);
}

/// The cursor is drawn inside the border of its pane, one cell in from where it is on the
/// screen; a hidden one and one outside are not drawn.
pub proof fn law_the_cursor_stays_in_its_pane(screen: Screen, rect: Rect)
    requires
        rect.fits(),
    ensures
        match render::cursor_place(screen, rect) {
            Some((x, y, width)) => {
                &&& screen.cursor_visible
                &&& x == rect.x + 1 + screen.cursor_col
                &&& y == rect.y + 1 + screen.cursor_row
                &&& rect.x < x && x + width <= rect.x + rect.width - 1
                &&& rect.y < y < rect.y + rect.height - 1
            },
            None => !screen.cursor_visible || screen.cursor_col + 2 >= rect.width
                || screen.cursor_row + 2 >= rect.height,
        },
{
}

// ------------------------------------------------------------------------------- places

/// A pane is somewhere in a tree.
pub open spec fn grows(tree: LayoutTree, pane: u64) -> bool
    decreases tree,
{
    match tree {
        LayoutTree::Leaf { pane: leaf } => leaf.0 == pane,
        LayoutTree::Split { first, second, .. } => grows(*first, pane) || grows(*second, pane),
    }
}

/// No pane is in a tree twice.
pub open spec fn apart(tree: LayoutTree) -> bool
    decreases tree,
{
    match tree {
        LayoutTree::Leaf { .. } => true,
        LayoutTree::Split { first, second, .. } => apart(*first) && apart(*second) && forall|p: u64|
            !(#[trigger] grows(*first, p) && grows(*second, p)),
    }
}

/// One rectangle lies in another.
pub open spec fn within(inner: Rect, outer: Rect) -> bool {
    &&& outer.x <= inner.x && inner.x + inner.width <= outer.x + outer.width
    &&& outer.y <= inner.y && inner.y + inner.height <= outer.y + outer.height
}

proof fn lemma_placed(tree: LayoutTree, rect: Rect, before: Seq<(u64, Rect)>, pane: u64)
    requires
        rect.fits(),
        apart(tree),
        sorted::rising(before),
    ensures
        sorted::rising(render::placed(tree, rect, before)),
        !grows(tree, pane) ==> sorted::value_of(render::placed(tree, rect, before), pane)
            == sorted::value_of(before, pane),
        grows(tree, pane) ==> (sorted::value_of(render::placed(tree, rect, before), pane) matches
            Some(place) && within(place, rect)),
    decreases tree,
{
    match tree {
        LayoutTree::Leaf { pane: leaf } => {
            sorted::law_put_is_visible(before, leaf.0, rect, pane);
            returning::lemma_put_rises(before, leaf.0, rect);
        },
        LayoutTree::Split { axis, ratio, first, second } => {
            let across = axis == SplitAxis::Horizontal;
            let cells = share::cells(render::extent(rect, across) as u16, ratio);
            let a = render::first_half(rect, across, cells);
            let b = render::second_half(rect, across, cells);
            lemma_placed(*first, a, before, pane);
            lemma_placed(*second, b, render::placed(*first, a, before), pane);
            assert(within(a, rect) && within(b, rect));
            assert(!(grows(*first, pane) && grows(*second, pane)));
        },
    }
}

/// Every pane of a split has a place, inside the rectangle; those of the first part lie
/// left of those of the second where the split is horizontal, and above them where it is
/// vertical.
pub proof fn law_panes_are_placed_by_their_splits(
    axis: SplitAxis,
    ratio: u32,
    first: Box<LayoutTree>,
    second: Box<LayoutTree>,
    rect: Rect,
    before: Seq<(u64, Rect)>,
    a: u64,
    b: u64,
)
    requires
        rect.fits(),
        sorted::rising(before),
        apart(LayoutTree::Split { axis, ratio, first, second }),
        grows(*first, a),
        grows(*second, b),
    ensures
        ({
            let places = render::placed(
                LayoutTree::Split { axis, ratio, first, second },
                rect,
                before,
            );
            &&& sorted::value_of(places, a) is Some
            &&& sorted::value_of(places, b) is Some
            &&& ({
                let one = sorted::value_of(places, a)->0;
                let other = sorted::value_of(places, b)->0;
                &&& within(one, rect)
                &&& within(other, rect)
                &&& axis == SplitAxis::Horizontal ==> one.x + one.width <= other.x
                &&& axis == SplitAxis::Vertical ==> one.y + one.height <= other.y
            })
        }),
{
    let across = axis == SplitAxis::Horizontal;
    let cells = share::cells(render::extent(rect, across) as u16, ratio);
    let left = render::first_half(rect, across, cells);
    let right = render::second_half(rect, across, cells);
    lemma_placed(*first, left, before, a);
    lemma_placed(*second, right, render::placed(*first, left, before), a);
    lemma_placed(*second, right, render::placed(*first, left, before), b);
    assert(!(grows(*first, a) && grows(*second, a)));
    assert(within(left, rect) && within(right, rect));
    if across {
        assert(left.x + left.width <= right.x);
    } else {
        assert(left.y + left.height <= right.y);
    }
}

// ------------------------------------------------------------------------------- status

/// Some agent is blocked.
pub open spec fn any_blocked(agents: Seq<AgentInfo>) -> bool {
    exists|i: int| 0 <= i < agents.len() && (#[trigger] agents[i]).state == AgentStateKind::Blocked
}

/// The blocked agents are counted: one more counts one more exactly when it is blocked,
/// and nothing else is counted.
pub proof fn law_blocked_agents_are_counted(agents: Seq<AgentInfo>, one: AgentInfo)
    ensures
        render::blocked_in(agents.push(one), agents.len() as int + 1) == render::blocked_in(
            agents,
            agents.len() as int,
        ) + if one.state == AgentStateKind::Blocked {
            1int
        } else {
            0int
        },
        render::blocked_in(Seq::empty(), 0) == 0,
{
    lemma_blocked_prefix(agents, agents.push(one), agents.len() as int);
}

proof fn lemma_blocked_prefix(a: Seq<AgentInfo>, b: Seq<AgentInfo>, count: int)
    requires
        0 <= count <= a.len() <= b.len(),
        forall|i: int| 0 <= i < count ==> #[trigger] a[i] == b[i],
    ensures
        render::blocked_in(a, count) == render::blocked_in(b, count),
    decreases count,
{
    if count > 0 {
        lemma_blocked_prefix(a, b, count - 1);
        assert(a[count - 1] == b[count - 1]);
    }
}

proof fn lemma_blocked_in(agents: Seq<AgentInfo>, count: int)
    requires
        0 <= count <= agents.len(),
    ensures
        0 <= render::blocked_in(agents, count) <= count,
        render::blocked_in(agents, count) > 0 <==> exists|i: int|
            0 <= i < count && (#[trigger] agents[i]).state == AgentStateKind::Blocked,
    decreases count,
{
    if count > 0 {
        lemma_blocked_in(agents, count - 1);
        if agents[count - 1].state == AgentStateKind::Blocked {
            assert(agents[count - 1].state == AgentStateKind::Blocked);
        }
        if render::blocked_in(agents, count - 1) > 0 {
            let i = choose|i: int|
                0 <= i < count - 1 && (#[trigger] agents[i]).state == AgentStateKind::Blocked;
            assert(agents[i].state == AgentStateKind::Blocked);
        }
    }
}

proof fn lemma_blocked_tabs(tabs: Seq<SidebarTabInfo>, count: int)
    requires
        0 <= count <= tabs.len(),
    ensures
        0 <= render::blocked_tabs(tabs, count),
        render::blocked_tabs(tabs, count) > 0 <==> exists|t: int|
            0 <= t < count && any_blocked((#[trigger] tabs[t]).agents@),
    decreases count,
{
    if count > 0 {
        lemma_blocked_tabs(tabs, count - 1);
        let agents = tabs[count - 1].agents@;
        lemma_blocked_in(agents, agents.len() as int);
        if any_blocked(agents) {
            assert(any_blocked(tabs[count - 1].agents@));
        }
        if render::blocked_tabs(tabs, count - 1) > 0 {
            let t = choose|t: int| 0 <= t < count - 1 && any_blocked((#[trigger] tabs[t]).agents@);
            assert(any_blocked(tabs[t].agents@));
        }
    }
}

/// The status line speaks of blocked agents exactly when some agent of some tab of some
/// workspace is blocked.
pub proof fn law_blocked_agents_are_noticed(workspaces: Seq<WorkspaceInfo>, count: int)
    requires
        0 <= count <= workspaces.len(),
    ensures
        0 <= render::blocked_agents(workspaces, count),
        render::blocked_agents(workspaces, count) > 0 <==> exists|w: int, t: int|
            0 <= w < count && 0 <= t < workspaces[w].tabs@.len() && any_blocked(
                (#[trigger] workspaces[w].tabs@[t]).agents@,
            ),
    decreases count,
{
    if count > 0 {
        law_blocked_agents_are_noticed(workspaces, count - 1);
        let tabs = workspaces[count - 1].tabs@;
        lemma_blocked_tabs(tabs, tabs.len() as int);
        if render::blocked_tabs(tabs, tabs.len() as int) > 0 {
            let t = choose|t: int|
                0 <= t < tabs.len() && any_blocked((#[trigger] tabs[t]).agents@);
            assert(any_blocked(workspaces[count - 1].tabs@[t].agents@));
        }
        if render::blocked_agents(workspaces, count - 1) > 0 {
            let (w, t) = choose|w: int, t: int|
                0 <= w < count - 1 && 0 <= t < workspaces[w].tabs@.len() && any_blocked(
                    (#[trigger] workspaces[w].tabs@[t]).agents@,
                );
            assert(any_blocked(workspaces[w].tabs@[t].agents@));
        }
        if exists|w: int, t: int|
            0 <= w < count && 0 <= t < workspaces[w].tabs@.len() && any_blocked(
                (#[trigger] workspaces[w].tabs@[t]).agents@,
            ) {
            let (w, t) = choose|w: int, t: int|
                0 <= w < count && 0 <= t < workspaces[w].tabs@.len() && any_blocked(
                    (#[trigger] workspaces[w].tabs@[t]).agents@,
                );
            if w == count - 1 {
                assert(any_blocked(tabs[t].agents@));
            } else {
                assert(any_blocked(workspaces[w].tabs@[t].agents@));
            }
        }
    }
}

/// What each part of the status line shows: the zoom while a pane is zoomed, the blocked
/// agents while there are any, the host and the time always.
pub proof fn law_status_parts(
    zoomed: bool,
    blocked: u64,
    host: Seq<char>,
    time: Seq<char>,
    theme: Theme,
)
    ensures
        render::widget_piece(StatusWidget::Zoom, zoomed, blocked, host, time, theme) is Some
            <==> zoomed,
        render::widget_piece(StatusWidget::Blocked, zoomed, blocked, host, time, theme) is Some
            <==> blocked > 0,
        render::widget_piece(
            StatusWidget::Blocked,
            zoomed,
            blocked,
            host,
            time,
            theme,
        ) matches Some(piece) ==> piece.0 == seq!['●', ' '] + text::decimal(blocked as nat)
            + " blocked"@ && piece.1.fg == Some(theme.blocked),
        render::widget_piece(
            StatusWidget::Hostname,
            zoomed,
            blocked,
            host,
            time,
            theme,
        ) matches Some(piece) && piece.0 == host,
        render::widget_piece(
            StatusWidget::Time,
            zoomed,
            blocked,
            host,
            time,
            theme,
        ) matches Some(piece) && piece.0 == time,
{
    reveal_strlit("● ");
    assert("● "@ =~= seq!['●', ' ']);
}

/// A question stands in the status line before all else, then what is being typed; with
/// nothing going on it tells the session, the workspace and the tab.
pub proof fn law_the_status_line_tells_what_is_going_on(
    ui: Ui,
    layout: LayoutSnapshot,
    bindings: Seq<crate::help::Binding>,
)
    ensures
        ({
            let said = render::status_text(ui, layout, bindings);
            &&& ui.confirm matches Some(question) ==> said == seq![' '] + question@
            &&& ui.confirm is None && ui.rename ==> said == " rename pane: "@ + ui.name@
            &&& ui.confirm is None && !ui.rename && !ui.resize && ui.new_workspace ==> said
                == " new workspace: "@ + ui.name@
            &&& ui.confirm is None && !ui.rename && !ui.resize && !ui.new_workspace && !ui.copy
                && !ui.navigate && !ui.prefix ==> (ui.session@ + " · "@ + render::workspace_title(
                layout.workspaces@,
            ) + " · "@ + render::shown_tab(layout)).is_suffix_of(said)
        }),
{
    reveal_strlit(" ");
    assert(" "@ =~= seq![' ']);
    if ui.confirm is None && !ui.rename && !ui.resize && !ui.new_workspace && !ui.copy
        && !ui.navigate && !ui.prefix {
        let rest = ui.session@ + " · "@ + render::workspace_title(layout.workspaces@) + " · "@
            + render::shown_tab(layout);
        let hint = if ui.sidebar_hint {
            " ▸ prefix b · sidebar · "@
        } else {
            " "@
        };
        assert(render::status_text(ui, layout, bindings) =~= hint + rest);
    }
}

/// A menu shows an entry a row, from its top, and marks the selected one alone.
pub proof fn law_menus_mark_the_selected_entry(menu: Menu, index: int, theme: Theme)
    requires
        theme.accent != theme.menu_bg,
    ensures
        ({
            let line = render::menu_line(menu, index, theme);
            &&& line.1 == menu.y + index
            &&& line.0.1.bg == Some(theme.accent) <==> index == menu.selected
            &&& index != menu.selected ==> line.0.1.fg == Some(theme.menu_fg)
        }),
        render::action_title(MenuAction::SplitRight) == "Split right"@,
        render::action_title(MenuAction::SplitDown) == "Split down"@,
        render::action_title(MenuAction::Rename) == "Rename"@,
        render::action_title(MenuAction::Zoom) == "Zoom"@,
        render::action_title(MenuAction::Close) == "Close"@,
        render::action_title(MenuAction::MoveLeft) == "Move left"@,
        render::action_title(MenuAction::MoveRight) == "Move right"@,
{
}

/// The title of a workspace is the active one's name.
pub proof fn law_the_active_workspace_is_named(workspaces: Seq<WorkspaceInfo>)
    ensures
        (forall|i: int| 0 <= i < workspaces.len() ==> !(#[trigger] workspaces[i]).active) || exists|
            i: int,
        |
            0 <= i < workspaces.len() && (#[trigger] workspaces[i]).active
                && render::workspace_title(workspaces) == workspaces[i].name@,
{
    finding::law_the_workspace_in_use_is_found(workspaces);
    if let Some(found) = layout::workspace_in_use(workspaces) {
        assert(workspaces[workspaces.index_of(found)] == found);
    }
}

/// Labels that all fit are not scrolled.
pub proof fn law_tabs_that_fit_stay(tabs: Seq<TabInfo>, available: int)
    requires
        crate::input::spans_from(0, tabs).len() > 0 ==> crate::input::spans_from(0, tabs).last().end
            <= available,
    ensures
        render::scroll_of(tabs, available) == 0,
{
}

/// The texts of the runs from one on.
pub open spec fn texts_from(runs: Seq<Run>, from: int) -> Seq<char>
    decreases runs.len() - from,
{
    if from < 0 || from >= runs.len() {
        Seq::empty()
    } else {
        runs[from].text@ + texts_from(runs, from + 1)
    }
}

proof fn lemma_covering_on(a: Seq<char>, b: Seq<char>, from: int, column: int)
    requires
        0 <= from <= a.len(),
        0 <= column,
    ensures
        render::covering(a + b, from, column) == (match render::covering(a, from, column) {
            Ok(c) => Ok(c),
            Err(left) => render::covering(a + b, a.len() as int, left),
        }),
        render::covering(a, from, column) matches Err(left) ==> left >= 0,
    decreases a.len() - from,
{
    if from < a.len() {
        assert((a + b)[from] == a[from]);
        if column >= render::char_width(a[from]) {
            lemma_covering_on(a, b, from + 1, column - render::char_width(a[from]));
        }
    }
}

proof fn lemma_covering_moved(a: Seq<char>, b: Seq<char>, from: int, column: int)
    requires
        0 <= from <= b.len(),
    ensures
        render::covering(a + b, a.len() + from, column) == render::covering(b, from, column),
    decreases b.len() - from,
{
    if from < b.len() {
        assert((a + b)[a.len() + from] == b[from]);
        if column >= render::char_width(b[from]) {
            lemma_covering_moved(a, b, from + 1, column - render::char_width(b[from]));
        }
    }
}

/// The character at a column of a row is the one that the texts of its runs, one after the
/// other, have there.
pub proof fn law_runs_cover_their_cells(runs: Seq<Run>, from: int, column: int)
    requires
        0 <= from <= runs.len(),
        0 <= column,
    ensures
        render::covered(runs, from, column) == (match render::covering(
            texts_from(runs, from),
            0,
            column,
        ) {
            Ok(c) => Some(c),
            Err(_) => None,
        }),
    decreases runs.len() - from,
{
    if from < runs.len() {
        let a = runs[from].text@;
        let b = texts_from(runs, from + 1);
        lemma_covering_on(a, b, 0, column);
        if let Err(left) = render::covering(a, 0, column) {
            lemma_covering_moved(a, b, 0, left);
            law_runs_cover_their_cells(runs, from + 1, left);
        }
    }
}

/// The cursor is as wide as the character under it in the row where it is.
pub proof fn law_the_cursor_covers_its_character(screen: Screen)
    ensures
        screen.cursor_row < screen.rows@.len() ==> render::under_cursor(screen) == (
        match render::covering(
            texts_from(screen.rows@[screen.cursor_row as int]@, 0),
            0,
            screen.cursor_col as int,
        ) {
            Ok(c) => Some(c),
            Err(_) => None,
        }),
        screen.cursor_row >= screen.rows@.len() ==> render::under_cursor(screen) is None,
{
    if screen.cursor_row < screen.rows@.len() {
        law_runs_cover_their_cells(
            screen.rows@[screen.cursor_row as int]@,
            0,
            screen.cursor_col as int,
        );
    }
}

/// Colors alone make no text bold, italic, underlined, dim or reversed.
pub proof fn law_colors_alone(fg: Option<Color>, bg: Option<Color>)
    ensures
        ({
            let style = render::colored(fg, bg);
            &&& style.fg == fg
            &&& style.bg == bg
            &&& !style.bold && !style.italic && !style.underlined && !style.dim && !style.reversed
        }),
{
}

} // verus!
