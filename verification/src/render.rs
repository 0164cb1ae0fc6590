//! What a frame shows: labels, rows, styled spans and where they go. Drawing them is
//! left to the terminal.

use vstd::prelude::*;

use crate::geometry::Rect;
use crate::graphics;
use crate::help::{self, Binding};
use crate::input::{self, TabSpan};
use crate::layout;
use crate::mode::{self, Menu, MenuAction};
use crate::num;
use crate::proto::{
    AgentInfo, AgentStateKind, CellColor, LayoutSnapshot, LayoutTree, PaneId, PaneSnapshot, Run,
    Screen, SidebarTabInfo, SplitAxis, TabId, TabInfo, WorkspaceId, WorkspaceInfo, ATTR_BOLD,
    ATTR_DIM, ATTR_INVERSE, ATTR_ITALIC, ATTR_UNDERLINE,
};
use crate::selection::{self, Selection};
use crate::share;
use crate::sorted;
use crate::text;
use crate::theme::{Color, Theme};

verus! {

/// The longest that a tab name is shown before it is cut.
pub const MAX_TAB_NAME: usize = 24;

pub const TAB_PREFIX: &'static str = " Ködade · ";

pub const SIDEBAR_WIDTH: u16 = 24;

/// Heading rows above the sidebar list, which cannot be selected.
pub const SIDEBAR_HEADER_ROWS: u16 = 1;

// ------------------------------------------------------------------------------ styles

/// How a stretch of text is drawn. Without a color the one below stays.
#[derive(Debug, Clone, Copy, PartialEq, Eq, Structural)]
pub struct Style {
    pub fg: Option<Color>,
    pub bg: Option<Color>,
    pub bold: bool,
    pub italic: bool,
    pub underlined: bool,
    pub dim: bool,
    pub reversed: bool,
}

/// A plain style.
pub open spec fn colored(fg: Option<Color>, bg: Option<Color>) -> Style {
    Style {
        fg,
        bg,
        bold: false,
        italic: false,
        underlined: false,
        dim: false,
        reversed: false,
    }
}

pub(crate) fn colors(fg: Option<Color>, bg: Option<Color>) -> (r: Style)
    ensures
        r == colored(fg, bg),
{
    Style { fg, bg, bold: false, italic: false, underlined: false, dim: false, reversed: false }
}

/// A styled stretch of text.
#[derive(Debug, PartialEq, Eq)]
pub struct Span {
    pub text: String,
    pub style: Style,
}

impl View for Span {
    type V = (Seq<char>, Style);

    open spec fn view(&self) -> (Seq<char>, Style) {
        (self.text@, self.style)
    }
}

pub open spec fn span_views(spans: Seq<Span>) -> Seq<(Seq<char>, Style)> {
    spans.map_values(|span: Span| span@)
}

pub(crate) fn push_span(spans: &mut Vec<Span>, text: String, style: Style)
    ensures
        span_views(final(spans)@) == span_views(old(spans)@).push((text@, style)),
{
    let ghost before = span_views(spans@);
    let ghost seen = (text@, style);
    spans.push(Span { text, style });
    assert(span_views(spans@) =~= before.push(seen));
}

// ------------------------------------------------------------------------------ labels

/// A text cut to a number of characters, with a mark where something was cut.
pub open spec fn ellipsized(s: Seq<char>, width: int) -> Seq<char> {
    if s.len() <= width {
        s
    } else if width <= 0 {
        Seq::empty()
    } else {
        s.take(width - 1).push('…')
    }
}

/// Cuts a text to a number of characters, with a mark where something was cut.
pub fn truncate_ellipsis(text: &str, width: usize) -> (r: String)
    ensures
        r@ == ellipsized(text@, width as int),
        r@.len() <= width,
{
    let chars = text::chars_of(text);
    if chars.len() <= width {
        return text.to_owned();
    }
    if width == 0 {
        let empty = String::new();
        assert(empty@ =~= Seq::<char>::empty());
        return empty;
    }
    let mut out = text::text_of(chars.as_slice(), 0, width - 1);
    assert(out@ =~= text@.take(width - 1));
    out.push('…');
    out
}

/// Seconds under a minute, minutes under an hour, else hours.
pub open spec fn age_text(secs: nat) -> Seq<char> {
    if secs < 60 {
        text::decimal(secs) + "s"@
    } else if secs < 3600 {
        text::decimal(secs / 60) + "m"@
    } else {
        text::decimal(secs / 3600) + "h"@
    }
}

pub fn format_age(secs: u64) -> (r: String)
    ensures
        r@ == age_text(secs as nat),
{
    let (number, unit) = if secs < 60 {
        (text::decimal_text(secs), "s")
    } else if secs < 3600 {
        (text::decimal_text(secs / 60), "m")
    } else {
        (text::decimal_text(secs / 3600), "h")
    };
    text::cat(number.as_str(), unit)
}

pub open spec fn row_mark(state: AgentStateKind) -> Seq<char> {
    match state {
        AgentStateKind::Working => "◐"@,
        AgentStateKind::Blocked | AgentStateKind::Done => "●"@,
        AgentStateKind::Idle | AgentStateKind::Unknown => "·"@,
    }
}

fn sidebar_dot(state: AgentStateKind) -> (r: &'static str)
    ensures
        r@ == row_mark(state),
{
    match state {
        AgentStateKind::Working => "◐",
        AgentStateKind::Blocked | AgentStateKind::Done => "●",
        AgentStateKind::Idle | AgentStateKind::Unknown => "·",
    }
}

pub open spec fn tab_mark(state: AgentStateKind) -> Seq<char> {
    match state {
        AgentStateKind::Blocked | AgentStateKind::Working => "● "@,
        _ => ""@,
    }
}

fn state_dot(state: AgentStateKind) -> (r: &'static str)
    ensures
        r@ == tab_mark(state),
{
    match state {
        AgentStateKind::Blocked | AgentStateKind::Working => "● ",
        _ => "",
    }
}

pub open spec fn tint(theme: Theme, state: AgentStateKind) -> Color {
    match state {
        AgentStateKind::Blocked => theme.blocked,
        AgentStateKind::Working => theme.working,
        AgentStateKind::Done => theme.done,
        AgentStateKind::Idle | AgentStateKind::Unknown => theme.idle,
    }
}

fn state_color(theme: &Theme, state: AgentStateKind) -> (r: Color)
    ensures
        r == tint(*theme, state),
{
    match state {
        AgentStateKind::Blocked => theme.blocked,
        AgentStateKind::Working => theme.working,
        AgentStateKind::Done => theme.done,
        AgentStateKind::Idle | AgentStateKind::Unknown => theme.idle,
    }
}

/// The color of a pane border: a blocked agent outweighs the focus.
pub fn border_color(theme: &Theme, state: AgentStateKind, focused: bool) -> (r: Color)
    ensures
        r == (if state == AgentStateKind::Blocked {
            theme.blocked
        } else if focused {
            theme.accent
        } else {
            theme.border
        }),
{
    if state == AgentStateKind::Blocked {
        theme.blocked
    } else if focused {
        theme.accent
    } else {
        theme.border
    }
}

// ------------------------------------------------------------------------------- tabs

/// The label of a tab: in brackets where active, else with a space each side.
pub open spec fn tab_text(name: Seq<char>, active: bool, state: AgentStateKind) -> Seq<char> {
    let short = ellipsized(name, MAX_TAB_NAME as int);
    if active {
        tab_mark(state) + "["@ + short + "]"@
    } else {
        " "@ + tab_mark(state) + short + " "@
    }
}

/// The label of a tab.
pub fn tab_label(name: &str, active: bool, state: AgentStateKind) -> (r: String)
    ensures
        r@ == tab_text(name@, active, state),
        r@.len() <= 28,
{
    let dot = state_dot(state);
    let name = truncate_ellipsis(name, MAX_TAB_NAME);
    proof {
        reveal_strlit("● ");
        reveal_strlit("");
        reveal_strlit("[");
        reveal_strlit("]");
        reveal_strlit(" ");
    }
    if active {
        let mut label = text::cat3(dot, "[", name.as_str());
        label.append("]");
        label
    } else {
        let mut label = text::cat3(" ", dot, name.as_str());
        label.append(" ");
        label
    }
}

pub open spec fn workspace_title(workspaces: Seq<WorkspaceInfo>) -> Seq<char> {
    match layout::workspace_in_use(workspaces) {
        Some(workspace) => workspace.name@,
        None => "workspace"@,
    }
}

/// The name of the active workspace, or a word for it.
pub fn workspace_name(layout: &LayoutSnapshot) -> (r: &str)
    ensures
        r@ == workspace_title(layout.workspaces@),
{
    match layout::find_active(&layout.workspaces) {
        Some(workspace) => workspace.name.as_str(),
        None => "workspace",
    }
}

/// The column of the first tab, in what a coordinate can say.
pub open spec fn first_column(workspace: Seq<char>) -> u16 {
    ((TAB_PREFIX@.len() + workspace.len() + 2) % 0x1_0000) as u16
}

/// The column of the first tab, from the left of the tab bar.
pub fn tab_bar_start(workspace: &str) -> (r: u16)
    ensures
        r == first_column(workspace@),
{
    proof {
        reveal_strlit(" Ködade · ");
    }
    let count: usize = workspace.unicode_len();
    let low: u64 = (count % 0x1_0000) as u64;
    let sum: u64 = low + 12;
    (sum % 0x1_0000) as u16
}

/// The index of the active tab, from one on.
pub open spec fn active_index(tabs: Seq<TabInfo>, from: int) -> Option<int>
    decreases tabs.len() - from,
{
    if from < 0 || from >= tabs.len() {
        None
    } else if tabs[from].active {
        Some(from)
    } else {
        active_index(tabs, from + 1)
    }
}

/// How far the tabs are scrolled: far enough to show the end of the active one, but
/// not past its start.
pub open spec fn scroll_of(tabs: Seq<TabInfo>, available: int) -> int {
    let spans = input::spans_from(0, tabs);
    if spans.len() == 0 || spans.last().end <= available {
        0
    } else {
        match active_index(tabs, 0) {
            None => 0,
            Some(i) => num::min(
                num::max(spans[i].end - available, 0),
                spans[i].start as int,
            ),
        }
    }
}

fn find_active(tabs: &Vec<TabInfo>) -> (r: Option<usize>)
    ensures
        match active_index(tabs@, 0) {
            Some(i) => 0 <= i < tabs@.len() && (r matches Some(at) && at == i),
            None => r is None,
        },
{
    let mut i: usize = 0;
    while i < tabs.len()
        invariant
            i <= tabs@.len(),
            active_index(tabs@, 0) == active_index(tabs@, i as int),
        decreases tabs@.len() - i,
    {
        if tabs[i].active {
            return Some(i);
        }
        i += 1;
    }
    None
}

/// The columns that the tabs are scrolled by so that the active one is seen.
pub fn tab_scroll_offset(tabs: &Vec<TabInfo>, available: u16) -> (r: u16)
    ensures
        r == scroll_of(tabs@, available as int),
{
    let spans = input::tab_spans(0, tabs.as_slice());
    proof {
        input::lemma_span_count(0, tabs@);
    }
    if spans.len() == 0 || spans[spans.len() - 1].end <= available {
        return 0;
    }
    match find_active(tabs) {
        None => 0,
        Some(index) => {
            let span = spans[index];
            let needed: u16 = if span.end > available {
                span.end - available
            } else {
                0
            };
            num::min_u16(needed, span.start)
        },
    }
}

/// The active tab is never scrolled off to the left, and where it fits it is seen
/// whole.
pub proof fn law_active_tab_stays_visible(tabs: Seq<TabInfo>, available: int, i: int)
    requires
        0 <= available,
        active_index(tabs, 0) == Some(i),
        0 <= i < tabs.len(),
    ensures
        ({
            let span = input::spans_from(0, tabs)[i];
            let offset = scroll_of(tabs, available);
            &&& offset <= span.start
            &&& span.end - span.start <= available ==> span.end - offset <= available
        }),
{
    input::lemma_span_count(0, tabs);
    input::lemma_spans_end(0, tabs, i);
    input::lemma_spans_start(0, tabs, i);
}

/// The part of a tab that is seen, in columns of the screen.
pub open spec fn seen_part(span: TabSpan, offset: int, available: int, origin: int) -> Option<
    TabSpan,
> {
    let start = span.start - offset;
    let end = span.end - offset;
    if end <= 0 || start >= available {
        None
    } else {
        Some(
            TabSpan {
                id: span.id,
                start: num::min(origin + num::max(start, 0), 0xffff) as u16,
                end: num::min(origin + num::min(end, available), 0xffff) as u16,
            },
        )
    }
}

/// The seen parts of the first `count` tabs.
pub open spec fn seen_parts(
    spans: Seq<TabSpan>,
    offset: int,
    available: int,
    origin: int,
    count: int,
) -> Seq<TabSpan>
    decreases count,
{
    if count <= 0 {
        Seq::empty()
    } else {
        let before = seen_parts(spans, offset, available, origin, count - 1);
        match seen_part(spans[count - 1], offset, available, origin) {
            Some(part) => before.push(part),
            None => before,
        }
    }
}

/// The tabs on the screen: behind the name of the workspace, scrolled and clipped as
/// they are drawn.
pub open spec fn tabs_on_screen(layout: LayoutSnapshot, area: Rect) -> Seq<TabSpan> {
    let start = first_column(workspace_title(layout.workspaces@));
    if start >= area.width {
        Seq::empty()
    } else {
        let available = area.width - start;
        let spans = input::spans_from(0, layout.tabs@);
        seen_parts(
            spans,
            scroll_of(layout.tabs@, available),
            available,
            area.x + start,
            spans.len() as int,
        )
    }
}

/// The tabs on the screen, for finding the one under the pointer. `area` is what the
/// sidebar leaves.
pub fn tab_spans_for(layout: &LayoutSnapshot, area: Rect) -> (r: Vec<TabSpan>)
    ensures
        r@ == tabs_on_screen(*layout, area),
{
    let start: u16 = tab_bar_start(workspace_name(layout));
    let mut out: Vec<TabSpan> = Vec::new();
    if start >= area.width {
        return out;
    }
    let available: i32 = area.width as i32 - start as i32;
    let origin: i32 = area.x as i32 + start as i32;
    let offset: i32 = tab_scroll_offset(&layout.tabs, area.width - start) as i32;
    let spans = input::tab_spans(0, layout.tabs.as_slice());
    let mut i: usize = 0;
    while i < spans.len()
        invariant
            i <= spans@.len(),
            0 <= available <= 0xffff,
            0 <= origin <= 0x1_ffff,
            0 <= offset <= 0xffff,
            out@ == seen_parts(
                spans@,
                offset as int,
                available as int,
                origin as int,
                i as int,
            ),
        decreases spans@.len() - i,
    {
        let from: i32 = spans[i].start as i32 - offset;
        let to: i32 = spans[i].end as i32 - offset;
        if to > 0 && from < available {
            let left: i32 = origin + if from > 0 {
                from
            } else {
                0
            };
            let right: i32 = origin + if to < available {
                to
            } else {
                available
            };
            out.push(
                TabSpan {
                    id: spans[i].id,
                    start: if left < 0xffff {
                        left as u16
                    } else {
                        0xffff
                    },
                    end: if right < 0xffff {
                        right as u16
                    } else {
                        0xffff
                    },
                },
            );
        }
        i += 1;
    }
    out
}

/// Every tab on the screen lies inside the tab strip.
pub proof fn law_seen_tabs_stay_in_the_strip(layout: LayoutSnapshot, area: Rect, k: int)
    requires
        area.fits(),
        0 <= k < tabs_on_screen(layout, area).len(),
    ensures
        area.x + first_column(workspace_title(layout.workspaces@)) <= tabs_on_screen(
            layout,
            area,
        )[k].start,
        tabs_on_screen(layout, area)[k].start <= tabs_on_screen(layout, area)[k].end,
        tabs_on_screen(layout, area)[k].end <= area.x + area.width,
{
    let start = first_column(workspace_title(layout.workspaces@));
    let available = area.width - start;
    let spans = input::spans_from(0, layout.tabs@);
    input::lemma_span_count(0, layout.tabs@);
    lemma_parts_in_strip(
        layout.tabs@,
        scroll_of(layout.tabs@, available),
        available,
        area.x + start,
        spans.len() as int,
        k,
    );
}

proof fn lemma_parts_in_strip(
    tabs: Seq<TabInfo>,
    offset: int,
    available: int,
    origin: int,
    count: int,
    k: int,
)
    requires
        0 <= count <= input::spans_from(0, tabs).len(),
        0 < available,
        0 <= origin,
        origin + available <= 0xffff,
        0 <= k < seen_parts(
            input::spans_from(0, tabs),
            offset,
            available,
            origin,
            count,
        ).len(),
    ensures
        ({
            let part = seen_parts(
                input::spans_from(0, tabs),
                offset,
                available,
                origin,
                count,
            )[k];
            origin <= part.start <= part.end <= origin + available
        }),
    decreases count,
{
    let spans = input::spans_from(0, tabs);
    if count > 0 {
        let before = seen_parts(spans, offset, available, origin, count - 1);
        if k < before.len() {
            lemma_parts_in_strip(tabs, offset, available, origin, count - 1, k);
        } else {
            input::lemma_spans_start(0, tabs, count - 1);
        }
    }
}

/// How a tab label is drawn.
pub open spec fn tab_style(tab: TabInfo, theme: Theme) -> Style {
    let plain = if tab.active {
        colored(Some(theme.tab_active_fg), Some(theme.tab_active_bg))
    } else {
        colored(Some(theme.text), Some(theme.tabbar_bg))
    };
    if tab.state == AgentStateKind::Blocked {
        Style { fg: Some(theme.blocked), bold: true, ..plain }
    } else {
        plain
    }
}

/// The labels of the first `count` tabs with a column between neighbours.
pub open spec fn tab_labels(tabs: Seq<TabInfo>, theme: Theme, count: int) -> Seq<
    (Seq<char>, Style),
>
    decreases count,
{
    if count <= 0 {
        Seq::empty()
    } else {
        let tab = tabs[count - 1];
        let before = tab_labels(tabs, theme, count - 1);
        let gap = if count > 1 {
            before.push((" "@, colored(None, Some(theme.tabbar_bg))))
        } else {
            before
        };
        gap.push((tab_text(tab.name@, tab.active, tab.state), tab_style(tab, theme)))
    }
}

/// The tab labels as they are drawn, from column zero.
pub fn tab_bar_spans(tabs: &Vec<TabInfo>, theme: &Theme) -> (r: Vec<Span>)
    ensures
        span_views(r@) == tab_labels(tabs@, *theme, tabs@.len() as int),
{
    let mut spans: Vec<Span> = Vec::new();
    let mut i: usize = 0;
    assert(span_views(spans@) =~= Seq::empty());
    while i < tabs.len()
        invariant
            i <= tabs@.len(),
            span_views(spans@) == tab_labels(tabs@, *theme, i as int),
        decreases tabs@.len() - i,
    {
        if i > 0 {
            push_span(&mut spans, " ".to_owned(), colors(None, Some(theme.tabbar_bg)));
        }
        let tab = &tabs[i];
        let plain = if tab.active {
            colors(Some(theme.tab_active_fg), Some(theme.tab_active_bg))
        } else {
            colors(Some(theme.text), Some(theme.tabbar_bg))
        };
        let style = if tab.state == AgentStateKind::Blocked {
            Style {
                fg: Some(theme.blocked),
                bg: plain.bg,
                bold: true,
                italic: plain.italic,
                underlined: plain.underlined,
                dim: plain.dim,
                reversed: plain.reversed,
            }
        } else {
            plain
        };
        push_span(&mut spans, tab_label(tab.name.as_str(), tab.active, tab.state), style);
        i += 1;
    }
    spans
}

// ------------------------------------------------------------------------------ areas

pub open spec fn gutter(visible: bool) -> u16 {
    if visible {
        SIDEBAR_WIDTH
    } else {
        1
    }
}

/// The columns of the sidebar; a collapsed one keeps a gutter.
pub fn sidebar_width(visible: bool) -> (r: u16)
    ensures
        r == gutter(visible),
{
    if visible {
        SIDEBAR_WIDTH
    } else {
        1
    }
}

/// What a part of an area asks for along the way it is divided.
#[derive(Debug, Clone, Copy, PartialEq, Eq, Structural)]
pub enum Part {
    /// This many cells.
    Length(u16),
    /// At least this many, and whatever is left.
    AtLeast(u16),
}

/// The cells of an area along the way it is divided.
pub open spec fn extent(area: Rect, across: bool) -> int {
    if across {
        area.width as int
    } else {
        area.height as int
    }
}

/// A piece of an area along the way it is divided.
pub open spec fn piece(area: Rect, across: bool, from: int, cells: int) -> Rect {
    if across {
        Rect { x: (area.x + from) as u16, width: cells as u16, ..area }
    } else {
        Rect { y: (area.y + from) as u16, height: cells as u16, ..area }
    }
}

/// The cells of an area along the way it is divided, held to what a coordinate can say.
pub open spec fn reach(area: Rect, across: bool) -> int {
    if across {
        area.right_edge() - area.x
    } else {
        area.bottom_edge() - area.y
    }
}

/// Where an area begins along the way it is divided.
pub open spec fn beginning(area: Rect, across: bool) -> int {
    if across {
        area.x as int
    } else {
        area.y as int
    }
}

/// What a part gets that asks for at least `least` of `cells`, beside parts that ask for
/// `others` together: what they leave, and its own least before theirs.
pub open spec fn kept(cells: int, least: int, others: int) -> int {
    num::min(cells, num::max(least, cells - others))
}

/// How an area is divided. Parts get what they ask for, in order, and the one that asks
/// for at least something gets what is left. Where they do not fit, it keeps its least
/// and the others give way; which of two others gives way more is left open.
pub open spec fn divided(area: Rect, across: bool, parts: Seq<Part>, r: Seq<Rect>) -> bool {
    let cells = reach(area, across);
    &&& r.len() == parts.len()
    &&& parts.len() == 2 ==> (parts[0] matches Part::Length(first) ==> (
    parts[1] matches Part::AtLeast(least) ==> (least <= i16::MAX ==> {
        let rest = kept(cells, least as int, first as int);
        &&& r[0] == piece(area, across, 0, cells - rest)
        &&& r[1] == piece(area, across, cells - rest, rest)
    })))
    &&& parts.len() == 3 ==> (parts[0] matches Part::Length(first) ==> (
    parts[1] matches Part::AtLeast(least) ==> (parts[2] matches Part::Length(third) ==> (least
        <= i16::MAX ==> {
        let rest = kept(cells, least as int, first + third);
        let from = beginning(r[1], across) - beginning(area, across);
        &&& num::max(0, cells - rest - third) <= from <= num::min(first as int, cells - rest)
        &&& r[0] == piece(area, across, 0, from)
        &&& r[1] == piece(area, across, from, rest)
        &&& r[2] == piece(area, across, from + rest, cells - rest - from)
    }))))
}

/// Calls `ratatui::layout::Layout::split` with a `Constraint` for each part. The solver
/// behind it puts the least size of a part before the lengths of others, and those before
/// the wish to grow, and lets no parts overlap, which settles every case but one: where
/// two lengths do not fit, it may choose between them. A least size is read as a signed
/// number, so nothing is said of one beyond those.
#[verifier::external_body]
fn split(area: Rect, across: bool, parts: &Vec<Part>) -> (r: Vec<Rect>)
    ensures
        divided(area, across, parts@, r@),
{
    let area = ratatui::layout::Rect { x: area.x, y: area.y, width: area.width, height: area.height };
    let constraints = parts.iter().map(|part| match part {
        Part::Length(cells) => ratatui::layout::Constraint::Length(*cells),
        Part::AtLeast(cells) => ratatui::layout::Constraint::Min(*cells),
    });
    let layout = match across {
        true => ratatui::layout::Layout::horizontal(constraints),
        false => ratatui::layout::Layout::vertical(constraints),
    };
    let rects = layout.split(area);
    rects.iter().map(|r| Rect { x: r.x, y: r.y, width: r.width, height: r.height }).collect()
}

/// The first of two parts of an area, which asks for some cells. One cell is kept for
/// the other.
pub open spec fn first_half(area: Rect, across: bool, first: u16) -> Rect {
    let cells = reach(area, across);
    piece(area, across, 0, cells - kept(cells, 1, first as int))
}

/// What the first part leaves of an area, one cell at least where there is one.
pub open spec fn second_half(area: Rect, across: bool, first: u16) -> Rect {
    let cells = reach(area, across);
    let rest = kept(cells, 1, first as int);
    piece(area, across, cells - rest, rest)
}

/// Divides an area into a part of some cells and the rest.
fn split_two(area: Rect, across: bool, first: u16) -> (r: (Rect, Rect))
    ensures
        r.0 == first_half(area, across, first),
        r.1 == second_half(area, across, first),
{
    let parts: Vec<Part> = vec![Part::Length(first), Part::AtLeast(1)];
    let rects = split(area, across, &parts);
    (rects[0], rects[1])
}

/// What the sidebar leaves of the screen. A screen that it would fill keeps its last
/// column for the content.
pub fn content_area(area: Rect, sidebar: bool) -> (r: Rect)
    ensures
        r == second_half(area, true, gutter(sidebar)),
        area.fits() && gutter(sidebar) < area.width ==> r == (Rect {
            x: (area.x + gutter(sidebar)) as u16,
            width: (area.width - gutter(sidebar)) as u16,
            ..area
        }),
{
    let (_, content) = split_two(area, true, sidebar_width(sidebar));
    content
}

/// The rows between the tab bar and the status bar. They keep one row of a screen of
/// one or two; of two, it is either.
pub open spec fn between_bars(area: Rect, r: Rect) -> bool {
    let rows = reach(area, false);
    let inner = kept(rows, 1, 2);
    &&& r == piece(area, false, r.y - area.y, inner)
    &&& num::max(0, rows - inner - 1) <= r.y - area.y <= num::min(1, rows - inner)
}

fn pane_area(area: Rect) -> (r: Rect)
    ensures
        between_bars(area, r),
{
    let parts: Vec<Part> = vec![Part::Length(1), Part::AtLeast(1), Part::Length(1)];
    let rects = split(area, false, &parts);
    rects[1]
}

/// Panes with their rectangles, in the order of their ids, once a tree of splits is
/// placed beside those that are there: a pane takes its whole rectangle, and a split
/// gives the first side its share and the second the rest.
pub open spec fn placed(tree: LayoutTree, rect: Rect, before: Seq<(u64, Rect)>) -> Seq<(u64, Rect)>
    decreases tree,
{
    match tree {
        LayoutTree::Leaf { pane } => sorted::put(before, pane.0, rect),
        LayoutTree::Split { axis, ratio, first, second } => {
            let across = axis == SplitAxis::Horizontal;
            let cells = share::cells(extent(rect, across) as u16, ratio);
            placed(
                *second,
                second_half(rect, across, cells),
                placed(*first, first_half(rect, across, cells), before),
            )
        },
    }
}

/// Every rectangle ends where a coordinate can say.
pub open spec fn all_fit(rects: Seq<(u64, Rect)>) -> bool {
    forall|i: int| 0 <= i < rects.len() ==> (#[trigger] rects[i]).1.fits()
}

/// Panes that are placed inside a rectangle that fits do fit.
pub proof fn law_placed_panes_fit(tree: LayoutTree, rect: Rect, before: Seq<(u64, Rect)>)
    requires
        rect.fits(),
        all_fit(before),
    ensures
        all_fit(placed(tree, rect, before)),
    decreases tree,
{
    match tree {
        LayoutTree::Leaf { pane } => {
            let after = sorted::put(before, pane.0, rect);
            assert forall|i: int| 0 <= i < after.len() implies (#[trigger] after[i]).1.fits() by {
                sorted::lemma_put_adds_one(before, pane.0, rect, i);
                if after[i] != (pane.0, rect) {
                    let k = before.index_of(after[i]);
                    assert(before[k].1.fits());
                }
            }
        },
        LayoutTree::Split { axis, ratio, first, second } => {
            let across = axis == SplitAxis::Horizontal;
            let cells = share::cells(extent(rect, across) as u16, ratio);
            let middle = placed(*first, first_half(rect, across, cells), before);
            law_placed_panes_fit(*first, first_half(rect, across, cells), before);
            law_placed_panes_fit(*second, second_half(rect, across, cells), middle);
        },
    }
}

fn rects_for(tree: &LayoutTree, rect: Rect, out: &mut Vec<(u64, Rect)>)
    requires
        sorted::rising(old(out)@),
    ensures
        sorted::rising(final(out)@),
        final(out)@ == placed(*tree, rect, old(out)@),
    decreases *tree,
{
    match tree {
        LayoutTree::Leaf { pane } => {
            sorted::put_entry(out, pane.0, rect);
        },
        LayoutTree::Split { axis, ratio, first, second } => {
            let across = *axis == SplitAxis::Horizontal;
            let span: u16 = if across {
                rect.width
            } else {
                rect.height
            };
            let cells: u16 = share::first_cells(span, *ratio);
            let (a, b) = split_two(rect, across, cells);
            assert(extent(rect, across) == span);
            rects_for(first, a, out);
            rects_for(second, b, out);
        },
    }
}

/// Panes and their rectangles, by id.
pub open spec fn keyed(rects: Seq<(PaneId, Rect)>) -> Seq<(u64, Rect)> {
    rects.map_values(|p: (PaneId, Rect)| (p.0.0, p.1))
}

/// The rectangle of every pane, in the order of their ids. `area` is what the sidebar
/// leaves.
pub fn pane_rects_for(layout: &LayoutSnapshot, area: Rect) -> (r: Vec<(PaneId, Rect)>)
    ensures
        exists|inner: Rect| #[trigger]
            between_bars(area, inner) && keyed(r@) == placed(layout.tree, inner, Seq::empty()),
        sorted::rising(keyed(r@)),
        area.fits() ==> graphics::rects_fit(r@),
{
    let inner = pane_area(area);
    let mut rects: Vec<(u64, Rect)> = Vec::new();
    assert(rects@ =~= Seq::empty());
    rects_for(&layout.tree, inner, &mut rects);
    let mut out: Vec<(PaneId, Rect)> = Vec::new();
    let mut i: usize = 0;
    assert(keyed(out@) =~= rects@.take(0));
    while i < rects.len()
        invariant
            i <= rects@.len(),
            keyed(out@) == rects@.take(i as int),
        decreases rects@.len() - i,
    {
        let ghost before = keyed(out@);
        out.push((PaneId(rects[i].0), rects[i].1));
        assert(keyed(out@) =~= before.push(rects@[i as int]));
        assert(rects@.take(i + 1) =~= rects@.take(i as int).push(rects@[i as int]));
        i += 1;
    }
    assert(rects@.take(i as int) =~= rects@);
    assert(between_bars(area, inner));
    proof {
        if area.fits() {
            law_placed_panes_fit(layout.tree, inner, Seq::empty());
            assert forall|k: int| 0 <= k < out@.len() implies (#[trigger] out@[k]).1.fits() by {
                assert(keyed(out@)[k].1.fits());
            }
        }
    }
    out
}

/// A split loses no cell: a cell of the whole lies in exactly one of the two sides.
pub proof fn law_splits_lose_no_cell(
    area: Rect,
    across: bool,
    first: u16,
    column: int,
    row: int,
)
    ensures
        area.has_cell(column, row) == (first_half(area, across, first).has_cell(column, row)
            || second_half(area, across, first).has_cell(column, row)),
        !(first_half(area, across, first).has_cell(column, row) && second_half(
            area,
            across,
            first,
        ).has_cell(column, row)),
{
}

/// However wide a sidebar is, the content keeps a column of a screen that has one.
pub proof fn law_content_keeps_a_column(area: Rect, sidebar: bool)
    requires
        area.fits(),
        area.width > 0,
    ensures
        second_half(area, true, gutter(sidebar)).width > 0,
{
}

/// The content and the sidebar together cover every column.
pub proof fn law_content_and_sidebar_fill_the_width(area: Rect, sidebar: bool)
    requires
        area.fits(),
        gutter(sidebar) < area.width,
    ensures
        second_half(area, true, gutter(sidebar)).width + gutter(sidebar) == area.width,
{
}

// ----------------------------------------------------------------------------- sidebar

#[derive(Debug, Clone, Copy, PartialEq, Eq, Structural)]
pub enum SidebarTarget {
    Workspace(WorkspaceId),
    Tab(TabId),
    Pane(PaneId),
}

#[derive(Debug, PartialEq, Eq)]
pub struct SidebarRow {
    pub target: SidebarTarget,
    pub label: String,
    pub state: AgentStateKind,
}

impl View for SidebarRow {
    type V = (SidebarTarget, Seq<char>, AgentStateKind);

    open spec fn view(&self) -> (SidebarTarget, Seq<char>, AgentStateKind) {
        (self.target, self.label@, self.state)
    }
}

pub open spec fn row_views(rows: Seq<SidebarRow>) -> Seq<
    (SidebarTarget, Seq<char>, AgentStateKind),
> {
    rows.map_values(|row: SidebarRow| row@)
}

/// What a workspace is called: its name, and the last part of its directory where that
/// differs.
pub open spec fn workspace_label(workspace: WorkspaceInfo) -> Seq<char> {
    let base = match workspace.root {
        Some(root) => text::base_name(root@),
        None => None,
    };
    match base {
        Some(base) => if base == workspace.name@ {
            workspace.name@
        } else {
            workspace.name@ + "  "@ + base
        },
        None => workspace.name@,
    }
}

pub open spec fn workspace_row(workspace: WorkspaceInfo) -> (
    SidebarTarget,
    Seq<char>,
    AgentStateKind,
) {
    (
        SidebarTarget::Workspace(workspace.id),
        (if workspace.active {
            "▾"@
        } else {
            "▸"@
        }) + " "@ + workspace_label(workspace),
        workspace.state,
    )
}

pub open spec fn tab_row(tab: SidebarTabInfo) -> (SidebarTarget, Seq<char>, AgentStateKind) {
    (SidebarTarget::Tab(tab.id), "  "@ + tab.name@, tab.state)
}

/// The row of an agent; an active state carries its age.
pub open spec fn agent_row(agent: AgentInfo) -> (SidebarTarget, Seq<char>, AgentStateKind) {
    (
        SidebarTarget::Pane(agent.pane),
        match agent.state {
            AgentStateKind::Blocked | AgentStateKind::Working | AgentStateKind::Done => "    "@
                + agent.name@ + " "@ + age_text(agent.state_age_secs as nat),
            _ => "    "@ + agent.name@,
        },
        agent.state,
    )
}

pub open spec fn agent_rows(agents: Seq<AgentInfo>) -> Seq<
    (SidebarTarget, Seq<char>, AgentStateKind),
> {
    agents.map_values(|agent: AgentInfo| agent_row(agent))
}

/// The rows of the first `count` tabs, each with its agents.
pub open spec fn tab_rows(tabs: Seq<SidebarTabInfo>, count: int) -> Seq<
    (SidebarTarget, Seq<char>, AgentStateKind),
>
    decreases count,
{
    if count <= 0 {
        Seq::empty()
    } else {
        tab_rows(tabs, count - 1).push(tab_row(tabs[count - 1])) + agent_rows(
            tabs[count - 1].agents@,
        )
    }
}

/// The rows of the first `count` workspaces; only an active one shows its tabs.
pub open spec fn workspace_rows(workspaces: Seq<WorkspaceInfo>, count: int) -> Seq<
    (SidebarTarget, Seq<char>, AgentStateKind),
>
    decreases count,
{
    if count <= 0 {
        Seq::empty()
    } else {
        let workspace = workspaces[count - 1];
        let before = workspace_rows(workspaces, count - 1).push(workspace_row(workspace));
        if workspace.active {
            before + tab_rows(workspace.tabs@, workspace.tabs@.len() as int)
        } else {
            before
        }
    }
}

fn push_row(rows: &mut Vec<SidebarRow>, target: SidebarTarget, label: String, state: AgentStateKind)
    ensures
        row_views(final(rows)@) == row_views(old(rows)@).push((target, label@, state)),
{
    let ghost before = row_views(rows@);
    let ghost seen = (target, label@, state);
    rows.push(SidebarRow { target, label, state });
    assert(row_views(rows@) =~= before.push(seen));
}

fn label_for(workspace: &WorkspaceInfo) -> (r: String)
    ensures
        r@ == workspace_label(*workspace),
{
    let base = match &workspace.root {
        Some(root) => text::file_name(root.as_str()),
        None => None,
    };
    match base {
        Some(base) => if text::same(base.as_str(), workspace.name.as_str()) {
            workspace.name.clone()
        } else {
            text::cat3(workspace.name.as_str(), "  ", base.as_str())
        },
        None => workspace.name.clone(),
    }
}

fn push_tab(rows: &mut Vec<SidebarRow>, tab: &SidebarTabInfo)
    ensures
        row_views(final(rows)@) == row_views(old(rows)@).push(tab_row(*tab)) + agent_rows(
            tab.agents@,
        ),
{
    push_row(
        rows,
        SidebarTarget::Tab(tab.id),
        text::cat("  ", tab.name.as_str()),
        tab.state,
    );
    let ghost base = row_views(rows@);
    let ghost all = agent_rows(tab.agents@);
    let mut i: usize = 0;
    assert(base + all.take(0) =~= base);
    while i < tab.agents.len()
        invariant
            i <= tab.agents@.len(),
            all == agent_rows(tab.agents@),
            row_views(rows@) == base + all.take(i as int),
        decreases tab.agents@.len() - i,
    {
        let agent = &tab.agents[i];
        let label = match agent.state {
            AgentStateKind::Blocked | AgentStateKind::Working | AgentStateKind::Done => {
                let age = format_age(agent.state_age_secs);
                let mut label = text::cat3("    ", agent.name.as_str(), " ");
                label.append(age.as_str());
                label
            },
            _ => text::cat("    ", agent.name.as_str()),
        };
        push_row(rows, SidebarTarget::Pane(agent.pane), label, agent.state);
        assert(base + all.take(i + 1) =~= (base + all.take(i as int)).push(all[i as int]));
        i += 1;
    }
    assert(all.take(i as int) =~= all);
}

/// The rows of the sidebar.
pub fn sidebar_rows(layout: &LayoutSnapshot) -> (r: Vec<SidebarRow>)
    ensures
        row_views(r@) == workspace_rows(layout.workspaces@, layout.workspaces@.len() as int),
{
    let list = &layout.workspaces;
    let mut rows: Vec<SidebarRow> = Vec::new();
    let mut w: usize = 0;
    assert(row_views(rows@) =~= Seq::empty());
    while w < list.len()
        invariant
            w <= list@.len(),
            list@ == layout.workspaces@,
            row_views(rows@) == workspace_rows(list@, w as int),
        decreases list@.len() - w,
    {
        let workspace = &list[w];
        let name = label_for(workspace);
        let mark = if workspace.active {
            "▾"
        } else {
            "▸"
        };
        push_row(
            &mut rows,
            SidebarTarget::Workspace(workspace.id),
            text::cat3(mark, " ", name.as_str()),
            workspace.state,
        );
        if workspace.active {
            let ghost base = row_views(rows@);
            let mut t: usize = 0;
            assert(base + tab_rows(workspace.tabs@, 0) =~= base);
            while t < workspace.tabs.len()
                invariant
                    t <= workspace.tabs@.len(),
                    row_views(rows@) == base + tab_rows(workspace.tabs@, t as int),
                decreases workspace.tabs@.len() - t,
            {
                push_tab(&mut rows, &workspace.tabs[t]);
                assert(base + tab_rows(workspace.tabs@, t + 1) =~= (base + tab_rows(
                    workspace.tabs@,
                    t as int,
                )).push(tab_row(workspace.tabs@[t as int])) + agent_rows(
                    workspace.tabs@[t as int].agents@,
                ));
                t += 1;
            }
        }
        w += 1;
    }
    rows
}

/// The row at a line of the screen; headings are none.
pub fn sidebar_row_at(rows: &[SidebarRow], row: u16) -> (r: Option<&SidebarRow>)
    ensures
        match r {
            Some(found) => row >= SIDEBAR_HEADER_ROWS && row - SIDEBAR_HEADER_ROWS < rows@.len()
                && *found == rows@[row - SIDEBAR_HEADER_ROWS],
            None => row < SIDEBAR_HEADER_ROWS || row - SIDEBAR_HEADER_ROWS >= rows@.len(),
        },
{
    if row < SIDEBAR_HEADER_ROWS {
        return None;
    }
    let index: usize = (row - SIDEBAR_HEADER_ROWS) as usize;
    if index < rows.len() {
        Some(&rows[index])
    } else {
        None
    }
}

/// How many rows fit below the heading.
pub open spec fn rows_shown(count: int, area: Rect) -> int {
    num::max(0, num::min(count, area.bottom_edge() - area.y - SIDEBAR_HEADER_ROWS))
}

/// How the row at an index is drawn, and where.
pub open spec fn sidebar_line(
    row: (SidebarTarget, Seq<char>, AgentStateKind),
    index: int,
    area: Rect,
    navigate: Option<usize>,
    theme: Theme,
) -> ((Seq<char>, Style), int) {
    (
        (
            ellipsized(row.1 + " "@ + row_mark(row.2), area.width as int),
            if navigate matches Some(at) && at == index {
                colored(Some(theme.sidebar_bg), Some(theme.accent))
            } else {
                colored(Some(tint(theme, row.2)), Some(theme.sidebar_bg))
            },
        ),
        area.y + SIDEBAR_HEADER_ROWS + index,
    )
}

/// A span and the row of the screen that it goes to.
pub open spec fn line_views(lines: Seq<(Span, u16)>) -> Seq<((Seq<char>, Style), int)> {
    lines.map_values(|line: (Span, u16)| (line.0@, line.1 as int))
}

/// The sidebar rows as they are drawn, below the heading and down to the end of the
/// area.
pub fn sidebar_lines(
    rows: &Vec<SidebarRow>,
    area: Rect,
    navigate: Option<usize>,
    theme: &Theme,
) -> (r: Vec<(Span, u16)>)
    ensures
        line_views(r@) == Seq::new(
            rows_shown(rows@.len() as int, area) as nat,
            |i: int| sidebar_line(row_views(rows@)[i], i, area, navigate, *theme),
        ),
{
    let ghost all = Seq::new(
        rows_shown(rows@.len() as int, area) as nat,
        |i: int| sidebar_line(row_views(rows@)[i], i, area, navigate, *theme),
    );
    let bottom: u32 = area.bottom() as u32;
    let mut lines: Vec<(Span, u16)> = Vec::new();
    let mut i: usize = 0;
    let mut y: u32 = area.y as u32 + SIDEBAR_HEADER_ROWS as u32;
    assert(line_views(lines@) =~= all.take(0));
    while i < rows.len() && y < bottom
        invariant
            bottom == area.bottom_edge(),
            i <= rows@.len(),
            y == area.y + SIDEBAR_HEADER_ROWS + i,
            i > 0 ==> y <= bottom,
            all == Seq::new(
                rows_shown(rows@.len() as int, area) as nat,
                |i: int| sidebar_line(row_views(rows@)[i], i, area, navigate, *theme),
            ),
            i <= all.len(),
            line_views(lines@) == all.take(i as int),
        decreases rows@.len() - i,
    {
        let row = &rows[i];
        assert(row_views(rows@)[i as int] == row@);
        let full = text::cat3(row.label.as_str(), " ", sidebar_dot(row.state));
        let text = truncate_ellipsis(full.as_str(), area.width as usize);
        let chosen = match navigate {
            Some(at) => at == i,
            None => false,
        };
        let style = if chosen {
            colors(Some(theme.sidebar_bg), Some(theme.accent))
        } else {
            colors(Some(state_color(theme, row.state)), Some(theme.sidebar_bg))
        };
        let ghost before = line_views(lines@);
        let ghost seen = ((text@, style), y as int);
        lines.push((Span { text, style }, y as u16));
        assert(line_views(lines@) =~= before.push(seen));
        assert(all[i as int] == seen);
        assert(all.take(i + 1) =~= all.take(i as int).push(all[i as int]));
        i += 1;
        y += 1;
    }
    assert(all.take(i as int) =~= all);
    lines
}

// ------------------------------------------------------------------------------- panes

/// The color of a cell: the first sixteen come from the theme, the rest are the
/// terminal's own.
pub open spec fn cell_tint(color: CellColor, theme: Theme) -> Option<Color> {
    match color {
        CellColor::Default => None,
        CellColor::Indexed(index) => if index < theme.ansi@.len() {
            Some(theme.ansi@[index as int])
        } else {
            Some(Color::Indexed(index))
        },
        CellColor::Rgb(red, green, blue) => Some(Color::Rgb(red, green, blue)),
    }
}

fn cell_color(color: CellColor, theme: &Theme) -> (r: Option<Color>)
    ensures
        r == cell_tint(color, *theme),
{
    match color {
        CellColor::Default => None,
        CellColor::Indexed(index) => if (index as usize) < theme.ansi.len() {
            Some(theme.ansi[index as usize])
        } else {
            Some(Color::Indexed(index))
        },
        CellColor::Rgb(red, green, blue) => Some(Color::Rgb(red, green, blue)),
    }
}

/// How a run of cells is drawn; colors that it leaves open are those of the theme.
pub open spec fn run_style(run: Run, theme: Theme) -> Style {
    Style {
        fg: Some(
            match cell_tint(run.fg, theme) {
                Some(color) => color,
                None => theme.text,
            },
        ),
        bg: Some(
            match cell_tint(run.bg, theme) {
                Some(color) => color,
                None => theme.bg,
            },
        ),
        bold: run.attrs & ATTR_BOLD != 0,
        italic: run.attrs & ATTR_ITALIC != 0,
        underlined: run.attrs & ATTR_UNDERLINE != 0,
        dim: run.attrs & ATTR_DIM != 0,
        reversed: run.attrs & ATTR_INVERSE != 0,
    }
}

fn style_of(run: &Run, theme: &Theme) -> (r: Style)
    ensures
        r == run_style(*run, *theme),
{
    Style {
        fg: Some(
            match cell_color(run.fg, theme) {
                Some(color) => color,
                None => theme.text,
            },
        ),
        bg: Some(
            match cell_color(run.bg, theme) {
                Some(color) => color,
                None => theme.bg,
            },
        ),
        bold: run.attrs & ATTR_BOLD != 0,
        italic: run.attrs & ATTR_ITALIC != 0,
        underlined: run.attrs & ATTR_UNDERLINE != 0,
        dim: run.attrs & ATTR_DIM != 0,
        reversed: run.attrs & ATTR_INVERSE != 0,
    }
}

/// Whether a cell is selected.
pub open spec fn selected_cell(selection: Selection, row: int, column: int) -> bool {
    let cell = (row as usize, num::min(column, usize::MAX as int) as usize);
    !selection::cell_before(cell, selection.bounds().0) && selection::cell_before(
        cell,
        selection.bounds().1,
    )
}

/// The longest stretches of a run that are selected as a whole, or not at all.
pub open spec fn stretches(s: Seq<char>, selection: Selection, row: int, column: int) -> Seq<
    (Seq<char>, bool),
>
    decreases s.len(),
{
    if s.len() == 0 {
        Seq::empty()
    } else {
        let before = stretches(s.drop_last(), selection, row, column);
        let now = selected_cell(selection, row, column + s.len() - 1);
        if before.len() > 0 && before.last().1 == now {
            before.drop_last().push((before.last().0.push(s.last()), now))
        } else {
            before.push((seq![s.last()], now))
        }
    }
}

/// How a stretch is drawn.
pub open spec fn stretch_style(style: Style, theme: Theme, selected: bool) -> Style {
    if selected {
        Style { bg: Some(theme.selection), ..style }
    } else {
        style
    }
}

pub open spec fn drawn(pieces: Seq<(Seq<char>, bool)>, style: Style, theme: Theme) -> Seq<
    (Seq<char>, Style),
> {
    pieces.map_values(
        |piece: (Seq<char>, bool)| (piece.0, stretch_style(style, theme, piece.1)),
    )
}

/// A run as it is drawn: in one piece, or divided where the selection begins and ends.
pub open spec fn run_pieces(
    run: Run,
    theme: Theme,
    row: int,
    column: int,
    selection: Option<Selection>,
) -> Seq<(Seq<char>, Style)> {
    let style = run_style(run, theme);
    match selection {
        None => seq![(run.text@, style)],
        Some(selection) => drawn(stretches(run.text@, selection, row, column), style, theme),
    }
}

fn push_run(
    spans: &mut Vec<Span>,
    run: &Run,
    theme: &Theme,
    row: usize,
    column: usize,
    selection: &Option<Selection>,
)
    ensures
        span_views(final(spans)@) == span_views(old(spans)@) + run_pieces(
            *run,
            *theme,
            row as int,
            column as int,
            *selection,
        ),
{
    let ghost base = span_views(spans@);
    let style = style_of(run, theme);
    let selection = match selection {
        None => {
            push_span(spans, run.text.clone(), style);
            assert(base.push((run.text@, style)) =~= base + seq![(run.text@, style)]);
            return;
        },
        Some(selection) => selection,
    };
    let highlight = Style {
        fg: style.fg,
        bg: Some(theme.selection),
        bold: style.bold,
        italic: style.italic,
        underlined: style.underlined,
        dim: style.dim,
        reversed: style.reversed,
    };
    let chars = text::chars_of(run.text.as_str());
    let ghost all = run.text@;
    let mut chunk = String::new();
    let mut chosen = false;
    let mut i: usize = 0;
    let ghost mut done: Seq<(Seq<char>, bool)> = Seq::empty();
    assert(chunk@ =~= Seq::<char>::empty());
    assert(all.take(0) =~= Seq::empty());
    assert(base + drawn(done, style, *theme) =~= base);
    while i < chars.len()
        invariant
            i <= chars@.len(),
            chars@ == all,
            highlight == stretch_style(style, *theme, true),
            stretches(all.take(i as int), *selection, row as int, column as int) == (
            if chunk@.len() == 0 {
                done
            } else {
                done.push((chunk@, chosen))
            }),
            i == 0 ==> chunk@.len() == 0,
            i > 0 ==> chunk@.len() > 0,
            i == 0 ==> done.len() == 0,
            span_views(spans@) == base + drawn(done, style, *theme),
        decreases chars@.len() - i,
    {
        let ghost now_all = all.take(i + 1);
        assert(now_all.drop_last() =~= all.take(i as int));
        assert(now_all.last() == all[i as int]);
        let ghost before = stretches(
            all.take(i as int),
            *selection,
            row as int,
            column as int,
        );
        let now = selection.contains(row, column.saturating_add(i));
        let ghost old_chunk = chunk@;
        if i > 0 && now != chosen {
            let piece_style = if chosen {
                highlight
            } else {
                style
            };
            let ghost held = spans@;
            push_span(spans, chunk.clone(), piece_style);
            proof {
                let next = done.push((chunk@, chosen));
                assert(drawn(next, style, *theme) =~= drawn(done, style, *theme).push(
                    (chunk@, stretch_style(style, *theme, chosen)),
                ));
                assert(base + drawn(next, style, *theme) =~= (base + drawn(
                    done,
                    style,
                    *theme,
                )).push((chunk@, stretch_style(style, *theme, chosen))));
                done = next;
            }
            chunk = String::new();
            assert(chunk@ =~= Seq::<char>::empty());
        }
        let ghost kept = chunk@;
        chosen = now;
        chunk.push(chars[i]);
        proof {
            if kept.len() == 0 {
                assert(chunk@ =~= seq![all[i as int]]);
                assert(before == done);
                assert(before.len() == 0 || before.last().1 != now);
            } else {
                assert(before == done.push((kept, now)));
                assert(before.drop_last() =~= done);
            }
            assert(stretches(now_all, *selection, row as int, column as int) =~= done.push(
                (chunk@, chosen),
            ));
        }
        i += 1;
    }
    assert(all.take(i as int) =~= all);
    if i > 0 {
        let piece_style = if chosen {
            highlight
        } else {
            style
        };
        let ghost last = chunk@;
        push_span(spans, chunk, piece_style);
        proof {
            let next = done.push((last, chosen));
            assert(drawn(next, style, *theme) =~= drawn(done, style, *theme).push(
                (last, stretch_style(style, *theme, chosen)),
            ));
            assert(base + drawn(next, style, *theme) =~= (base + drawn(
                done,
                style,
                *theme,
            )).push((last, stretch_style(style, *theme, chosen))));
        }
    }
}

/// Dividing a run for the selection loses no character.
pub proof fn law_selection_keeps_the_text(
    s: Seq<char>,
    selection: Selection,
    row: int,
    column: int,
)
    ensures
        text::joined(
            stretches(s, selection, row, column).map_values(|p: (Seq<char>, bool)| p.0),
            ""@,
        ) == s,
    decreases s.len(),
{
    reveal_strlit("");
    let pieces = stretches(s, selection, row, column);
    let texts = pieces.map_values(|p: (Seq<char>, bool)| p.0);
    if s.len() > 0 {
        law_selection_keeps_the_text(s.drop_last(), selection, row, column);
        let before = stretches(s.drop_last(), selection, row, column);
        let old_texts = before.map_values(|p: (Seq<char>, bool)| p.0);
        let now = selected_cell(selection, row, column + s.len() - 1);
        assert(s.drop_last().push(s.last()) =~= s);
        if before.len() > 0 && before.last().1 == now {
            assert(texts =~= old_texts.drop_last().push(old_texts.last().push(s.last())));
            lemma_joined_last(old_texts.drop_last(), old_texts.last());
            lemma_joined_last(old_texts.drop_last(), old_texts.last().push(s.last()));
            assert(old_texts.drop_last().push(old_texts.last()) =~= old_texts);
            assert((text::joined(old_texts.drop_last(), ""@) + old_texts.last()).push(s.last())
                =~= text::joined(old_texts.drop_last(), ""@) + old_texts.last().push(s.last()));
        } else {
            assert(texts =~= old_texts.push(seq![s.last()]));
            lemma_joined_last(old_texts, seq![s.last()]);
            assert(s.drop_last() + seq![s.last()] =~= s);
        }
    }
}

/// Joining without a separator is concatenation.
proof fn lemma_joined_last(parts: Seq<Seq<char>>, last: Seq<char>)
    ensures
        text::joined(parts.push(last), ""@) == text::joined(parts, ""@) + last,
    decreases parts.len(),
{
    reveal_strlit("");
    let all = parts.push(last);
    if parts.len() == 0 {
        assert(all =~= seq![last]);
        reveal_with_fuel(text::joined, 2);
        assert(text::joined(all, ""@) =~= last);
        assert(text::joined(parts, ""@) + last =~= last);
    } else {
        reveal_with_fuel(text::joined, 2);
        assert(all.drop_last() =~= parts);
        assert(text::joined(all, ""@) =~= text::joined(parts, ""@) + last);
    }
}

/// The columns before a run, held to what can be counted.
pub open spec fn columns_before(runs: Seq<Run>, count: int) -> int
    decreases count,
{
    if count <= 0 {
        0
    } else {
        num::min(
            columns_before(runs, count - 1) + runs[count - 1].text@.len(),
            usize::MAX as int,
        )
    }
}

/// The first `count` runs of a row as they are drawn.
pub open spec fn row_pieces(
    runs: Seq<Run>,
    theme: Theme,
    row: int,
    selection: Option<Selection>,
    count: int,
) -> Seq<(Seq<char>, Style)>
    decreases count,
{
    if count <= 0 {
        Seq::empty()
    } else {
        row_pieces(runs, theme, row, selection, count - 1) + run_pieces(
            runs[count - 1],
            theme,
            row,
            columns_before(runs, count - 1),
            selection,
        )
    }
}

fn row_spans(runs: &Vec<Run>, theme: &Theme, row: usize, selection: &Option<Selection>) -> (r: Vec<
    Span,
>)
    ensures
        span_views(r@) == row_pieces(
            runs@,
            *theme,
            row as int,
            *selection,
            runs@.len() as int,
        ),
{
    let mut spans: Vec<Span> = Vec::new();
    let mut column: usize = 0;
    let mut i: usize = 0;
    assert(span_views(spans@) =~= Seq::empty());
    while i < runs.len()
        invariant
            i <= runs@.len(),
            column == columns_before(runs@, i as int),
            span_views(spans@) == row_pieces(
                runs@,
                *theme,
                row as int,
                *selection,
                i as int,
            ),
        decreases runs@.len() - i,
    {
        push_run(&mut spans, &runs[i], theme, row, column, selection);
        column = column.saturating_add(runs[i].text.as_str().unicode_len());
        i += 1;
    }
    spans
}

/// The lines of a pane as they are drawn, for the live screen and for copy mode alike.
pub fn pane_lines(screen: &Screen, theme: &Theme, selection: &Option<Selection>) -> (r: Vec<
    Vec<Span>,
>)
    ensures
        r@.len() == screen.rows@.len(),
        forall|row: int|
            0 <= row < r@.len() ==> span_views(#[trigger] r@[row]@) == row_pieces(
                screen.rows@[row]@,
                *theme,
                row,
                *selection,
                screen.rows@[row]@.len() as int,
            ),
{
    let mut lines: Vec<Vec<Span>> = Vec::new();
    let mut row: usize = 0;
    while row < screen.rows.len()
        invariant
            row <= screen.rows@.len(),
            lines@.len() == row,
            forall|k: int|
                0 <= k < row ==> span_views(#[trigger] lines@[k]@) == row_pieces(
                    screen.rows@[k]@,
                    *theme,
                    k,
                    *selection,
                    screen.rows@[k]@.len() as int,
                ),
        decreases screen.rows@.len() - row,
    {
        lines.push(row_spans(&screen.rows[row], theme, row, selection));
        row += 1;
    }
    lines
}

/// The cells that a character takes: at least one.
pub open spec fn char_width(c: char) -> int {
    num::max(text::cells_of(c) as int, 1)
}

/// The character of a run that covers a column, from one on; or the columns left
/// behind the run.
pub open spec fn covering(s: Seq<char>, from: int, column: int) -> Result<char, int>
    decreases s.len() - from,
{
    if from < 0 || from >= s.len() {
        Err(column)
    } else if column < char_width(s[from]) {
        Ok(s[from])
    } else {
        covering(s, from + 1, column - char_width(s[from]))
    }
}

/// The character of a row that covers a column, from a run on.
pub open spec fn covered(runs: Seq<Run>, from: int, column: int) -> Option<char>
    decreases runs.len() - from,
{
    if from < 0 || from >= runs.len() {
        None
    } else {
        match covering(runs[from].text@, 0, column) {
            Ok(c) => Some(c),
            Err(left) => covered(runs, from + 1, left),
        }
    }
}

pub open spec fn under_cursor(screen: Screen) -> Option<char> {
    if screen.cursor_row < screen.rows@.len() {
        covered(screen.rows@[screen.cursor_row as int]@, 0, screen.cursor_col as int)
    } else {
        None
    }
}

/// The character under the cursor; wide ones count for the cells that they take.
pub fn cursor_char(screen: &Screen) -> (r: Option<char>)
    ensures
        r == under_cursor(*screen),
{
    if screen.cursor_row as usize >= screen.rows.len() {
        return None;
    }
    let runs = &screen.rows[screen.cursor_row as usize];
    let mut left: usize = screen.cursor_col as usize;
    let mut i: usize = 0;
    while i < runs.len()
        invariant
            i <= runs@.len(),
            covered(runs@, i as int, left as int) == under_cursor(*screen),
        decreases runs@.len() - i,
    {
        let chars = text::chars_of(runs[i].text.as_str());
        let ghost start = left;
        let mut k: usize = 0;
        while k < chars.len()
            invariant
                i < runs@.len(),
                chars@ == runs@[i as int].text@,
                k <= chars@.len(),
                covering(chars@, 0, start as int) == covering(chars@, k as int, left as int),
                covered(runs@, i as int, start as int) == under_cursor(*screen),
            decreases chars@.len() - k,
        {
            let width: usize = num::max_usize(text::char_cells(chars[k]), 1);
            if left < width {
                return Some(chars[k]);
            }
            left = left - width;
            k += 1;
        }
        i += 1;
    }
    None
}

/// Where the block cursor of a pane goes, and the cells it takes; nothing where it is
/// hidden or not inside the border.
pub open spec fn cursor_place(screen: Screen, rect: Rect) -> Option<(int, int, int)> {
    let x = num::min(rect.x + 1 + screen.cursor_col, 0xffff);
    let y = num::min(rect.y + 1 + screen.cursor_row, 0xffff);
    let width = match under_cursor(screen) {
        Some(c) => char_width(c),
        None => 1,
    };
    if !screen.cursor_visible || x + 1 >= rect.x + rect.width || y + 1 >= rect.y + rect.height {
        None
    } else {
        Some((x, y, num::min(width, rect.x + rect.width - 1 - x)))
    }
}

/// Where the block cursor of a pane goes: column, row, and the cells it takes.
pub fn cursor_cell(screen: &Screen, rect: Rect) -> (r: Option<(u16, u16, u16)>)
    ensures
        match cursor_place(*screen, rect) {
            Some((x, y, width)) => r matches Some(at) && at.0 == x && at.1 == y && at.2 == width,
            None => r is None,
        },
{
    if !screen.cursor_visible {
        return None;
    }
    let x: u32 = rect.x.saturating_add(1).saturating_add(screen.cursor_col) as u32;
    let y: u32 = rect.y.saturating_add(1).saturating_add(screen.cursor_row) as u32;
    let right: u32 = rect.x as u32 + rect.width as u32;
    let lower: u32 = rect.y as u32 + rect.height as u32;
    if x + 1 >= right || y + 1 >= lower {
        return None;
    }
    let width: usize = match cursor_char(screen) {
        Some(c) => num::max_usize(text::char_cells(c), 1),
        None => 1,
    };
    let room: u32 = right - 1 - x;
    let cells: u32 = if width < room as usize {
        width as u32
    } else {
        room
    };
    Some((x as u16, y as u16, cells as u16))
}

/// The title of a pane: its id, its agent or title, its state, and a mark where it is
/// scrolled back.
pub open spec fn title_pieces(pane: PaneSnapshot, theme: Theme) -> Seq<(Seq<char>, Style)> {
    let dim = colored(Some(theme.dim), None);
    let name = match pane.agent {
        Some(agent) => agent@,
        None => pane.title@,
    };
    let base = seq![
        ("#"@ + text::decimal(pane.id.0 as nat) + " "@, dim),
        (name, colored(Some(theme.text), None)),
        (" — "@ + layout::state_text(pane.state), dim),
    ];
    if pane.scroll_offset > 0 {
        base.push((" [scroll]"@, colored(Some(theme.accent), None)))
    } else {
        base
    }
}

/// The title of a pane.
pub fn pane_title(pane: &PaneSnapshot, theme: &Theme) -> (r: Vec<Span>)
    ensures
        span_views(r@) == title_pieces(*pane, *theme),
{
    let dim = colors(Some(theme.dim), None);
    let number = text::decimal_text(pane.id.0);
    let name = match &pane.agent {
        Some(agent) => agent.clone(),
        None => pane.title.clone(),
    };
    let mut spans: Vec<Span> = Vec::new();
    push_span(&mut spans, text::cat3("#", number.as_str(), " "), dim);
    push_span(&mut spans, name, colors(Some(theme.text), None));
    push_span(&mut spans, text::cat(" — ", layout::state_name(pane.state)), dim);
    if pane.scroll_offset > 0 {
        push_span(&mut spans, " [scroll]".to_owned(), colors(Some(theme.accent), None));
    }
    assert(span_views(spans@) =~= title_pieces(*pane, *theme));
    spans
}

/// What stands on the right of a wide pane's border: the last part of its directory.
pub fn pane_directory(pane: &PaneSnapshot, width: u16) -> (r: Option<String>)
    ensures
        text::option_text(r) == (if width < 30 {
            None
        } else {
            match pane.cwd {
                Some(cwd) => text::base_name(cwd@),
                None => None,
            }
        }),
{
    if width < 30 {
        return None;
    }
    match &pane.cwd {
        Some(cwd) => text::file_name(cwd.as_str()),
        None => None,
    }
}

/// A pane id in the middle of its pane: the label, its column and row, and its width.
pub fn pane_flash(id: PaneId, rect: Rect) -> (r: Option<(String, u16, u16, u16)>)
    ensures
        match r {
            None => rect.width <= 2 || rect.height <= 2,
            Some((label, x, y, width)) => {
                &&& rect.width > 2 && rect.height > 2
                &&& label@ == " "@ + text::decimal(id.0 as nat) + " "@
                &&& width == num::min(label@.len() as int, rect.width as int)
                &&& x == num::min(rect.x + (rect.width - width) / 2, 0xffff)
                &&& y == num::min(rect.y + rect.height as int / 2, 0xffff)
            },
        },
{
    if rect.width <= 2 || rect.height <= 2 {
        return None;
    }
    let number = text::decimal_text(id.0);
    let label = text::cat3(" ", number.as_str(), " ");
    let count: usize = label.as_str().unicode_len();
    let width: u16 = if count < rect.width as usize {
        count as u16
    } else {
        rect.width
    };
    let x: u16 = rect.x.saturating_add((rect.width - width) / 2);
    let y: u16 = rect.y.saturating_add(rect.height / 2);
    Some((label, x, y, width))
}

// -------------------------------------------------------------------------- status bar

/// What can stand on the right of the status bar.
#[derive(Debug, Clone, Copy, PartialEq, Eq, Structural)]
pub enum StatusWidget {
    Zoom,
    Blocked,
    Hostname,
    Time,
}

pub open spec fn blocked_in(agents: Seq<AgentInfo>, count: int) -> int
    decreases count,
{
    if count <= 0 {
        0
    } else {
        blocked_in(agents, count - 1) + (if agents[count - 1].state == AgentStateKind::Blocked {
            1int
        } else {
            0int
        })
    }
}

pub open spec fn blocked_tabs(tabs: Seq<SidebarTabInfo>, count: int) -> int
    decreases count,
{
    if count <= 0 {
        0
    } else {
        blocked_tabs(tabs, count - 1) + blocked_in(
            tabs[count - 1].agents@,
            tabs[count - 1].agents@.len() as int,
        )
    }
}

/// The blocked agents of the first `count` workspaces.
pub open spec fn blocked_agents(workspaces: Seq<WorkspaceInfo>, count: int) -> int
    decreases count,
{
    if count <= 0 {
        0
    } else {
        blocked_agents(workspaces, count - 1) + blocked_tabs(
            workspaces[count - 1].tabs@,
            workspaces[count - 1].tabs@.len() as int,
        )
    }
}

/// The blocked agents of every workspace, held to what can be counted.
pub fn blocked_count(layout: &LayoutSnapshot) -> (r: u64)
    ensures
        r == num::min(
            blocked_agents(layout.workspaces@, layout.workspaces@.len() as int),
            u64::MAX as int,
        ),
{
    let list = &layout.workspaces;
    let mut total: u64 = 0;
    let mut w: usize = 0;
    while w < list.len()
        invariant
            w <= list@.len(),
            list@ == layout.workspaces@,
            total == num::min(blocked_agents(list@, w as int), u64::MAX as int),
            blocked_agents(list@, w as int) >= 0,
        decreases list@.len() - w,
    {
        let tabs = &list[w].tabs;
        let ghost base = blocked_agents(list@, w as int);
        let mut t: usize = 0;
        while t < tabs.len()
            invariant
                t <= tabs@.len(),
                base >= 0,
                blocked_tabs(tabs@, t as int) >= 0,
                total == num::min(base + blocked_tabs(tabs@, t as int), u64::MAX as int),
            decreases tabs@.len() - t,
        {
            let agents = &tabs[t].agents;
            let ghost inner = base + blocked_tabs(tabs@, t as int);
            let mut a: usize = 0;
            while a < agents.len()
                invariant
                    a <= agents@.len(),
                    inner >= 0,
                    blocked_in(agents@, a as int) >= 0,
                    total == num::min(inner + blocked_in(agents@, a as int), u64::MAX as int),
                decreases agents@.len() - a,
            {
                if agents[a].state == AgentStateKind::Blocked {
                    total = total.saturating_add(1);
                }
                a += 1;
            }
            t += 1;
        }
        w += 1;
    }
    total
}

/// What a widget shows.
pub open spec fn widget_piece(
    widget: StatusWidget,
    zoomed: bool,
    blocked: u64,
    host: Seq<char>,
    time: Seq<char>,
    theme: Theme,
) -> Option<(Seq<char>, Style)> {
    let dim = colored(Some(theme.dim), Some(theme.status_bg));
    match widget {
        StatusWidget::Zoom => if zoomed {
            Some(("[zoom]"@, colored(Some(theme.accent), Some(theme.status_bg))))
        } else {
            None
        },
        StatusWidget::Blocked => if blocked > 0 {
            Some(
                (
                    "● "@ + text::decimal(blocked as nat) + " blocked"@,
                    colored(Some(theme.blocked), Some(theme.status_bg)),
                ),
            )
        } else {
            None
        },
        StatusWidget::Hostname => Some((host, dim)),
        StatusWidget::Time => Some((time, dim)),
    }
}

/// The first `count` widgets with two columns between them.
pub open spec fn widget_pieces(
    widgets: Seq<StatusWidget>,
    zoomed: bool,
    blocked: u64,
    host: Seq<char>,
    time: Seq<char>,
    theme: Theme,
    count: int,
) -> Seq<(Seq<char>, Style)>
    decreases count,
{
    if count <= 0 {
        Seq::empty()
    } else {
        let before = widget_pieces(widgets, zoomed, blocked, host, time, theme, count - 1);
        match widget_piece(widgets[count - 1], zoomed, blocked, host, time, theme) {
            None => before,
            Some(piece) => if before.len() == 0 {
                before.push(piece)
            } else {
                before.push(
                    ("  "@, colored(Some(theme.dim), Some(theme.status_bg))),
                ).push(piece)
            },
        }
    }
}

/// The widgets on the right of the status bar, in order, with a column behind them.
/// `host` and `time` are the name of the machine and the time of day.
pub fn status_right_spans(
    widgets: &Vec<StatusWidget>,
    layout: &LayoutSnapshot,
    host: &str,
    time: &str,
    theme: &Theme,
) -> (r: Vec<Span>)
    ensures
        ({
            let blocked = num::min(
                blocked_agents(layout.workspaces@, layout.workspaces@.len() as int),
                u64::MAX as int,
            ) as u64;
            let pieces = widget_pieces(
                widgets@,
                layout.zoomed,
                blocked,
                host@,
                time@,
                *theme,
                widgets@.len() as int,
            );
            span_views(r@) == (if pieces.len() == 0 {
                pieces
            } else {
                pieces.push((" "@, colored(Some(theme.dim), Some(theme.status_bg))))
            })
        }),
{
    let dim = colors(Some(theme.dim), Some(theme.status_bg));
    let blocked = blocked_count(layout);
    let mut spans: Vec<Span> = Vec::new();
    let mut i: usize = 0;
    assert(span_views(spans@) =~= Seq::empty());
    while i < widgets.len()
        invariant
            i <= widgets@.len(),
            dim == colored(Some(theme.dim), Some(theme.status_bg)),
            span_views(spans@) == widget_pieces(
                widgets@,
                layout.zoomed,
                blocked,
                host@,
                time@,
                *theme,
                i as int,
            ),
        decreases widgets@.len() - i,
    {
        let piece = match widgets[i] {
            StatusWidget::Zoom => if layout.zoomed {
                Some(
                    (
                        "[zoom]".to_owned(),
                        colors(Some(theme.accent), Some(theme.status_bg)),
                    ),
                )
            } else {
                None
            },
            StatusWidget::Blocked => if blocked > 0 {
                let number = text::decimal_text(blocked);
                Some(
                    (
                        text::cat3("● ", number.as_str(), " blocked"),
                        colors(Some(theme.blocked), Some(theme.status_bg)),
                    ),
                )
            } else {
                None
            },
            StatusWidget::Hostname => Some((host.to_owned(), dim)),
            StatusWidget::Time => Some((time.to_owned(), dim)),
        };
        if let Some((text, style)) = piece {
            assert(span_views(spans@).len() == spans@.len());
            if spans.len() > 0 {
                push_span(&mut spans, "  ".to_owned(), dim);
            }
            push_span(&mut spans, text, style);
        }
        i += 1;
    }
    assert(span_views(spans@).len() == spans@.len());
    if spans.len() > 0 {
        push_span(&mut spans, " ".to_owned(), dim);
    }
    spans
}

/// Whether a pane shows its cursor: only the live pane with the focus does, and none
/// while copy mode is open.
pub fn shows_cursor(pane: &PaneSnapshot, copying: bool) -> (r: bool)
    ensures
        r == (pane.focused && !copying && pane.scroll_offset == 0),
{
    pane.focused && !copying && pane.scroll_offset == 0
}

/// What the left of the status bar depends on.
#[derive(Debug, PartialEq, Eq)]
pub struct Ui {
    pub prefix: bool,
    pub rename: bool,
    /// The prompt for a new workspace; it shares the text of the rename prompt.
    pub new_workspace: bool,
    pub name: String,
    pub navigate: bool,
    pub copy: bool,
    pub resize: bool,
    pub confirm: Option<String>,
    pub session: String,
    /// Show how the sidebar is opened.
    pub sidebar_hint: bool,
}

/// The name of the active tab in the active workspace.
pub open spec fn shown_tab(layout: LayoutSnapshot) -> Seq<char> {
    match layout::tab_in_use(layout) {
        Some(tab) => tab.name@,
        None => Seq::empty(),
    }
}

/// The name of the active tab, empty where there is none.
pub fn active_tab_name(layout: &LayoutSnapshot) -> (r: String)
    ensures
        r@ == shown_tab(*layout),
{
    match layout::find_active_tab(layout) {
        Some(tab) => tab.name.clone(),
        None => {
            let empty = String::new();
            assert(empty@ =~= Seq::<char>::empty());
            empty
        },
    }
}

/// The left of the status bar: a question or a mode, else where the client is. After
/// the prefix it shows the keys that are bound.
pub open spec fn status_text(ui: Ui, layout: LayoutSnapshot, bindings: Seq<Binding>) -> Seq<char> {
    if ui.confirm is Some {
        " "@ + ui.confirm->0@
    } else if ui.rename {
        " rename pane: "@ + ui.name@
    } else if ui.resize {
        " resize · hjkl 1 · HJKL 5 · esc"@
    } else if ui.new_workspace {
        " new workspace: "@ + ui.name@
    } else if ui.copy {
        " copy mode · v select · y copy · esc exit"@
    } else if ui.navigate {
        " navigate · j/k move · enter activate · esc exit"@
    } else if ui.prefix {
        " prefix: "@ + text::joined(help::hint(bindings), " "@)
    } else {
        (if ui.sidebar_hint {
            " ▸ prefix b · sidebar · "@
        } else {
            " "@
        }) + ui.session@ + " · "@ + workspace_title(layout.workspaces@) + " · "@ + shown_tab(layout)
    }
}

/// The left of the status bar.
pub fn status_left(ui: &Ui, layout: &LayoutSnapshot, bindings: &Vec<Binding>) -> (r: String)
    ensures
        r@ == status_text(*ui, *layout, bindings@),
{
    if let Some(confirm) = &ui.confirm {
        return text::cat(" ", confirm.as_str());
    }
    if ui.rename {
        text::cat(" rename pane: ", ui.name.as_str())
    } else if ui.resize {
        " resize · hjkl 1 · HJKL 5 · esc".to_owned()
    } else if ui.new_workspace {
        text::cat(" new workspace: ", ui.name.as_str())
    } else if ui.copy {
        " copy mode · v select · y copy · esc exit".to_owned()
    } else if ui.navigate {
        " navigate · j/k move · enter activate · esc exit".to_owned()
    } else if ui.prefix {
        text::cat(" prefix: ", help::prefix_hint(bindings).as_str())
    } else {
        let lead = if ui.sidebar_hint {
            " ▸ prefix b · sidebar · "
        } else {
            " "
        };
        let tab = active_tab_name(layout);
        let mut out = text::cat3(lead, ui.session.as_str(), " · ");
        out.append(workspace_name(layout));
        out.append(" · ");
        out.append(tab.as_str());
        out
    }
}

// -------------------------------------------------------------------------------- menu

pub open spec fn action_title(action: MenuAction) -> Seq<char> {
    match action {
        MenuAction::SplitRight => "Split right"@,
        MenuAction::SplitDown => "Split down"@,
        MenuAction::Rename => "Rename"@,
        MenuAction::Zoom => "Zoom"@,
        MenuAction::Close => "Close"@,
        MenuAction::BreakToTab => "Break to tab"@,
        MenuAction::Equalize => "Equalize"@,
        MenuAction::MoveLeft => "Move left"@,
        MenuAction::MoveRight => "Move right"@,
        MenuAction::Help => "Help"@,
        MenuAction::Color => "Color"@,
    }
}

fn menu_label(action: MenuAction) -> (r: &'static str)
    ensures
        r@ == action_title(action),
{
    match action {
        MenuAction::SplitRight => "Split right",
        MenuAction::SplitDown => "Split down",
        MenuAction::Rename => "Rename",
        MenuAction::Zoom => "Zoom",
        MenuAction::Close => "Close",
        MenuAction::BreakToTab => "Break to tab",
        MenuAction::Equalize => "Equalize",
        MenuAction::MoveLeft => "Move left",
        MenuAction::MoveRight => "Move right",
        MenuAction::Help => "Help",
        MenuAction::Color => "Color",
    }
}

/// How a menu entry is drawn, and its row.
pub open spec fn menu_line(menu: Menu, index: int, theme: Theme) -> ((Seq<char>, Style), int) {
    (
        (
            action_title(mode::menu_actions(menu.target)[index]),
            if index == menu.selected {
                colored(Some(theme.menu_bg), Some(theme.accent))
            } else {
                colored(Some(theme.menu_fg), Some(theme.menu_bg))
            },
        ),
        menu.y + index,
    )
}

/// How many entries of a menu fit above the end of the screen.
pub open spec fn entries_shown(menu: Menu, height: int) -> int {
    num::max(0, num::min(mode::menu_actions(menu.target).len() as int, height - menu.y))
}

/// A menu as it is drawn: its entries with their rows, its column and its width. It
/// goes to the left of the pointer where it would not fit to the right.
pub fn menu_lines(menu: &Menu, area: Rect, theme: &Theme) -> (r: (Vec<(Span, u16)>, u16, u16))
    ensures
        line_views(r.0@) == Seq::new(
            entries_shown(*menu, area.height as int) as nat,
            |i: int| menu_line(*menu, i, *theme),
        ),
        r.1 == mode::menu_left(menu.x as int, area.width as int),
        r.2 == num::min(
            mode::MENU_WIDTH as int,
            num::max(0, area.width - mode::menu_left(menu.x as int, area.width as int)),
        ),
{
    let ghost all = Seq::new(
        entries_shown(*menu, area.height as int) as nat,
        |i: int| menu_line(*menu, i, *theme),
    );
    let actions = menu.actions();
    let x: u16 = mode::menu_origin_x(menu.x, area.width);
    let width: u16 = num::min_u16(mode::MENU_WIDTH, area.width.saturating_sub(x));
    let mut lines: Vec<(Span, u16)> = Vec::new();
    let mut i: usize = 0;
    let mut y: u32 = menu.y as u32;
    assert(line_views(lines@) =~= all.take(0));
    while i < actions.len() && y < area.height as u32
        invariant
            actions@ == mode::menu_actions(menu.target),
            i <= actions@.len(),
            y == menu.y + i,
            i > 0 ==> y <= area.height,
            all == Seq::new(
                entries_shown(*menu, area.height as int) as nat,
                |i: int| menu_line(*menu, i, *theme),
            ),
            i <= all.len(),
            line_views(lines@) == all.take(i as int),
        decreases actions@.len() - i,
    {
        let style = if i == menu.selected {
            colors(Some(theme.menu_bg), Some(theme.accent))
        } else {
            colors(Some(theme.menu_fg), Some(theme.menu_bg))
        };
        let text = menu_label(actions[i]).to_owned();
        let ghost before = line_views(lines@);
        let ghost seen = ((text@, style), y as int);
        lines.push((Span { text, style }, y as u16));
        assert(line_views(lines@) =~= before.push(seen));
        assert(all[i as int] == seen);
        assert(all.take(i + 1) =~= all.take(i as int).push(all[i as int]));
        i += 1;
        y += 1;
    }
    assert(all.take(i as int) =~= all);
    (lines, x, width)
}

} // verus!
