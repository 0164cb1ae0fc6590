//! The shared centered-overlay widget.
//!
//! One list box with a title, an optional filter line, scrollable rows, and a
//! selection. The visible window is derived from the selection, so key handling
//! stays pure and the selection is always on screen.

use vstd::prelude::*;

use crate::event::{KeyCode, KeyEvent};
use crate::geometry::Rect;
use crate::num;
use crate::proto::{PaneId, TabId, WorkspaceId};
use crate::render::{self, Span, Style};
use crate::text;
use crate::theme::{Color, Theme};

verus! {

/// What a row activates. `Index` points back into the owner's own list.
#[derive(Debug, Clone, Copy, PartialEq, Eq, Structural)]
pub enum OverlayTarget {
    Nothing,
    Index(usize),
    Workspace(WorkspaceId),
    Tab(TabId),
    Pane(PaneId),
}

#[derive(Debug, Clone, PartialEq, Eq)]
pub struct OverlayRow {
    pub label: String,
    /// Right-aligned dim text: a value, a key chord, or a state.
    pub hint: String,
    pub target: OverlayTarget,
}

impl OverlayRow {
    pub fn new(label: String, hint: String, target: OverlayTarget) -> (r: Self)
        ensures
            r == (OverlayRow { label, hint, target }),
    {
        OverlayRow { label, hint, target }
    }

    /// What a row shows and activates.
    pub open spec fn parts(self) -> (Seq<char>, Seq<char>, OverlayTarget) {
        (self.label@, self.hint@, self.target)
    }
}

/// What a list of rows shows and activates.
pub open spec fn row_parts(rows: Seq<OverlayRow>) -> Seq<(Seq<char>, Seq<char>, OverlayTarget)> {
    rows.map_values(|row: OverlayRow| row.parts())
}

#[derive(Debug, Clone, PartialEq, Eq)]
pub struct Overlay {
    pub title: String,
    /// `Some` turns the overlay into a filter box; typed characters append.
    pub filter: Option<String>,
    pub rows: Vec<OverlayRow>,
    pub selected: usize,
}

/// The selection after moving by `delta`: down to the last row at most, up to
/// the first.
pub open spec fn moved_selection(selected: int, rows: int, delta: int) -> int {
    if rows == 0 {
        selected
    } else if delta < 0 {
        num::max(selected + delta, 0)
    } else {
        num::min(selected + delta, rows - 1)
    }
}

impl Overlay {
    pub fn new(title: &str, rows: Vec<OverlayRow>) -> (r: Self)
        ensures
            r.title@ == title@,
            r.filter is None,
            r.rows == rows,
            r.selected == 0,
    {
        Overlay { title: title.to_owned(), filter: None, rows, selected: 0 }
    }

    /// Currently highlighted row, if any.
    pub fn current(&self) -> (r: Option<&OverlayRow>)
        ensures
            self.selected < self.rows@.len() ==> r == Some(&self.rows@[self.selected as int]),
            self.selected >= self.rows@.len() ==> r is None,
    {
        if self.selected < self.rows.len() {
            Some(&self.rows[self.selected])
        } else {
            None
        }
    }

    /// Moves the selection, held to the row list.
    pub fn move_by(&mut self, delta: isize)
        ensures
            *final(self) == (Overlay {
                selected: moved_selection(
                    old(self).selected as int,
                    old(self).rows@.len() as int,
                    delta as int,
                ) as usize,
                ..*old(self)
            }),
            final(self).selected == moved_selection(
                old(self).selected as int,
                old(self).rows@.len() as int,
                delta as int,
            ),
    {
        if self.rows.len() == 0 {
            return ;
        }
        let last: usize = self.rows.len() - 1;
        let moved: usize = num::saturating_add_signed(self.selected, delta);
        self.selected = if delta < 0 {
            moved
        } else {
            num::min_usize(moved, last)
        };
    }
}

/// Result of feeding a key to the overlay; the owner decides what `Select` and
/// `Filtered` mean.
#[derive(Debug, Clone, Copy, PartialEq, Eq, Structural)]
pub enum OverlayEvent {
    Select,
    Cancel,
    Moved,
    Filtered,
    Nothing,
}

/// What a key does to an overlay, before its fields are looked at.
#[derive(Debug, Clone, Copy, PartialEq, Eq, Structural)]
pub enum OverlayStep {
    Select,
    Cancel,
    Up,
    Down,
    Erase,
    Type(char),
    Ignore,
}

/// Arrows and ctrl+n / ctrl+p always move; `j`, `k` and `q` act only without a
/// filter, so that filter boxes stay typable.
pub open spec fn step_of(filtering: bool, key: KeyEvent) -> OverlayStep {
    let ctrl = key.modifiers.control;
    let plain = !ctrl && !key.modifiers.alt;
    match key.code {
        KeyCode::Esc => OverlayStep::Cancel,
        KeyCode::Enter => OverlayStep::Select,
        KeyCode::Up => OverlayStep::Up,
        KeyCode::Down => OverlayStep::Down,
        KeyCode::Backspace => if filtering {
            OverlayStep::Erase
        } else {
            OverlayStep::Ignore
        },
        KeyCode::Char(c) => if (c == 'p' && ctrl) || (c == 'k' && !filtering) {
            OverlayStep::Up
        } else if (c == 'n' && ctrl) || (c == 'j' && !filtering) {
            OverlayStep::Down
        } else if c == 'q' && !filtering && plain {
            OverlayStep::Cancel
        } else if plain && filtering {
            OverlayStep::Type(c)
        } else {
            OverlayStep::Ignore
        },
        _ => OverlayStep::Ignore,
    }
}

/// The event that a step reports.
pub open spec fn event_of(step: OverlayStep) -> OverlayEvent {
    match step {
        OverlayStep::Select => OverlayEvent::Select,
        OverlayStep::Cancel => OverlayEvent::Cancel,
        OverlayStep::Up => OverlayEvent::Moved,
        OverlayStep::Down => OverlayEvent::Moved,
        OverlayStep::Erase => OverlayEvent::Filtered,
        OverlayStep::Type(_) => OverlayEvent::Filtered,
        OverlayStep::Ignore => OverlayEvent::Nothing,
    }
}

/// The filter text after a step.
pub open spec fn filter_after(filter: Option<Seq<char>>, step: OverlayStep) -> Option<Seq<char>> {
    match (filter, step) {
        (Some(s), OverlayStep::Erase) => if s.len() > 0 {
            Some(s.drop_last())
        } else {
            Some(s)
        },
        (Some(s), OverlayStep::Type(c)) => Some(s.push(c)),
        _ => filter,
    }
}

fn step_for(filtering: bool, key: KeyEvent) -> (r: OverlayStep)
    ensures
        r == step_of(filtering, key),
{
    let ctrl = key.modifiers.control;
    let plain = !ctrl && !key.modifiers.alt;
    match key.code {
        KeyCode::Esc => OverlayStep::Cancel,
        KeyCode::Enter => OverlayStep::Select,
        KeyCode::Up => OverlayStep::Up,
        KeyCode::Down => OverlayStep::Down,
        KeyCode::Backspace => if filtering {
            OverlayStep::Erase
        } else {
            OverlayStep::Ignore
        },
        KeyCode::Char(c) => if (c == 'p' && ctrl) || (c == 'k' && !filtering) {
            OverlayStep::Up
        } else if (c == 'n' && ctrl) || (c == 'j' && !filtering) {
            OverlayStep::Down
        } else if c == 'q' && !filtering && plain {
            OverlayStep::Cancel
        } else if plain && filtering {
            OverlayStep::Type(c)
        } else {
            OverlayStep::Ignore
        },
        _ => OverlayStep::Ignore,
    }
}

/// Handles one key for an overlay.
pub fn overlay_key(overlay: &mut Overlay, key: KeyEvent) -> (r: OverlayEvent)
    ensures
        ({
            let step = step_of(old(overlay).filter is Some, key);
            &&& r == event_of(step)
            &&& text::option_text(final(overlay).filter) == filter_after(
                text::option_text(old(overlay).filter),
                step,
            )
            &&& final(overlay).selected == (if step == OverlayStep::Up || step
                == OverlayStep::Down {
                moved_selection(
                    old(overlay).selected as int,
                    old(overlay).rows@.len() as int,
                    if step == OverlayStep::Up {
                        -1
                    } else {
                        1
                    },
                )
            } else {
                old(overlay).selected as int
            })
            &&& final(overlay).title == old(overlay).title
            &&& final(overlay).rows == old(overlay).rows
        }),
{
    let step = step_for(overlay.filter.is_some(), key);
    match step {
        OverlayStep::Select => OverlayEvent::Select,
        OverlayStep::Cancel => OverlayEvent::Cancel,
        OverlayStep::Up => {
            overlay.move_by(-1);
            OverlayEvent::Moved
        },
        OverlayStep::Down => {
            overlay.move_by(1);
            OverlayEvent::Moved
        },
        OverlayStep::Erase => {
            if let Some(filter) = &mut overlay.filter {
                filter.pop();
            }
            OverlayEvent::Filtered
        },
        OverlayStep::Type(c) => {
            if let Some(filter) = &mut overlay.filter {
                filter.push(c);
            }
            OverlayEvent::Filtered
        },
        OverlayStep::Ignore => OverlayEvent::Nothing,
    }
}

/// Whether boxes and their contents can be placed in an area without leaving
/// the coordinates.
pub open spec fn placeable(area: Rect) -> bool {
    area.x + area.width < u16::MAX - 1 && area.y + area.height < u16::MAX - 1
}

/// The centered box of a list with `rows` rows.
pub open spec fn box_in(area: Rect, rows: int, filtering: bool) -> Rect {
    let chrome = if filtering {
        4int
    } else {
        3
    };
    let width = num::max(8, num::min(72, num::max(area.width - 4, 0)));
    let height = num::max(
        3,
        num::min(num::max(area.height - 2, 0), num::min(rows + chrome, u16::MAX as int)),
    );
    Rect::cut(
        area.x + num::max(area.width - width, 0) / 2,
        area.y + num::max(area.height - height, 0) / 2,
        width,
        height,
    )
}

/// The centered box the overlay occupies inside `area`.
pub fn overlay_rect(area: Rect, overlay: &Overlay) -> (r: Rect)
    requires
        placeable(area),
    ensures
        r == box_in(area, (overlay.rows@.len() as u16) as int, overlay.filter is Some),
{
    #[verifier::truncate]
    let rows: u16 = overlay.rows.len() as u16;
    let chrome: u16 = if overlay.filter.is_some() {
        4
    } else {
        3
    };
    let width: u16 = num::max_u16(8, num::min_u16(72, area.width.saturating_sub(4)));
    let height: u16 = num::max_u16(
        3,
        num::min_u16(area.height.saturating_sub(2), rows.saturating_add(chrome)),
    );
    Rect::new(
        area.x + area.width.saturating_sub(width) / 2,
        area.y + area.height.saturating_sub(height) / 2,
        width,
        height,
    )
}

/// The row list inside the border of a box, below the filter line when there is
/// one.
pub open spec fn list_in(rect: Rect, filtering: bool) -> Rect {
    let filter = if filtering {
        1int
    } else {
        0
    };
    Rect::cut(
        rect.x + 1,
        rect.y + 1 + filter,
        num::max(rect.width - 2, 0),
        num::max(rect.height - (2 + filter), 0),
    )
}

pub fn list_area(rect: Rect, overlay: &Overlay) -> (r: Rect)
    requires
        rect.x < u16::MAX,
        rect.y < u16::MAX - 1,
    ensures
        r == list_in(rect, overlay.filter is Some),
{
    let filter: u16 = if overlay.filter.is_some() {
        1
    } else {
        0
    };
    Rect::new(
        rect.x + 1,
        rect.y + 1 + filter,
        rect.width.saturating_sub(2),
        rect.height.saturating_sub(2 + filter),
    )
}

/// First visible row for a viewport; keeps the selection on screen.
pub open spec fn first_visible(selected: int, height: int) -> int {
    if height == 0 || selected < height {
        0
    } else {
        selected + 1 - height
    }
}

pub fn window_start(selected: usize, height: usize) -> (r: usize)
    ensures
        r == first_visible(selected as int, height as int),
        height > 0 ==> r <= selected < r + height,
{
    if height == 0 || selected < height {
        0
    } else {
        selected - (height - 1)
    }
}

/// Row index under a click, or `None` when the click misses the row list.
pub open spec fn row_under(
    area: Rect,
    rows: int,
    filtering: bool,
    selected: int,
    column: int,
    row: int,
) -> Option<int> {
    let rect = box_in(area, (rows as u16) as int, filtering);
    let list = list_in(rect, filtering);
    let index = first_visible(selected, list.height as int) + (row - list.y);
    if rect.has_cell(column, row) && list.y <= row < list.y + list.height && index < rows {
        Some(index)
    } else {
        None
    }
}

pub fn row_at(area: Rect, overlay: &Overlay, column: u16, row: u16) -> (r: Option<usize>)
    requires
        placeable(area),
        overlay.selected + u16::MAX <= usize::MAX,
    ensures
        r == (match row_under(
            area,
            overlay.rows@.len() as int,
            overlay.filter is Some,
            overlay.selected as int,
            column as int,
            row as int,
        ) {
            Some(index) => Some(index as usize),
            None => None,
        }),
        r matches Some(index) ==> index < overlay.rows@.len(),
{
    if !contains(area, overlay, column, row) {
        return None;
    }
    let list = list_area(overlay_rect(area, overlay), overlay);
    if row < list.y || row >= list.bottom() {
        return None;
    }
    let offset: usize = (row - list.y) as usize;
    let index: usize = window_start(overlay.selected, list.height as usize) + offset;
    if index < overlay.rows.len() {
        Some(index)
    } else {
        None
    }
}

/// True when a click lands inside the overlay box, border included.
pub fn contains(area: Rect, overlay: &Overlay, column: u16, row: u16) -> (r: bool)
    requires
        placeable(area),
    ensures
        r == box_in(
            area,
            (overlay.rows@.len() as u16) as int,
            overlay.filter is Some,
        ).has_cell(column as int, row as int),
{
    overlay_rect(area, overlay).contains(column, row)
}

// ------------------------------------------------------------------- row layout

/// The characters of a text, from `i` on, that fit in `room` cells.
pub open spec fn fitting(s: Seq<char>, i: int, room: int) -> Seq<char>
    decreases s.len() - i,
{
    if i >= s.len() || i < 0 || text::cells_of(s[i]) > room {
        Seq::empty()
    } else {
        seq![s[i]] + fitting(s, i + 1, room - text::cells_of(s[i]))
    }
}

/// The cells that a text takes up, character by character.
pub open spec fn cells(s: Seq<char>) -> int
    decreases s.len(),
{
    if s.len() == 0 {
        0
    } else {
        cells(s.drop_last()) + text::cells_of(s.last())
    }
}

/// Cuts a text to a display width; returns it and the cells it uses.
pub fn clip(text: &str, width: usize) -> (r: (String, usize))
    ensures
        r.0@ == fitting(text@, 0, width as int),
        r.1 == cells(r.0@),
        r.1 <= width,
{
    let chars = text::chars_of(text);
    let mut clipped = String::new();
    let mut used: usize = 0;
    let mut i: usize = 0;
    while i < chars.len()
        invariant
            chars@ == text@,
            i <= chars@.len(),
            used <= width,
            used == cells(clipped@),
            clipped@ + fitting(text@, i as int, width - used) == fitting(text@, 0, width as int),
        decreases chars@.len() - i,
    {
        let c = chars[i];
        let cost: usize = text::char_cells(c);
        if cost > width - used {
            assert(clipped@ + fitting(text@, i as int, width - used) =~= clipped@);
            return (clipped, used);
        }
        let ghost before = clipped@;
        clipped.push(c);
        assert(clipped@.drop_last() =~= before);
        assert(before + (seq![c] + fitting(text@, i + 1, width - used - cost)) =~= clipped@
            + fitting(text@, i + 1, width - used - cost));
        used = used + cost;
        i += 1;
    }
    assert(clipped@ + fitting(text@, i as int, width - used) =~= clipped@);
    (clipped, used)
}

/// One row as it is drawn: the label, the spaces between, and the hint.
pub struct FittedRow {
    pub label: String,
    pub pad: usize,
    pub hint: String,
}

/// The label and the hint of a row as `width` cells show them. The hint has its cells
/// first and the label is cut to the rest. Where the hint would take up every cell the
/// label goes first, so that a narrow box still says what its rows are.
pub open spec fn fitted(row: OverlayRow, width: int) -> (Seq<char>, Seq<char>) {
    let hint = fitting(row.hint@, 0, width);
    if cells(hint) < width {
        (fitting(row.label@, 0, width - cells(hint)), hint)
    } else {
        let label = fitting(row.label@, 0, width);
        (label, fitting(row.hint@, 0, width - cells(label)))
    }
}

/// Lays a row out in exactly `width` cells, so that it never overflows its border.
pub fn fit_row(row: &OverlayRow, width: usize) -> (r: FittedRow)
    ensures
        (r.label@, r.hint@) == fitted(*row, width as int),
        cells(r.label@) + r.pad + cells(r.hint@) == width,
{
    let (hint, hint_width) = clip(row.hint.as_str(), width);
    if hint_width < width {
        let (label, label_width) = clip(row.label.as_str(), width - hint_width);
        return FittedRow { label, pad: width - hint_width - label_width, hint };
    }
    let (label, label_width) = clip(row.label.as_str(), width);
    let (hint, hint_width) = clip(row.hint.as_str(), width - label_width);
    FittedRow { label, pad: width - hint_width - label_width, hint }
}

// ---------------------------------------------------------------- what is drawn

/// One line inside a box: where it goes and what it shows.
#[derive(Debug, PartialEq, Eq)]
pub struct BoxLine {
    pub area: Rect,
    pub spans: Vec<Span>,
}

impl View for BoxLine {
    type V = (Rect, Seq<(Seq<char>, Style)>);

    open spec fn view(&self) -> (Rect, Seq<(Seq<char>, Style)>) {
        (self.area, render::span_views(self.spans@))
    }
}

pub open spec fn line_views(lines: Seq<BoxLine>) -> Seq<(Rect, Seq<(Seq<char>, Style)>)> {
    lines.map_values(|line: BoxLine| line@)
}

fn push_line(lines: &mut Vec<BoxLine>, area: Rect, spans: Vec<Span>)
    ensures
        line_views(final(lines)@) == line_views(old(lines)@).push(
            (area, render::span_views(spans@)),
        ),
{
    let ghost before = line_views(lines@);
    let ghost seen = (area, render::span_views(spans@));
    lines.push(BoxLine { area, spans });
    assert(line_views(lines@) =~= before.push(seen));
}

/// A bordered box with a title, and the lines inside it.
#[derive(Debug, PartialEq, Eq)]
pub struct BoxView {
    pub area: Rect,
    pub title: String,
    pub border: Style,
    pub fill: Style,
    pub lines: Vec<BoxLine>,
}

/// The colors of a row, inverted where it is selected.
pub open spec fn row_style(selected: bool, theme: Theme) -> Style {
    if selected {
        render::colored(Some(theme.menu_bg), Some(theme.accent))
    } else {
        render::colored(Some(theme.menu_fg), Some(theme.menu_bg))
    }
}

/// A row over exactly `width` cells.
pub open spec fn row_spans(row: OverlayRow, selected: bool, width: int, theme: Theme) -> Seq<
    (Seq<char>, Style),
> {
    let (label, hint) = fitted(row, width);
    let style = row_style(selected, theme);
    seq![
        (label, style),
        (text::repeated(' ', width - cells(hint) - cells(label)), style),
        (hint, style),
    ]
}

/// A row that leads with a mark of its own color and ends in a dimmed hint. The
/// mark keeps its cells; the rest is the label's and the hint's.
pub open spec fn marked_spans(
    row: OverlayRow,
    mark: (&str, Color),
    selected: bool,
    width: int,
    theme: Theme,
) -> Seq<(Seq<char>, Style)> {
    let room = num::max(width - text::width_of(mark.0@), 0);
    let (label, hint) = fitted(row, room);
    let style = row_style(selected, theme);
    let mark_style = if selected {
        style
    } else {
        render::colored(Some(mark.1), Some(theme.menu_bg))
    };
    let hint_style = if selected {
        style
    } else {
        render::colored(Some(theme.dim), Some(theme.menu_bg))
    };
    seq![
        (mark.0@, mark_style),
        (label, style),
        (text::repeated(' ', room - cells(hint) - cells(label)), style),
        (hint, hint_style),
    ]
}

/// How many rows a list of this height shows.
pub open spec fn shown_rows(overlay: Overlay, height: int) -> int {
    num::max(
        num::min(
            height,
            overlay.rows@.len() - first_visible(overlay.selected as int, height),
        ),
        0,
    )
}

/// The line that shows what was typed, where the overlay filters.
pub open spec fn filter_lines(rect: Rect, overlay: Overlay, theme: Theme) -> Seq<
    (Rect, Seq<(Seq<char>, Style)>),
> {
    match overlay.filter {
        Some(filter) => seq![
            (
                Rect::cut(rect.x + 1, rect.y + 1, rect.width - 2, 1),
                seq![("> "@ + filter@, render::colored(Some(theme.accent), None))],
            ),
        ],
        None => Seq::empty(),
    }
}

/// The lines of a box: the filter line, then the visible rows, each in a line of
/// its own.
pub open spec fn box_lines(
    rect: Rect,
    overlay: Overlay,
    theme: Theme,
    spans: spec_fn(int) -> Seq<(Seq<char>, Style)>,
) -> Seq<(Rect, Seq<(Seq<char>, Style)>)> {
    let list = list_in(rect, overlay.filter is Some);
    let start = first_visible(overlay.selected as int, list.height as int);
    if rect.width <= 2 || rect.height <= 2 {
        Seq::empty()
    } else {
        filter_lines(rect, overlay, theme) + Seq::new(
            shown_rows(overlay, list.height as int) as nat,
            |i: int| (Rect::cut(list.x as int, list.y + i, list.width as int, 1), spans(start + i)),
        )
    }
}

/// Where the box goes and how its frame looks.
pub open spec fn framed(view: BoxView, area: Rect, overlay: Overlay, theme: Theme) -> bool {
    &&& view.area == box_in(area, (overlay.rows@.len() as u16) as int, overlay.filter is Some)
    &&& view.title@ == " "@ + overlay.title@ + " "@
    &&& view.border == render::colored(Some(theme.accent), None)
    &&& view.fill == render::colored(Some(theme.menu_fg), Some(theme.menu_bg))
}

fn style_of(selected: bool, theme: &Theme) -> (r: Style)
    ensures
        r == row_style(selected, *theme),
{
    if selected {
        render::colors(Some(theme.menu_bg), Some(theme.accent))
    } else {
        render::colors(Some(theme.menu_fg), Some(theme.menu_bg))
    }
}

/// `n` spaces.
fn spaces(n: usize) -> (r: String)
    ensures
        r@ == text::repeated(' ', n as int),
{
    proof {
        reveal_strlit("");
    }
    let out = text::padded("", n);
    assert(out@ =~= text::repeated(' ', n as int));
    out
}

fn frame_of(rect: Rect, overlay: &Overlay, theme: &Theme) -> (r: BoxView)
    requires
        rect.x < u16::MAX,
        rect.y < u16::MAX,
    ensures
        r.area == rect,
        r.title@ == " "@ + overlay.title@ + " "@,
        r.border == render::colored(Some(theme.accent), None),
        r.fill == render::colored(Some(theme.menu_fg), Some(theme.menu_bg)),
        line_views(r.lines@) == (if rect.width <= 2 || rect.height <= 2 {
            Seq::empty()
        } else {
            filter_lines(rect, *overlay, *theme)
        }),
{
    let mut lines: Vec<BoxLine> = Vec::new();
    assert(line_views(lines@) =~= Seq::empty());
    if rect.width > 2 && rect.height > 2 {
        match &overlay.filter {
            Some(filter) => {
                let mut spans: Vec<Span> = Vec::new();
                assert(render::span_views(spans@) =~= Seq::empty());
                render::push_span(
                    &mut spans,
                    text::cat("> ", filter.as_str()),
                    render::colors(Some(theme.accent), None),
                );
                push_line(&mut lines, Rect::new(rect.x + 1, rect.y + 1, rect.width - 2, 1), spans);
                assert(line_views(lines@) =~= filter_lines(rect, *overlay, *theme));
            },
            None => {},
        }
    }
    BoxView {
        area: rect,
        title: text::cat3(" ", overlay.title.as_str(), " "),
        border: render::colors(Some(theme.accent), None),
        fill: render::colors(Some(theme.menu_fg), Some(theme.menu_bg)),
        lines,
    }
}

/// The overlay as it is drawn: the frame, the filter line, and the rows around the
/// selection, the selected one inverted.
pub fn render_overlay(area: Rect, overlay: &Overlay, theme: &Theme) -> (r: BoxView)
    requires
        placeable(area),
        overlay.selected + u16::MAX <= usize::MAX,
    ensures
        framed(r, area, *overlay, *theme),
        line_views(r.lines@) == box_lines(
            r.area,
            *overlay,
            *theme,
            |index: int|
                row_spans(
                    overlay.rows@[index],
                    index == overlay.selected,
                    list_in(r.area, overlay.filter is Some).width as int,
                    *theme,
                ),
        ),
{
    let rect = overlay_rect(area, overlay);
    let mut view = frame_of(rect, overlay, theme);
    if rect.width <= 2 || rect.height <= 2 {
        return view;
    }
    let list = list_area(rect, overlay);
    let height: usize = list.height as usize;
    let start: usize = window_start(overlay.selected, height);
    let ghost spans_at = |index: int|
        row_spans(
            overlay.rows@[index],
            index == overlay.selected,
            list_in(rect, overlay.filter is Some).width as int,
            *theme,
        );
    let ghost head = filter_lines(rect, *overlay, *theme);
    let ghost all = box_lines(rect, *overlay, *theme, spans_at);
    assert(line_views(view.lines@) =~= all.take(head.len() as int));
    let mut offset: u16 = 0;
    while offset < list.height && start + (offset as usize) < overlay.rows.len()
        invariant
            offset <= list.height,
            offset <= shown_rows(*overlay, list.height as int),
            start == first_visible(overlay.selected as int, list.height as int),
            start <= overlay.selected,
            overlay.selected + u16::MAX <= usize::MAX,
            rect.width > 2,
            rect.height > 2,
            list == list_in(rect, overlay.filter is Some),
            list.y + list.height <= u16::MAX,
            framed(view, area, *overlay, *theme),
            view.area == rect,
            head == filter_lines(rect, *overlay, *theme),
            spans_at == (|index: int|
                row_spans(
                    overlay.rows@[index],
                    index == overlay.selected,
                    list_in(rect, overlay.filter is Some).width as int,
                    *theme,
                )),
            all == box_lines(rect, *overlay, *theme, spans_at),
            line_views(view.lines@) == all.take(head.len() + offset),
        decreases list.height - offset,
    {
        let index: usize = start + offset as usize;
        let style = style_of(index == overlay.selected, theme);
        let fitted = fit_row(&overlay.rows[index], list.width as usize);
        let mut spans: Vec<Span> = Vec::new();
        assert(render::span_views(spans@) =~= Seq::empty());
        render::push_span(&mut spans, fitted.label, style);
        render::push_span(&mut spans, spaces(fitted.pad), style);
        render::push_span(&mut spans, fitted.hint, style);
        assert(render::span_views(spans@) =~= spans_at(index as int));
        let ghost line = (
            Rect::cut(list.x as int, list.y + offset, list.width as int, 1),
            spans_at(index as int),
        );
        assert(all[head.len() + offset] == line);
        push_line(&mut view.lines, Rect::new(list.x, list.y + offset, list.width, 1), spans);
        assert(all.take(head.len() + offset).push(line) =~= all.take(head.len() + offset + 1));
        offset += 1;
    }
    assert(all.take(head.len() + offset) =~= all);
    view
}

/// The overlay with a mark in front of each row, such as a dot in the color of a
/// state, and with dimmed hints. The selected row is inverted whole.
pub fn render_picker(
    area: Rect,
    overlay: &Overlay,
    theme: &Theme,
    marks: &Vec<(&'static str, Color)>,
) -> (r: BoxView)
    requires
        placeable(area),
        overlay.selected + u16::MAX <= usize::MAX,
        marks@.len() == overlay.rows@.len(),
    ensures
        framed(r, area, *overlay, *theme),
        line_views(r.lines@) == box_lines(
            r.area,
            *overlay,
            *theme,
            |index: int|
                marked_spans(
                    overlay.rows@[index],
                    marks@[index],
                    index == overlay.selected,
                    list_in(r.area, overlay.filter is Some).width as int,
                    *theme,
                ),
        ),
{
    let rect = overlay_rect(area, overlay);
    let mut view = frame_of(rect, overlay, theme);
    if rect.width <= 2 || rect.height <= 2 {
        return view;
    }
    let list = list_area(rect, overlay);
    let height: usize = list.height as usize;
    let start: usize = window_start(overlay.selected, height);
    let ghost spans_at = |index: int|
        marked_spans(
            overlay.rows@[index],
            marks@[index],
            index == overlay.selected,
            list_in(rect, overlay.filter is Some).width as int,
            *theme,
        );
    let ghost head = filter_lines(rect, *overlay, *theme);
    let ghost all = box_lines(rect, *overlay, *theme, spans_at);
    assert(line_views(view.lines@) =~= all.take(head.len() as int));
    let mut offset: u16 = 0;
    while offset < list.height && start + (offset as usize) < overlay.rows.len()
        invariant
            offset <= list.height,
            offset <= shown_rows(*overlay, list.height as int),
            start == first_visible(overlay.selected as int, list.height as int),
            start <= overlay.selected,
            overlay.selected + u16::MAX <= usize::MAX,
            marks@.len() == overlay.rows@.len(),
            rect.width > 2,
            rect.height > 2,
            list == list_in(rect, overlay.filter is Some),
            list.y + list.height <= u16::MAX,
            framed(view, area, *overlay, *theme),
            view.area == rect,
            head == filter_lines(rect, *overlay, *theme),
            spans_at == (|index: int|
                marked_spans(
                    overlay.rows@[index],
                    marks@[index],
                    index == overlay.selected,
                    list_in(rect, overlay.filter is Some).width as int,
                    *theme,
                )),
            all == box_lines(rect, *overlay, *theme, spans_at),
            line_views(view.lines@) == all.take(head.len() + offset),
        decreases list.height - offset,
    {
        let index: usize = start + offset as usize;
        let selected = index == overlay.selected;
        let (glyph, color) = marks[index];
        let style = style_of(selected, theme);
        let mark_style = if selected {
            style
        } else {
            render::colors(Some(color), Some(theme.menu_bg))
        };
        let hint_style = if selected {
            style
        } else {
            render::colors(Some(theme.dim), Some(theme.menu_bg))
        };
        let room: usize = (list.width as usize).saturating_sub(text::width(glyph));
        let fitted = fit_row(&overlay.rows[index], room);
        let mut spans: Vec<Span> = Vec::new();
        assert(render::span_views(spans@) =~= Seq::empty());
        render::push_span(&mut spans, glyph.to_owned(), mark_style);
        render::push_span(&mut spans, fitted.label, style);
        render::push_span(&mut spans, spaces(fitted.pad), style);
        render::push_span(&mut spans, fitted.hint, hint_style);
        assert(render::span_views(spans@) =~= spans_at(index as int));
        let ghost line = (
            Rect::cut(list.x as int, list.y + offset, list.width as int, 1),
            spans_at(index as int),
        );
        assert(all[head.len() + offset] == line);
        push_line(&mut view.lines, Rect::new(list.x, list.y + offset, list.width, 1), spans);
        assert(all.take(head.len() + offset).push(line) =~= all.take(head.len() + offset + 1));
        offset += 1;
    }
    assert(all.take(head.len() + offset) =~= all);
    view
}

// ------------------------------------------------------------------------- laws

/// What fits in a width takes up no more than the width.
proof fn lemma_fitting_fits(s: Seq<char>, i: int, room: int)
    requires
        room >= 0,
    ensures
        0 <= cells(fitting(s, i, room)) <= room,
    decreases s.len() - i,
{
    if !(i >= s.len() || i < 0 || text::cells_of(s[i]) > room) {
        let rest = fitting(s, i + 1, room - text::cells_of(s[i]));
        lemma_fitting_fits(s, i + 1, room - text::cells_of(s[i]));
        lemma_cells_add(seq![s[i]], rest);
        assert(seq![s[i]].drop_last() =~= Seq::empty());
        assert(cells(seq![s[i]]) == text::cells_of(s[i])) by {
            reveal_with_fuel(cells, 2);
        }
    }
}

proof fn lemma_cells_add(a: Seq<char>, b: Seq<char>)
    ensures
        cells(a + b) == cells(a) + cells(b),
        cells(a) >= 0,
    decreases a.len() + b.len(),
{
    if b.len() > 0 {
        lemma_cells_add(a, b.drop_last());
        assert((a + b).drop_last() =~= a + b.drop_last());
    } else {
        assert(a + b =~= a);
        if a.len() > 0 {
            lemma_cells_add(a.drop_last(), b);
        }
    }
}

proof fn lemma_fitted_fits(row: OverlayRow, width: int)
    requires
        width >= 0,
    ensures
        cells(fitted(row, width).0) >= 0,
        cells(fitted(row, width).1) >= 0,
        cells(fitted(row, width).0) + cells(fitted(row, width).1) <= width,
{
    lemma_fitting_fits(row.hint@, 0, width);
    lemma_fitting_fits(row.label@, 0, width);
    lemma_fitting_fits(row.label@, 0, width - cells(fitting(row.hint@, 0, width)));
    lemma_fitting_fits(row.hint@, 0, width - cells(fitting(row.label@, 0, width)));
}

/// However wide its characters are, a row's label and hint never reach over the
/// border: with the spaces between them they fill the line exactly.
pub proof fn law_rows_stay_inside_the_border(
    row: OverlayRow,
    selected: bool,
    width: int,
    theme: Theme,
)
    requires
        width >= 0,
    ensures
        ({
            let spans = row_spans(row, selected, width, theme);
            cells(spans[0].0) + spans[1].0.len() + cells(spans[2].0) == width
        }),
{
    lemma_fitted_fits(row, width);
}

/// A marked row never reaches over the border either, unless the mark alone does.
pub proof fn law_marked_rows_stay_inside_the_border(
    row: OverlayRow,
    mark: (&str, Color),
    selected: bool,
    width: int,
    theme: Theme,
)
    requires
        text::width_of(mark.0@) <= width,
    ensures
        ({
            let spans = marked_spans(row, mark, selected, width, theme);
            text::width_of(spans[0].0) + cells(spans[1].0) + spans[2].0.len() + cells(spans[3].0)
                == width
        }),
{
    let room = num::max(width - text::width_of(mark.0@), 0);
    lemma_fitted_fits(row, room);
}

/// The selected row is always among the lines of the box.
pub proof fn law_the_selection_is_drawn(
    rect: Rect,
    overlay: Overlay,
    theme: Theme,
    spans: spec_fn(int) -> Seq<(Seq<char>, Style)>,
)
    requires
        overlay.selected < overlay.rows@.len(),
        rect.width > 2,
        rect.height > 2,
        list_in(rect, overlay.filter is Some).height > 0,
    ensures
        exists|i: int|
            0 <= i < box_lines(rect, overlay, theme, spans).len() && (#[trigger] box_lines(
                rect,
                overlay,
                theme,
                spans,
            )[i]).1 == spans(overlay.selected as int),
{
    let list = list_in(rect, overlay.filter is Some);
    let start = first_visible(overlay.selected as int, list.height as int);
    let lines = box_lines(rect, overlay, theme, spans);
    let at = filter_lines(rect, overlay, theme).len() + (overlay.selected - start);
    assert(lines[at].1 == spans(overlay.selected as int));
}

} // verus!
