//! Mouse text selection, link detection, and mouse passthrough encoding.
//!
//! Coordinates are `(row, col)` in the pane's own grid, indexed by character
//! against the screen's contents the same way copy mode does.

use vstd::prelude::*;

use crate::event::{KeyModifiers, MouseButton, MouseEventKind};
use crate::mode;
use crate::num;
use crate::proto::{PaneId, Screen};
use crate::text;

verus! {

/// Characters that make up a word for double-click.
pub open spec fn word_char(c: char) -> bool {
    text::alphanumeric(c) || c == '_' || c == '.' || c == '/' || c == '~' || c == '-'
}

pub fn is_word(c: char) -> (r: bool)
    ensures
        r == word_char(c),
{
    c.is_alphanumeric() || c == '_' || c == '.' || c == '/' || c == '~' || c == '-'
}

/// What a drag selects: a character range, whole words, or whole lines.
#[derive(Debug, Clone, Copy, PartialEq, Eq, Structural)]
pub enum SelectionMode {
    Char,
    Word,
    Line,
}

/// A live mouse selection in one pane.
///
/// `anchor` is where the press landed and `head` follows the pointer; either
/// may come first. `range` caches the ordered bounds, widened by mode, so that a
/// cell can be tested without scanning the screen again.
#[derive(Debug, Clone, Copy, PartialEq, Eq)]
pub struct Selection {
    pub pane: PaneId,
    pub anchor: (usize, usize),
    pub head: (usize, usize),
    pub mode: SelectionMode,
    pub range: ((usize, usize), (usize, usize)),
}

/// Reading order of cells, row first.
pub open spec fn cell_before(a: (usize, usize), b: (usize, usize)) -> bool {
    a.0 < b.0 || (a.0 == b.0 && a.1 < b.1)
}

fn is_cell_before(a: (usize, usize), b: (usize, usize)) -> (r: bool)
    ensures
        r == cell_before(a, b),
{
    a.0 < b.0 || (a.0 == b.0 && a.1 < b.1)
}

/// The text of a row; nothing outside the grid.
pub open spec fn grid_row(lines: Seq<Seq<char>>, row: int) -> Seq<char> {
    if 0 <= row < lines.len() {
        lines[row]
    } else {
        Seq::empty()
    }
}

/// The first column of the run of word cells that ends just before `col`.
pub open spec fn run_left(line: Seq<char>, col: int) -> int
    decreases col,
{
    if col > 0 && word_char(line[col - 1]) {
        run_left(line, col - 1)
    } else {
        col
    }
}

/// One past the run of word cells that starts at `col`.
pub open spec fn run_right(line: Seq<char>, col: int) -> int
    decreases line.len() - col,
{
    if col < line.len() && word_char(line[col]) {
        run_right(line, col + 1)
    } else {
        col
    }
}

/// First column of the word containing `col`, or `col` where there is no word.
pub open spec fn word_left(lines: Seq<Seq<char>>, row: int, col: int) -> int {
    let line = grid_row(lines, row);
    if col < line.len() && word_char(line[col]) {
        run_left(line, col)
    } else {
        col
    }
}

/// One past the last column of the word containing `col`. Where there is no
/// word it is the next column, held inside an existing row.
pub open spec fn word_right(lines: Seq<Seq<char>>, row: int, col: int) -> int {
    let line = grid_row(lines, row);
    if row >= lines.len() {
        col + 1
    } else if col < line.len() && word_char(line[col]) {
        run_right(line, col)
    } else {
        num::min(col + 1, line.len() as int)
    }
}

/// The bounds of a selection between two ordered cells, end exclusive.
pub open spec fn widened(
    lines: Seq<Seq<char>>,
    mode: SelectionMode,
    start: (usize, usize),
    end: (usize, usize),
) -> ((usize, usize), (usize, usize)) {
    match mode {
        SelectionMode::Char => (
            (
                start.0,
                num::min(start.1 as int, grid_row(lines, start.0 as int).len() as int) as usize,
            ),
            (
                end.0,
                num::min(end.1 + 1, grid_row(lines, end.0 as int).len() as int) as usize,
            ),
        ),
        SelectionMode::Word => (
            (start.0, word_left(lines, start.0 as int, start.1 as int) as usize),
            (end.0, word_right(lines, end.0 as int, end.1 as int) as usize),
        ),
        SelectionMode::Line => (
            (start.0, 0usize),
            (end.0, grid_row(lines, end.0 as int).len() as usize),
        ),
    }
}

/// The selected text of rows `first` up to `row` exclusive.
pub open spec fn picked_rows(
    lines: Seq<Seq<char>>,
    bounds: ((usize, usize), (usize, usize)),
    first: int,
    row: int,
) -> Seq<Seq<char>>
    decreases row - first,
{
    if row <= first {
        Seq::empty()
    } else {
        let line = lines[row - 1];
        let from = if row - 1 == bounds.0.0 {
            bounds.0.1 as int
        } else {
            0
        };
        let to = if row - 1 == bounds.1.0 {
            bounds.1.1 as int
        } else {
            line.len() as int
        };
        picked_rows(lines, bounds, first, row - 1).push(mode::columns(line, from, to))
    }
}

impl Selection {
    /// The widened bounds: start inclusive, end exclusive.
    pub open spec fn bounds(self) -> ((usize, usize), (usize, usize)) {
        self.range
    }

    pub open spec fn first(self) -> (usize, usize) {
        if cell_before(self.head, self.anchor) {
            self.head
        } else {
            self.anchor
        }
    }

    pub open spec fn last(self) -> (usize, usize) {
        if cell_before(self.head, self.anchor) {
            self.anchor
        } else {
            self.head
        }
    }

    /// The bounds are those of the two cells and the mode on this screen.
    pub open spec fn resolved(self, screen: Screen) -> bool {
        self.bounds() == widened(
            mode::grid_lines(screen.contents@),
            self.mode,
            self.first(),
            self.last(),
        )
    }

    /// A cell falls inside the selection.
    pub open spec fn covers(self, row: int, col: int) -> bool {
        let start = self.bounds().0;
        let end = self.bounds().1;
        !(row < start.0 || (row == start.0 && col < start.1)) && (row < end.0 || (row == end.0
            && col < end.1))
    }

    /// The selected text of every row, from the first to the last that there is.
    pub open spec fn taken(self, screen: Screen) -> Seq<Seq<char>> {
        let lines = mode::grid_lines(screen.contents@);
        let last = lines.len() - 1;
        picked_rows(
            lines,
            self.bounds(),
            num::min(self.bounds().0.0 as int, last),
            num::min(self.bounds().1.0 as int, last) + 1,
        )
    }

    /// Starts a selection at one cell.
    pub fn new(pane: PaneId, at: (usize, usize), mode: SelectionMode, screen: &Screen) -> (r: Self)
        requires
            at.1 < usize::MAX,
        ensures
            r.pane == pane,
            r.anchor == at,
            r.head == at,
            r.mode == mode,
            r.resolved(*screen),
    {
        let mut selection = Selection { pane, anchor: at, head: at, mode, range: (at, at) };
        selection.resolve(screen);
        selection
    }

    /// Moves the drag end and widens the bounds again.
    pub fn set_head(&mut self, at: (usize, usize), screen: &Screen)
        requires
            old(self).anchor.1 < usize::MAX,
            at.1 < usize::MAX,
        ensures
            final(self).pane == old(self).pane,
            final(self).anchor == old(self).anchor,
            final(self).head == at,
            final(self).mode == old(self).mode,
            final(self).resolved(*screen),
    {
        self.head = at;
        self.resolve(screen);
    }

    /// Ordered anchor and head, before they are widened by mode.
    pub fn normalize(&self) -> (r: ((usize, usize), (usize, usize)))
        ensures
            r == (self.first(), self.last()),
            !cell_before(r.1, r.0),
    {
        if is_cell_before(self.head, self.anchor) {
            (self.head, self.anchor)
        } else {
            (self.anchor, self.head)
        }
    }

    /// True when the user pressed and released on the same cell without
    /// dragging: that is a plain click, not a selection.
    pub fn is_click(&self) -> (r: bool)
        ensures
            r == (self.mode == SelectionMode::Char && self.anchor == self.head),
    {
        self.mode == SelectionMode::Char && self.anchor.0 == self.head.0 && self.anchor.1
            == self.head.1
    }

    /// Whether a pane cell falls inside the selection.
    pub fn contains(&self, row: usize, col: usize) -> (r: bool)
        ensures
            r == (!cell_before((row, col), self.bounds().0) && cell_before(
                (row, col),
                self.bounds().1,
            )),
            r == self.covers(row as int, col as int),
    {
        let (start, end) = self.range;
        !is_cell_before((row, col), start) && is_cell_before((row, col), end)
    }

    /// The selected text, its rows joined with newlines.
    pub fn text(&self, screen: &Screen) -> (r: String)
        ensures
            ({
                let lines = mode::grid_lines(screen.contents@);
                let last = lines.len() - 1;
                r@ == text::joined(
                    picked_rows(
                        lines,
                        self.bounds(),
                        num::min(self.bounds().0.0 as int, last),
                        num::min(self.bounds().1.0 as int, last) + 1,
                    ),
                    "\n"@,
                )
            }),
            r@ == text::joined(self.taken(*screen), "\n"@),
    {
        let lines = mode::grid(screen.contents.as_str());
        let ghost all = mode::grid_lines(screen.contents@);
        assert(all.len() == lines@.len());
        let last: usize = lines.len() - 1;
        let ((start_row, start_col), (end_row, end_col)) = self.range;
        let first: usize = num::min_usize(start_row, last);
        let stop: usize = num::min_usize(end_row, last);
        let mut rows: Vec<String> = Vec::new();
        let mut row: usize = first;
        while row <= stop
            invariant
                all == text::texts(lines@),
                all.len() == lines@.len(),
                last == lines@.len() - 1,
                stop < lines.len(),
                self.range == ((start_row, start_col), (end_row, end_col)),
                first <= row,
                first <= stop ==> row <= stop + 1,
                first > stop ==> row == first,
                text::texts(rows@) == picked_rows(all, self.range, first as int, row as int),
            decreases stop + 1 - row,
        {
            let chars = text::chars_of(lines[row].as_str());
            assert(all[row as int] == chars@);
            let from: usize = if row == start_row {
                start_col
            } else {
                0
            };
            let mut to: usize = chars.len();
            if row == end_row {
                to = num::min_usize(end_col, to);
            }
            let piece = if from < to {
                text::text_of(chars.as_slice(), from, to)
            } else {
                String::new()
            };
            let ghost before = text::texts(rows@);
            let ghost cut = piece@;
            rows.push(piece);
            assert(text::texts(rows@) =~= before.push(cut));
            row += 1;
        }
        proof {
            if first > stop {
                assert(picked_rows(all, self.range, first as int, stop + 1) =~= picked_rows(
                    all,
                    self.range,
                    first as int,
                    row as int,
                ));
            }
        }
        text::join(&rows, "\n")
    }

    // Recomputes the bounds: order the ends, then widen by mode. The end column
    // is exclusive, so char mode takes in the cell under the pointer.
    fn resolve(&mut self, screen: &Screen)
        requires
            old(self).anchor.1 < usize::MAX,
            old(self).head.1 < usize::MAX,
        ensures
            *final(self) == (Selection { range: final(self).range, ..*old(self) }),
            final(self).resolved(*screen),
    {
        let lines = mode::grid(screen.contents.as_str());
        let (start, end) = self.normalize();
        self.range = match self.mode {
            SelectionMode::Char => (
                (start.0, num::min_usize(start.1, row_len(&lines, start.0))),
                (end.0, num::min_usize(end.1 + 1, row_len(&lines, end.0))),
            ),
            SelectionMode::Word => (
                (start.0, word_start(&lines, start.0, start.1)),
                (end.0, word_end(&lines, end.0, end.1)),
            ),
            SelectionMode::Line => ((start.0, 0), (end.0, row_len(&lines, end.0))),
        };
    }
}

fn row_len(lines: &Vec<String>, row: usize) -> (r: usize)
    ensures
        r == grid_row(text::texts(lines@), row as int).len(),
{
    if row < lines.len() {
        lines[row].as_str().unicode_len()
    } else {
        0
    }
}

/// First column of the word containing `col`.
fn word_start(lines: &Vec<String>, row: usize, col: usize) -> (r: usize)
    ensures
        r == word_left(text::texts(lines@), row as int, col as int),
{
    if row >= lines.len() {
        return col;
    }
    let chars = text::chars_of(lines[row].as_str());
    if col >= chars.len() || !is_word(chars[col]) {
        return col;
    }
    let mut start: usize = col;
    while start > 0 && is_word(chars[start - 1])
        invariant
            start <= col < chars@.len(),
            run_left(chars@, col as int) == run_left(chars@, start as int),
        decreases start,
    {
        start -= 1;
    }
    start
}

/// One past the last column of the word containing `col`.
fn word_end(lines: &Vec<String>, row: usize, col: usize) -> (r: usize)
    requires
        col < usize::MAX,
    ensures
        r == word_right(text::texts(lines@), row as int, col as int),
{
    if row >= lines.len() {
        return col + 1;
    }
    let chars = text::chars_of(lines[row].as_str());
    if col >= chars.len() || !is_word(chars[col]) {
        return num::min_usize(col + 1, chars.len());
    }
    let mut end: usize = col;
    while end < chars.len() && is_word(chars[end])
        invariant
            col <= end <= chars@.len(),
            run_right(chars@, col as int) == run_right(chars@, end as int),
        decreases chars@.len() - end,
    {
        end += 1;
    }
    end
}

/// Dragging from one cell to another selects what dragging back selects.
pub proof fn law_reversed_drag_selects_the_same(a: Selection, b: Selection, screen: Screen)
    requires
        a.resolved(screen),
        b.resolved(screen),
        a.mode == b.mode,
        a.anchor == b.head,
        a.head == b.anchor,
    ensures
        a.bounds() == b.bounds(),
{
}

// ------------------------------------------------------------------------- links

/// The start of the stretch without white space that ends just before `col`.
pub open spec fn token_left(line: Seq<char>, col: int) -> int
    decreases col,
{
    if col > 0 && !text::white_space(line[col - 1]) {
        token_left(line, col - 1)
    } else {
        col
    }
}

/// One past the stretch without white space that starts at `col`.
pub open spec fn token_right(line: Seq<char>, col: int) -> int
    decreases line.len() - col,
{
    if col < line.len() && !text::white_space(line[col]) {
        token_right(line, col + 1)
    } else {
        col
    }
}

pub open spec fn opens_link(c: char) -> bool {
    c == '(' || c == '<' || c == '"' || c == '\''
}

pub open spec fn closes_link(c: char) -> bool {
    c == ')' || c == '>' || c == '.' || c == ',' || c == ';' || c == '"' || c == '\''
}

/// Without the brackets and quotes in front.
pub open spec fn unopened(s: Seq<char>) -> Seq<char>
    decreases s.len(),
{
    if s.len() > 0 && opens_link(s[0]) {
        unopened(s.skip(1))
    } else {
        s
    }
}

/// Without the brackets, quotes and punctuation behind.
pub open spec fn unclosed(s: Seq<char>) -> Seq<char>
    decreases s.len(),
{
    if s.len() > 0 && closes_link(s.last()) {
        unclosed(s.drop_last())
    } else {
        s
    }
}

/// The link around a cell of a line.
pub open spec fn link_in(line: Seq<char>, col: int) -> Option<Seq<char>> {
    let token = unclosed(unopened(line.subrange(token_left(line, col), token_right(line, col))));
    if "http://"@.is_prefix_of(token) || "https://"@.is_prefix_of(token) {
        Some(token)
    } else {
        None
    }
}

/// Extracts the `http(s)://` token around a cell: widen to white space on both
/// sides, then trim the brackets and punctuation people wrap URLs in.
pub fn link_at(screen: &Screen, row: usize, col: usize) -> (r: Option<String>)
    ensures
        ({
            let line = grid_row(mode::grid_lines(screen.contents@), row as int);
            text::option_text(r) == (if col < line.len() {
                link_in(line, col as int)
            } else {
                None
            })
        }),
{
    let lines = mode::grid(screen.contents.as_str());
    if row >= lines.len() {
        return None;
    }
    let ghost line = grid_row(mode::grid_lines(screen.contents@), row as int);
    let chars = text::chars_of(lines[row].as_str());
    assert(line == chars@);
    if col >= chars.len() {
        return None;
    }
    let mut start: usize = col;
    while start > 0 && !chars[start - 1].is_whitespace()
        invariant
            start <= col < chars@.len(),
            token_left(chars@, col as int) == token_left(chars@, start as int),
        decreases start,
    {
        start -= 1;
    }
    let mut end: usize = col;
    while end < chars.len() && !chars[end].is_whitespace()
        invariant
            col <= end <= chars@.len(),
            token_right(chars@, col as int) == token_right(chars@, end as int),
        decreases chars@.len() - end,
    {
        end += 1;
    }
    let ghost token = chars@.subrange(start as int, end as int);
    let mut from: usize = start;
    while from < end && (chars[from] == '(' || chars[from] == '<' || chars[from] == '"'
        || chars[from] == '\'')
        invariant
            start <= from <= end <= chars@.len(),
            unopened(token) == unopened(chars@.subrange(from as int, end as int)),
        decreases end - from,
    {
        assert(chars@.subrange(from as int, end as int)[0] == chars@[from as int]);
        assert(chars@.subrange(from as int, end as int).skip(1) =~= chars@.subrange(
            from + 1,
            end as int,
        ));
        from += 1;
    }
    assert(unopened(token) == chars@.subrange(from as int, end as int)) by {
        if from < end {
            assert(chars@.subrange(from as int, end as int)[0] == chars@[from as int]);
        }
    }
    let mut to: usize = end;
    while to > from && (chars[to - 1] == ')' || chars[to - 1] == '>' || chars[to - 1] == '.'
        || chars[to - 1] == ',' || chars[to - 1] == ';' || chars[to - 1] == '"' || chars[to - 1]
        == '\'')
        invariant
            from <= to <= end <= chars@.len(),
            unclosed(unopened(token)) == unclosed(chars@.subrange(from as int, to as int)),
        decreases to,
    {
        assert(chars@.subrange(from as int, to as int).last() == chars@[to - 1]);
        assert(chars@.subrange(from as int, to as int).drop_last() =~= chars@.subrange(
            from as int,
            to - 1,
        ));
        to -= 1;
    }
    assert(unclosed(unopened(token)) == chars@.subrange(from as int, to as int)) by {
        if from < to {
            assert(chars@.subrange(from as int, to as int).last() == chars@[to - 1]);
        }
    }
    let link = text::text_of(chars.as_slice(), from, to);
    if text::starts_with(link.as_str(), "http://") || text::starts_with(
        link.as_str(),
        "https://",
    ) {
        Some(link)
    } else {
        None
    }
}

// ------------------------------------------------------------------------- mouse

pub open spec fn button_number(button: MouseButton) -> int {
    match button {
        MouseButton::Left => 0,
        MouseButton::Middle => 1,
        MouseButton::Right => 2,
    }
}

/// The button number of an event: 0 left, 1 middle, 2 right, 32 more while
/// dragging, 64 and up for the wheel.
pub open spec fn event_number(kind: MouseEventKind) -> int {
    match kind {
        MouseEventKind::Down(button) => button_number(button),
        MouseEventKind::Up(button) => button_number(button),
        MouseEventKind::Drag(button) => button_number(button) + 32,
        MouseEventKind::Moved => 35,
        MouseEventKind::ScrollUp => 64,
        MouseEventKind::ScrollDown => 65,
        MouseEventKind::ScrollLeft => 66,
        MouseEventKind::ScrollRight => 67,
    }
}

/// Modifier bits: 4 shift, 8 alt, 16 ctrl.
pub open spec fn modifier_number(modifiers: KeyModifiers) -> int {
    (if modifiers.shift {
        4int
    } else {
        0
    }) + (if modifiers.alt {
        8int
    } else {
        0
    }) + (if modifiers.control {
        16int
    } else {
        0
    })
}

fn number_of(button: MouseButton) -> (r: u64)
    ensures
        r == button_number(button),
        r <= 2,
{
    match button {
        MouseButton::Left => 0,
        MouseButton::Middle => 1,
        MouseButton::Right => 2,
    }
}

/// Encodes a mouse event as SGR bytes for a pane program that turned mouse
/// reporting on. `col` and `row` are relative to the pane and zero-based; SGR is
/// one-based.
pub fn sgr_mouse(kind: MouseEventKind, modifiers: KeyModifiers, col: u16, row: u16) -> (r: Vec<u8>)
    requires
        col < u16::MAX,
        row < u16::MAX,
    ensures
        r@ == vstd::utf8::encode_utf8(
            "\x1b[<"@ + text::decimal((event_number(kind) + modifier_number(modifiers)) as nat)
                + ";"@ + text::decimal((col + 1) as nat) + ";"@ + text::decimal((row + 1) as nat)
                + (if kind is Up {
                "m"@
            } else {
                "M"@
            }),
        ),
{
    let (base, release): (u64, bool) = match kind {
        MouseEventKind::Down(button) => (number_of(button), false),
        MouseEventKind::Up(button) => (number_of(button), true),
        MouseEventKind::Drag(button) => (number_of(button) + 32, false),
        MouseEventKind::Moved => (35, false),
        MouseEventKind::ScrollUp => (64, false),
        MouseEventKind::ScrollDown => (65, false),
        MouseEventKind::ScrollLeft => (66, false),
        MouseEventKind::ScrollRight => (67, false),
    };
    let mut code: u64 = base;
    if modifiers.shift {
        code += 4;
    }
    if modifiers.alt {
        code += 8;
    }
    if modifiers.control {
        code += 16;
    }
    let mut out = text::cat("\x1b[<", text::decimal_text(code).as_str());
    out.append(";");
    out.append(text::decimal_text((col + 1) as u64).as_str());
    out.append(";");
    out.append(text::decimal_text((row + 1) as u64).as_str());
    out.append(
        if release {
            "m"
        } else {
            "M"
        },
    );
    out.as_str().as_bytes_vec()
}

} // verus!
