//! Copy mode over a pane's history, clipboard escapes and the context menu.

use vstd::prelude::*;

use crate::num;
use crate::proto::{PaneId, TabId, WorkspaceId};
use crate::text;

verus! {

broadcast use vstd::utf8::is_char_boundary_start_end_of_seq;

/// Longest text, in bytes, that a clipboard escape carries.
pub const OSC52_LIMIT: usize = 100_000;

#[derive(Debug, Clone, Copy, PartialEq, Eq, Structural)]
pub struct Cursor {
    /// Absolute line index into the copy buffer (scrollback and screen).
    pub row: usize,
    /// Character (not byte) column within that line.
    pub col: usize,
}

/// Selection shape: `v` char-wise, `V` line-wise, `ctrl+v` rectangular block.
#[derive(Debug, Clone, Copy, PartialEq, Eq, Structural)]
pub enum SelectKind {
    Char,
    Line,
    Block,
}

/// An in-progress `/` or `?` search entry shown in the status bar.
#[derive(Debug, Clone, PartialEq, Eq)]
pub struct Prompt {
    pub forward: bool,
    pub input: String,
}

/// A committed search: the lowercased needle, the direction it was entered in,
/// and the line and column of every case-insensitive match.
#[derive(Debug, Clone, PartialEq, Eq)]
pub struct Search {
    pub query: String,
    pub forward: bool,
    pub matches: Vec<Cursor>,
}

/// Character class for vi-style word motions.
#[derive(Debug, Clone, Copy, PartialEq, Eq, Structural)]
pub enum Class {
    Space,
    Word,
    Punct,
}

/// Copy mode over a pane's full history. Holds the joined scrollback and screen
/// as plain lines and navigates them with a cursor in absolute line
/// coordinates. When the buffer was last refreshed is the caller's to remember.
#[derive(Debug, Clone)]
pub struct CopyMode {
    pub pane: PaneId,
    pub lines: Vec<String>,
    /// First visible line index (viewport offset).
    pub top: usize,
    /// Visible height in rows; drives page, half-page and H-M-L motions.
    pub height: usize,
    pub cursor: Cursor,
    pub anchor: Option<Cursor>,
    pub select: SelectKind,
    pub search: Option<Search>,
    pub prompt: Option<Prompt>,
    /// Set by a lone `g`; the next `g` jumps to the top.
    pub pending_g: bool,
}

// ------------------------------------------------------------- spec of motions

/// The characters of line `row`; nothing outside the buffer.
pub open spec fn row_text(lines: Seq<String>, row: int) -> Seq<char> {
    if 0 <= row < lines.len() {
        lines[row]@
    } else {
        Seq::empty()
    }
}

/// The class of the character at a position, row first. Past the last character
/// is the line break, treated as white space.
pub open spec fn class_of(lines: Seq<String>, p: (int, int), big: bool) -> Class {
    let line = row_text(lines, p.0);
    if p.1 >= line.len() || text::white_space(line[p.1]) {
        Class::Space
    } else if big || text::alphanumeric(line[p.1]) || line[p.1] == '_' {
        Class::Word
    } else {
        Class::Punct
    }
}

/// One position on: the line break counts as a position.
pub open spec fn next_position(lines: Seq<String>, p: (int, int)) -> Option<(int, int)> {
    if p.1 < row_text(lines, p.0).len() {
        Some((p.0, p.1 + 1))
    } else if p.0 + 1 < lines.len() {
        Some((p.0 + 1, 0int))
    } else {
        None
    }
}

/// One position back.
pub open spec fn prev_position(lines: Seq<String>, p: (int, int)) -> Option<(int, int)> {
    if p.1 > 0 {
        Some((p.0, p.1 - 1))
    } else if p.0 > 0 {
        Some((p.0 - 1, row_text(lines, p.0 - 1).len() as int))
    } else {
        None
    }
}

/// Positions from `p` on while they have class `class`, and one past them.
pub open spec fn skip_on(lines: Seq<String>, p: (int, int), big: bool, class: Class) -> (int, int)
    decreases num::max(lines.len() - p.0, 0), num::max(row_text(lines, p.0).len() - p.1, 0),
{
    if class_of(lines, p, big) != class {
        p
    } else {
        match next_position(lines, p) {
            Some(n) => skip_on(lines, n, big, class),
            None => p,
        }
    }
}

/// Positions from `p` back while they have class `class`, and one past them.
pub open spec fn skip_back(lines: Seq<String>, p: (int, int), big: bool, class: Class) -> (int, int)
    decreases num::max(p.0, 0), num::max(p.1, 0),
{
    if class_of(lines, p, big) != class {
        p
    } else {
        match prev_position(lines, p) {
            Some(n) => skip_back(lines, n, big, class),
            None => p,
        }
    }
}

/// The last position from `p` on that is joined to it by positions of class
/// `class`.
pub open spec fn run_end(lines: Seq<String>, p: (int, int), big: bool, class: Class) -> (int, int)
    decreases num::max(lines.len() - p.0, 0), num::max(row_text(lines, p.0).len() - p.1, 0),
{
    match next_position(lines, p) {
        Some(n) => if class_of(lines, n, big) == class {
            run_end(lines, n, big, class)
        } else {
            p
        },
        None => p,
    }
}

/// The first position from `p` back that is joined to it by positions of class
/// `class`.
pub open spec fn run_start(lines: Seq<String>, p: (int, int), big: bool, class: Class) -> (int, int)
    decreases num::max(p.0, 0), num::max(p.1, 0),
{
    match prev_position(lines, p) {
        Some(n) => if class_of(lines, n, big) == class {
            run_start(lines, n, big, class)
        } else {
            p
        },
        None => p,
    }
}

/// Where `w` leads: past the word under the cursor, then past white space.
pub open spec fn next_word_start(lines: Seq<String>, p: (int, int), big: bool) -> (int, int) {
    let start = class_of(lines, p, big);
    let after = if start != Class::Space {
        skip_on(lines, p, big, start)
    } else {
        p
    };
    skip_on(lines, after, big, Class::Space)
}

/// Where `b` leads: back over white space, then to the start of that word.
pub open spec fn prev_word_start(lines: Seq<String>, p: (int, int), big: bool) -> (int, int) {
    let back = match prev_position(lines, p) {
        Some(n) => n,
        None => p,
    };
    let word = skip_back(lines, back, big, Class::Space);
    run_start(lines, word, big, class_of(lines, word, big))
}

/// Where `e` leads: over white space, then to the end of that word.
pub open spec fn word_end_position(lines: Seq<String>, p: (int, int), big: bool) -> (int, int) {
    let on = match next_position(lines, p) {
        Some(n) => n,
        None => p,
    };
    let word = skip_on(lines, on, big, Class::Space);
    run_end(lines, word, big, class_of(lines, word, big))
}

/// A position moved inside the buffer: onto an existing line, no further right
/// than its end.
pub open spec fn clamped(lines: Seq<String>, p: (int, int)) -> Cursor {
    let row = num::min(p.0, num::max(lines.len() - 1, 0));
    Cursor { row: row as usize, col: num::min(p.1, row_text(lines, row).len() as int) as usize }
}

/// The viewport offset that shows `row`, moved as little as possible, with no
/// space below the last line unless the buffer is shorter than the viewport.
pub open spec fn scrolled(top: int, height: int, count: int, row: int) -> int {
    let near = if row < top {
        row
    } else if row >= top + height {
        row + 1 - height
    } else {
        top
    };
    num::min(near, num::max(count - height, 0))
}

/// Reading order of positions.
pub open spec fn before(a: Cursor, b: Cursor) -> bool {
    a.row < b.row || (a.row == b.row && a.col < b.col)
}

/// The first blank line after `row`, else the last line.
pub open spec fn next_blank(lines: Seq<String>, row: int) -> int
    decreases lines.len() - row,
{
    if row + 1 >= lines.len() {
        lines.len() - 1
    } else if text::blank(row_text(lines, row + 1)) {
        row + 1
    } else {
        next_blank(lines, row + 1)
    }
}

/// The last blank line before `row`, else the first line.
pub open spec fn prev_blank(lines: Seq<String>, row: int) -> int
    decreases row,
{
    if row <= 0 {
        0
    } else if text::blank(row_text(lines, row - 1)) {
        row - 1
    } else {
        prev_blank(lines, row - 1)
    }
}

/// The first character of a line that is not white space, else column zero.
pub open spec fn first_nonblank(line: Seq<char>, from: int) -> int
    decreases line.len() - from,
{
    if from >= line.len() {
        0
    } else if !text::white_space(line[from]) {
        from
    } else {
        first_nonblank(line, from + 1)
    }
}

// -------------------------------------------------------------- spec of search

/// Columns of the matches of `needle` from `from` on, left to right, none
/// overlapping.
pub open spec fn match_cols(hay: Seq<char>, needle: Seq<char>, from: int) -> Seq<int>
    decreases hay.len() - from,
{
    if needle.len() == 0 || from + needle.len() > hay.len() {
        Seq::empty()
    } else if text::occurs_at(hay, needle, from) {
        seq![from] + match_cols(hay, needle, from + needle.len())
    } else {
        match_cols(hay, needle, from + 1)
    }
}

/// The matches of `needle` in the first `count` lines, compared in lower case.
pub open spec fn matches_of(lines: Seq<String>, needle: Seq<char>, count: int) -> Seq<Cursor>
    decreases count,
{
    if count <= 0 {
        Seq::empty()
    } else {
        matches_of(lines, needle, count - 1) + match_cols(
            text::lowercase(lines[count - 1]@),
            needle,
            0,
        ).map_values(|col: int| Cursor { row: (count - 1) as usize, col: col as usize })
    }
}

/// The first match after `cur` in list order.
pub open spec fn match_after(matches: Seq<Cursor>, cur: Cursor) -> Option<Cursor>
    decreases matches.len(),
{
    if matches.len() == 0 {
        None
    } else if before(cur, matches[0]) {
        Some(matches[0])
    } else {
        match_after(matches.skip(1), cur)
    }
}

/// The last match before `cur` in list order.
pub open spec fn match_before(matches: Seq<Cursor>, cur: Cursor) -> Option<Cursor>
    decreases matches.len(),
{
    if matches.len() == 0 {
        None
    } else if before(matches.last(), cur) {
        Some(matches.last())
    } else {
        match_before(matches.drop_last(), cur)
    }
}

/// The nearest match in a direction, wrapping around.
pub open spec fn jump_target(matches: Seq<Cursor>, cur: Cursor, forward: bool) -> Cursor {
    if forward {
        match match_after(matches, cur) {
            Some(m) => m,
            None => matches[0],
        }
    } else {
        match match_before(matches, cur) {
            Some(m) => m,
            None => matches.last(),
        }
    }
}

// ----------------------------------------------------------- spec of selection

/// The part of a line between two columns, held inside the line.
pub open spec fn columns(line: Seq<char>, from: int, to: int) -> Seq<char> {
    if from < to && from < line.len() {
        line.subrange(from, num::min(to, line.len() as int))
    } else {
        Seq::empty()
    }
}

pub open spec fn first_of(a: Cursor, b: Cursor) -> Cursor {
    if before(b, a) {
        b
    } else {
        a
    }
}

pub open spec fn last_of(a: Cursor, b: Cursor) -> Cursor {
    if before(b, a) {
        a
    } else {
        b
    }
}

/// The columns that a selection covers on line `row`, before they are held
/// inside the line; the line has `len` characters.
pub open spec fn covered(select: SelectKind, start: Cursor, end: Cursor, row: int, len: int) -> (
    int,
    int,
) {
    match select {
        SelectKind::Line => (0, len),
        SelectKind::Block => (
            num::min(start.col as int, end.col as int),
            num::max(start.col as int, end.col as int),
        ),
        SelectKind::Char => (
            if row == start.row {
                start.col as int
            } else {
                0
            },
            if row == end.row {
                end.col as int
            } else {
                len
            },
        ),
    }
}

/// The text that a selection covers on lines `start.row` up to `row` exclusive.
pub open spec fn yanked_rows(
    lines: Seq<String>,
    select: SelectKind,
    start: Cursor,
    end: Cursor,
    row: int,
) -> Seq<Seq<char>>
    decreases row - start.row,
{
    if row <= start.row {
        Seq::empty()
    } else {
        let line = row_text(lines, row - 1);
        let span = covered(select, start, end, row - 1, line.len() as int);
        yanked_rows(lines, select, start, end, row - 1).push(columns(line, span.0, span.1))
    }
}

impl Cursor {
    /// The position as a pair, row first.
    pub open spec fn at(self) -> (int, int) {
        (self.row as int, self.col as int)
    }
}

impl CopyMode {
    pub open spec fn text_at(self, row: int) -> Seq<char> {
        row_text(self.lines@, row)
    }

    /// What the motions need: a line to stand on, a viewport, and positions
    /// whose arithmetic fits in an index.
    pub open spec fn wf(self) -> bool {
        &&& self.lines@.len() >= 1
        &&& self.height >= 1
        &&& self.top + self.height <= usize::MAX
        &&& self.cursor.row < usize::MAX
    }

    /// The cursor stands inside the buffer and inside the viewport.
    pub open spec fn in_view(self) -> bool {
        &&& self.wf()
        &&& self.cursor.row < self.lines@.len()
        &&& self.cursor.col <= self.text_at(self.cursor.row as int).len()
        &&& self.top <= self.cursor.row < self.top + self.height
        &&& self.top <= num::max(self.lines@.len() - self.height, 0)
    }

    /// The same state with the cursor at a position, moved inside the buffer,
    /// and the viewport scrolled to show it.
    pub open spec fn moved(self, p: (int, int)) -> CopyMode {
        let cursor = clamped(self.lines@, p);
        CopyMode {
            cursor,
            top: scrolled(
                self.top as int,
                self.height as int,
                self.lines@.len() as int,
                cursor.row as int,
            ) as usize,
            ..self
        }
    }

    /// The last row of the viewport that holds a line.
    pub open spec fn bottom_row(self) -> int {
        num::min(self.top + self.height - 1, self.lines@.len() - 1)
    }

    pub fn new(pane: PaneId, lines: Vec<String>, height: usize) -> (r: Self)
        ensures
            r.in_view(),
            r.pane == pane,
            lines@.len() > 0 ==> r.lines == lines,
            lines@.len() == 0 ==> r.lines@.len() == 1 && r.lines@[0]@.len() == 0,
            r.height == num::max(height as int, 1),
            r.top == num::max(r.lines@.len() - r.height, 0),
            r.cursor == (Cursor { row: (r.lines@.len() - 1) as usize, col: 0 }),
            r.anchor is None,
            r.select == SelectKind::Char,
            r.search is None,
            r.prompt is None,
            !r.pending_g,
    {
        let mut lines = lines;
        if lines.len() == 0 {
            lines.push(String::new());
        }
        let height: usize = num::max_usize(height, 1);
        let last: usize = lines.len() - 1;
        let top: usize = lines.len().saturating_sub(height);
        CopyMode {
            pane,
            lines,
            top,
            height,
            // Enter at the newest line.
            cursor: Cursor { row: last, col: 0 },
            anchor: None,
            select: SelectKind::Char,
            search: None,
            prompt: None,
            pending_g: false,
        }
    }

    /// The state once its buffer was replaced: cursor and viewport are valid again, the
    /// stored query is searched for anew in the new text, and the rest stays.
    pub open spec fn refreshed(self, height: int, after: CopyMode) -> bool {
        &&& after.in_view()
        &&& after.spans_fit()
        &&& after.height == num::max(height, 1)
        &&& after.cursor == clamped(after.lines@, self.cursor.at())
        &&& after.top == scrolled(
            self.top as int,
            after.height as int,
            after.lines@.len() as int,
            after.cursor.row as int,
        )
        &&& after.pane == self.pane
        &&& after.anchor == self.anchor
        &&& after.select == self.select
        &&& after.prompt == self.prompt
        &&& after.pending_g == self.pending_g
        &&& match self.search {
            None => after.search is None,
            Some(s) => after.searches_for(s.query@, s.forward),
        }
    }

    /// Replaces the buffer, keeping cursor and viewport valid and recomputing
    /// search matches against the new text.
    pub fn refresh(&mut self, lines: Vec<String>, height: usize)
        ensures
            lines@.len() > 0 ==> final(self).lines == lines,
            lines@.len() == 0 ==> final(self).lines@.len() == 1 && final(self).lines@[0]@.len()
                == 0,
            old(self).refreshed(height as int, *final(self)),
    {
        let mut lines = lines;
        if lines.len() == 0 {
            lines.push(String::new());
        }
        self.lines = lines;
        self.height = num::max_usize(height, 1);
        self.clamp();
        self.scroll_into_view();
        let search = self.search.take();
        if let Some(search) = search {
            self.set_search(search.query.as_str(), search.forward);
        }
    }

    /// The lines in the viewport.
    pub fn shown_lines(&self) -> (r: Vec<String>)
        requires
            self.in_view(),
        ensures
            r@ == self.lines@.subrange(
                self.top as int,
                num::min(self.top + self.height, self.lines@.len() as int),
            ),
    {
        let end: usize = num::min_usize(self.top + self.height, self.lines.len());
        let mut out: Vec<String> = Vec::new();
        let mut i: usize = self.top;
        while i < end
            invariant
                self.top <= i <= end <= self.lines@.len(),
                out@ == self.lines@.subrange(self.top as int, i as int),
            decreases end - i,
        {
            out.push(self.lines[i].clone());
            assert(self.lines@.subrange(self.top as int, i + 1) =~= self.lines@.subrange(
                self.top as int,
                i as int,
            ).push(self.lines@[i as int]));
            i += 1;
        }
        out
    }

    pub fn line_count(&self) -> (r: usize)
        ensures
            r == self.lines@.len(),
    {
        self.lines.len()
    }

    /// The text of a line; nothing outside the buffer.
    pub fn line(&self, row: usize) -> (r: &str)
        ensures
            r@ == self.text_at(row as int),
    {
        if row < self.lines.len() {
            self.lines[row].as_str()
        } else {
            proof {
                reveal_strlit("");
                assert(""@ =~= Seq::<char>::empty());
            }
            ""
        }
    }

    pub fn line_len(&self, row: usize) -> (r: usize)
        ensures
            r == self.text_at(row as int).len(),
    {
        self.line(row).unicode_len()
    }

    pub fn cur_line(&self) -> (r: &str)
        ensures
            r@ == self.text_at(self.cursor.row as int),
    {
        self.line(self.cursor.row)
    }

    fn clamp(&mut self)
        requires
            old(self).lines@.len() >= 1,
        ensures
            *final(self) == (CopyMode {
                cursor: clamped(old(self).lines@, old(self).cursor.at()),
                ..*old(self)
            }),
            final(self).cursor.row < old(self).lines@.len(),
            final(self).cursor.col <= old(self).text_at(final(self).cursor.row as int).len(),
    {
        let row: usize = num::min_usize(self.cursor.row, self.lines.len() - 1);
        let len: usize = self.line_len(row);
        let col: usize = num::min_usize(self.cursor.col, len);
        self.cursor = Cursor { row, col };
    }

    fn scroll_into_view(&mut self)
        requires
            old(self).lines@.len() >= 1,
            old(self).height >= 1,
            old(self).cursor.row < old(self).lines@.len(),
        ensures
            *final(self) == (CopyMode {
                top: scrolled(
                    old(self).top as int,
                    old(self).height as int,
                    old(self).lines@.len() as int,
                    old(self).cursor.row as int,
                ) as usize,
                ..*old(self)
            }),
            final(self).top == scrolled(
                old(self).top as int,
                old(self).height as int,
                old(self).lines@.len() as int,
                old(self).cursor.row as int,
            ),
            final(self).top <= final(self).cursor.row < final(self).top + final(self).height,
            final(self).top <= num::max(final(self).lines@.len() - final(self).height, 0),
            final(self).top + final(self).height <= usize::MAX,
    {
        let count: usize = self.lines.len();
        let mut top: usize = self.top;
        if self.cursor.row < top {
            top = self.cursor.row;
        } else if self.cursor.row - top >= self.height {
            top = self.cursor.row + 1 - self.height;
        }
        let max_top: usize = count.saturating_sub(self.height);
        self.top = num::min_usize(top, max_top);
    }

    // Every motion clamps the cursor and keeps it in view.
    fn after_move(&mut self)
        requires
            old(self).lines@.len() >= 1,
            old(self).height >= 1,
        ensures
            *final(self) == old(self).moved(old(self).cursor.at()),
            final(self).in_view(),
    {
        self.clamp();
        self.scroll_into_view();
    }

    fn move_to(&mut self, p: Cursor)
        requires
            old(self).wf(),
        ensures
            *final(self) == old(self).moved(p.at()),
            final(self).in_view(),
    {
        self.cursor = p;
        self.after_move();
    }

    /// Where the cursor is after moving `delta` rows, held inside the buffer.
    pub open spec fn rows_away(self, delta: int) -> (int, int) {
        (
            num::min(num::add_signed(self.cursor.row as int, delta), self.lines@.len() - 1),
            self.cursor.col as int,
        )
    }

    pub fn move_rows(&mut self, delta: isize)
        requires
            old(self).wf(),
        ensures
            *final(self) == old(self).moved(old(self).rows_away(delta as int)),
            final(self).in_view(),
    {
        let row: usize = num::min_usize(
            num::saturating_add_signed(self.cursor.row, delta),
            self.lines.len() - 1,
        );
        self.move_to(Cursor { row, col: self.cursor.col });
    }

    pub fn move_cols(&mut self, delta: isize)
        requires
            old(self).wf(),
        ensures
            *final(self) == old(self).moved(
                (
                    old(self).cursor.row as int,
                    num::min(
                        num::add_signed(old(self).cursor.col as int, delta as int),
                        old(self).text_at(old(self).cursor.row as int).len() as int,
                    ),
                ),
            ),
            final(self).in_view(),
    {
        let len: usize = self.line_len(self.cursor.row);
        let col: usize = num::min_usize(num::saturating_add_signed(self.cursor.col, delta), len);
        self.move_to(Cursor { row: self.cursor.row, col });
    }

    pub fn goto_line_start(&mut self)
        requires
            old(self).wf(),
        ensures
            *final(self) == old(self).moved((old(self).cursor.row as int, 0)),
            final(self).in_view(),
    {
        self.move_to(Cursor { row: self.cursor.row, col: 0 });
    }

    pub fn goto_line_end(&mut self)
        requires
            old(self).wf(),
        ensures
            *final(self) == old(self).moved(
                (
                    old(self).cursor.row as int,
                    old(self).text_at(old(self).cursor.row as int).len() as int,
                ),
            ),
            final(self).in_view(),
    {
        let len: usize = self.line_len(self.cursor.row);
        self.move_to(Cursor { row: self.cursor.row, col: len });
    }

    pub fn goto_first_nonblank(&mut self)
        requires
            old(self).wf(),
        ensures
            *final(self) == old(self).moved(
                (
                    old(self).cursor.row as int,
                    first_nonblank(old(self).text_at(old(self).cursor.row as int), 0),
                ),
            ),
            final(self).in_view(),
    {
        let chars = text::chars_of(self.cur_line());
        let ghost line = self.text_at(self.cursor.row as int);
        let mut col: usize = 0;
        while col < chars.len() && chars[col].is_whitespace()
            invariant
                chars@ == line,
                col <= chars@.len(),
                first_nonblank(line, 0) == first_nonblank(line, col as int),
            decreases chars@.len() - col,
        {
            col += 1;
        }
        if col >= chars.len() {
            col = 0;
        }
        self.move_to(Cursor { row: self.cursor.row, col });
    }

    pub fn goto_top(&mut self)
        requires
            old(self).wf(),
        ensures
            *final(self) == old(self).moved((0, 0)),
            final(self).in_view(),
    {
        self.move_to(Cursor { row: 0, col: 0 });
    }

    pub fn goto_bottom(&mut self)
        requires
            old(self).wf(),
        ensures
            *final(self) == old(self).moved((old(self).lines@.len() - 1, 0)),
            final(self).in_view(),
    {
        self.move_to(Cursor { row: self.lines.len() - 1, col: 0 });
    }

    /// Half a viewport down or up, at least one line.
    pub fn half_page(&mut self, down: bool)
        requires
            old(self).wf(),
        ensures
            *final(self) == old(self).moved(
                old(self).rows_away(
                    if down {
                        num::max(old(self).height as int / 2, 1)
                    } else {
                        -num::max(old(self).height as int / 2, 1)
                    },
                ),
            ),
            final(self).in_view(),
    {
        let delta: isize = num::max_usize(self.height / 2, 1) as isize;
        if down {
            self.move_rows(delta);
        } else {
            self.move_rows(-delta);
        }
    }

    /// A viewport down or up.
    pub fn page(&mut self, down: bool)
        requires
            old(self).wf(),
            old(self).height <= isize::MAX,
        ensures
            *final(self) == old(self).moved(
                old(self).rows_away(
                    if down {
                        old(self).height as int
                    } else {
                        -(old(self).height as int)
                    },
                ),
            ),
            final(self).in_view(),
    {
        let delta: isize = self.height as isize;
        if down {
            self.move_rows(delta);
        } else {
            self.move_rows(-delta);
        }
    }

    pub fn viewport_top(&mut self)
        requires
            old(self).wf(),
        ensures
            *final(self) == old(self).moved((old(self).top as int, old(self).cursor.col as int)),
            final(self).in_view(),
    {
        self.move_to(Cursor { row: self.top, col: self.cursor.col });
    }

    pub fn viewport_middle(&mut self)
        requires
            old(self).wf(),
        ensures
            *final(self) == old(self).moved(
                (
                    (old(self).top + old(self).bottom_row()) / 2,
                    old(self).cursor.col as int,
                ),
            ),
            final(self).in_view(),
    {
        let bottom: usize = num::min_usize(self.top + self.height - 1, self.lines.len() - 1);
        // The sum itself may not fit in an index.
        let row: usize = self.top / 2 + bottom / 2 + (self.top % 2 + bottom % 2) / 2;
        self.move_to(Cursor { row, col: self.cursor.col });
    }

    pub fn viewport_bottom(&mut self)
        requires
            old(self).wf(),
        ensures
            *final(self) == old(self).moved((old(self).bottom_row(), old(self).cursor.col as int)),
            final(self).in_view(),
    {
        let bottom: usize = num::min_usize(self.top + self.height - 1, self.lines.len() - 1);
        self.move_to(Cursor { row: bottom, col: self.cursor.col });
    }

    /// `{` / `}`: jump to the previous or next blank line.
    pub fn paragraph(&mut self, forward: bool)
        requires
            old(self).wf(),
        ensures
            *final(self) == old(self).moved(
                (
                    if forward {
                        next_blank(old(self).lines@, old(self).cursor.row as int)
                    } else {
                        prev_blank(old(self).lines@, old(self).cursor.row as int)
                    },
                    0,
                ),
            ),
            final(self).in_view(),
    {
        let count: usize = self.lines.len();
        let mut row: usize = self.cursor.row;
        let mut found = false;
        if forward {
            while !found && row + 1 < count
                invariant
                    count == self.lines@.len(),
                    count >= 1,
                    row < usize::MAX,
                    !found ==> next_blank(self.lines@, self.cursor.row as int) == next_blank(
                        self.lines@,
                        row as int,
                    ),
                    found ==> next_blank(self.lines@, self.cursor.row as int) == row,
                    found ==> row < count,
                decreases count - row,
            {
                row += 1;
                if text::is_blank(self.line(row)) {
                    found = true;
                }
            }
            if !found {
                row = count - 1;
            }
        } else {
            while !found && row > 0
                invariant
                    !found ==> prev_blank(self.lines@, self.cursor.row as int) == prev_blank(
                        self.lines@,
                        row as int,
                    ),
                    found ==> prev_blank(self.lines@, self.cursor.row as int) == row,
                    row <= self.cursor.row,
                decreases row,
            {
                row -= 1;
                if text::is_blank(self.line(row)) {
                    found = true;
                }
            }
        }
        self.move_to(Cursor { row, col: 0 });
    }

    // ------------------------------------------------------------ word motions

    fn char_at(&self, p: Cursor) -> (r: Option<char>)
        ensures
            r is Some <==> p.col < self.text_at(p.row as int).len(),
            r matches Some(c) ==> c == self.text_at(p.row as int)[p.col as int],
    {
        let line = self.line(p.row);
        if p.col < line.unicode_len() {
            Some(line.get_char(p.col))
        } else {
            None
        }
    }

    fn class_at(&self, p: Cursor, big: bool) -> (r: Class)
        ensures
            r == class_of(self.lines@, p.at(), big),
    {
        match self.char_at(p) {
            None => Class::Space,
            Some(c) => if c.is_whitespace() {
                Class::Space
            } else if big || c.is_alphanumeric() || c == '_' {
                Class::Word
            } else {
                Class::Punct
            },
        }
    }

    fn advance(&self, p: Cursor) -> (r: Option<Cursor>)
        requires
            p.row < usize::MAX,
        ensures
            r is Some == next_position(self.lines@, p.at()) is Some,
            r matches Some(n) ==> n.at() == next_position(self.lines@, p.at())->0 && n.row
                < usize::MAX,
    {
        if p.col < self.line_len(p.row) {
            Some(Cursor { row: p.row, col: p.col + 1 })
        } else if p.row + 1 < self.lines.len() {
            Some(Cursor { row: p.row + 1, col: 0 })
        } else {
            None
        }
    }

    fn retreat(&self, p: Cursor) -> (r: Option<Cursor>)
        ensures
            r is Some == prev_position(self.lines@, p.at()) is Some,
            r matches Some(n) ==> n.at() == prev_position(self.lines@, p.at())->0 && n.row <= p.row,
    {
        if p.col > 0 {
            Some(Cursor { row: p.row, col: p.col - 1 })
        } else if p.row > 0 {
            Some(Cursor { row: p.row - 1, col: self.line_len(p.row - 1) })
        } else {
            None
        }
    }

    fn skip_class_on(&self, from: Cursor, big: bool, class: Class) -> (r: Cursor)
        requires
            from.row < usize::MAX,
        ensures
            r.at() == skip_on(self.lines@, from.at(), big, class),
            r.row < usize::MAX,
    {
        let mut p = from;
        while self.class_at(p, big) == class
            invariant
                p.row < usize::MAX,
                skip_on(self.lines@, from.at(), big, class) == skip_on(
                    self.lines@,
                    p.at(),
                    big,
                    class,
                ),
            decreases
                    num::max(self.lines@.len() - p.row, 0),
                    num::max(self.text_at(p.row as int).len() - p.col, 0),
        {
            match self.advance(p) {
                Some(n) => {
                    p = n;
                },
                None => {
                    return p;
                },
            }
        }
        p
    }

    fn skip_class_back(&self, from: Cursor, big: bool, class: Class) -> (r: Cursor)
        requires
            from.row < usize::MAX,
        ensures
            r.at() == skip_back(self.lines@, from.at(), big, class),
            r.row < usize::MAX,
    {
        let mut p = from;
        while self.class_at(p, big) == class
            invariant
                p.row < usize::MAX,
                skip_back(self.lines@, from.at(), big, class) == skip_back(
                    self.lines@,
                    p.at(),
                    big,
                    class,
                ),
            decreases p.row, p.col,
        {
            match self.retreat(p) {
                Some(n) => {
                    p = n;
                },
                None => {
                    return p;
                },
            }
        }
        p
    }

    /// The start of the next word.
    pub fn next_word(&mut self, big: bool)
        requires
            old(self).wf(),
        ensures
            *final(self) == old(self).moved(
                next_word_start(old(self).lines@, old(self).cursor.at(), big),
            ),
            final(self).in_view(),
    {
        let start = self.class_at(self.cursor, big);
        let mut p = self.cursor;
        if start != Class::Space {
            p = self.skip_class_on(p, big, start);
        }
        p = self.skip_class_on(p, big, Class::Space);
        self.move_to(p);
    }

    /// The start of this word, or of the one before it.
    pub fn prev_word(&mut self, big: bool)
        requires
            old(self).wf(),
        ensures
            *final(self) == old(self).moved(
                prev_word_start(old(self).lines@, old(self).cursor.at(), big),
            ),
            final(self).in_view(),
    {
        let mut p = self.cursor;
        if let Some(n) = self.retreat(p) {
            p = n;
        }
        p = self.skip_class_back(p, big, Class::Space);
        let class = self.class_at(p, big);
        let ghost word = p.at();
        let mut going = true;
        while going
            invariant
                self.wf(),
                *self == *old(self),
                p.row < usize::MAX,
                going ==> run_start(self.lines@, word, big, class) == run_start(
                    self.lines@,
                    p.at(),
                    big,
                    class,
                ),
                !going ==> run_start(self.lines@, word, big, class) == p.at(),
            decreases
                    (if going {
                        1int
                    } else {
                        0int
                    }),
                    p.row,
                    p.col,
        {
            match self.retreat(p) {
                Some(n) => {
                    if self.class_at(n, big) == class {
                        p = n;
                    } else {
                        going = false;
                    }
                },
                None => {
                    going = false;
                },
            }
        }
        self.move_to(p);
    }

    /// The end of this word, or of the one after it.
    pub fn end_word(&mut self, big: bool)
        requires
            old(self).wf(),
        ensures
            *final(self) == old(self).moved(
                word_end_position(old(self).lines@, old(self).cursor.at(), big),
            ),
            final(self).in_view(),
    {
        let mut p = self.cursor;
        if let Some(n) = self.advance(p) {
            p = n;
        }
        p = self.skip_class_on(p, big, Class::Space);
        let class = self.class_at(p, big);
        let ghost word = p.at();
        let mut going = true;
        while going
            invariant
                self.wf(),
                *self == *old(self),
                p.row < usize::MAX,
                going ==> run_end(self.lines@, word, big, class) == run_end(
                    self.lines@,
                    p.at(),
                    big,
                    class,
                ),
                !going ==> run_end(self.lines@, word, big, class) == p.at(),
            decreases
                    (if going {
                        1int
                    } else {
                        0int
                    }),
                    num::max(self.lines@.len() - p.row, 0),
                    num::max(self.text_at(p.row as int).len() - p.col, 0),
        {
            match self.advance(p) {
                Some(n) => {
                    if self.class_at(n, big) == class {
                        p = n;
                    } else {
                        going = false;
                    }
                },
                None => {
                    going = false;
                },
            }
        }
        self.move_to(p);
    }

    // ------------------------------------------------------------------ search

    /// The highlighted ranges of the search can be told as columns.
    pub open spec fn spans_fit(self) -> bool {
        self.search matches Some(s) ==> forall|i: int|
            0 <= i < s.matches@.len() ==> (#[trigger] s.matches@[i]).col + s.query@.len()
                <= usize::MAX
    }

    /// Whether a search for a lower-case `needle` is committed, with the matches of
    /// this buffer.
    pub open spec fn holds(self, needle: Seq<char>, forward: bool) -> bool {
        &&& self.search is Some
        &&& self.search->0.query@ == needle
        &&& self.search->0.forward == forward
        &&& self.search->0.matches@ == matches_of(self.lines@, needle, self.lines@.len() as int)
    }

    /// Whether the committed search is the one for `query`, with the matches of
    /// this buffer.
    pub open spec fn searches_for(self, query: Seq<char>, forward: bool) -> bool {
        if query.len() == 0 {
            self.search is None
        } else {
            self.holds(text::lowercase(query), forward)
        }
    }

    /// Recomputes the case-insensitive matches for `query`; an empty query ends
    /// the search.
    pub fn set_search(&mut self, query: &str, forward: bool)
        ensures
            final(self).searches_for(query@, forward),
            final(self).spans_fit(),
            *final(self) == (CopyMode { search: final(self).search, ..*old(self) }),
    {
        if query.is_empty() {
            self.search = None;
            return ;
        }
        self.find(query.to_lowercase(), forward);
    }

    /// Commits a search for a lower-case needle.
    fn find(&mut self, needle: String, forward: bool)
        ensures
            final(self).holds(needle@, forward),
            final(self).spans_fit(),
            *final(self) == (CopyMode { search: final(self).search, ..*old(self) }),
    {
        let wanted = text::chars_of(needle.as_str());
        let mut matches: Vec<Cursor> = Vec::new();
        let mut row: usize = 0;
        while row < self.lines.len()
            invariant
                *self == *old(self),
                wanted@ == needle@,
                row <= self.lines@.len(),
                forall|i: int|
                    0 <= i < matches@.len() ==> (#[trigger] matches@[i]).col + wanted@.len()
                        <= usize::MAX,
                matches@ == matches_of(self.lines@, needle@, row as int),
            decreases self.lines@.len() - row,
        {
            let hay = text::chars_of(self.lines[row].to_lowercase().as_str());
            let ghost found = match_cols(hay@, needle@, 0);
            let ghost earlier = matches@;
            let mut from: usize = 0;
            assert(matches@ =~= earlier + found.take(0).map_values(
                |col: int| Cursor { row, col: col as usize },
            ));
            let ghost mut k: int = 0;
            assert(found.skip(0) =~= found);
            while wanted.len() > 0 && wanted.len() <= hay.len() && from <= hay.len() - wanted.len()
                invariant
                    wanted@ == needle@,
                    found == match_cols(hay@, needle@, 0),
                    0 <= k <= found.len(),
                    found.skip(k) == match_cols(hay@, needle@, from as int),
                    matches@ == earlier + found.take(k).map_values(
                        |col: int| Cursor { row, col: col as usize },
                    ),
                    from <= hay@.len(),
                    forall|i: int|
                        0 <= i < matches@.len() ==> (#[trigger] matches@[i]).col + wanted@.len()
                            <= usize::MAX,
                decreases hay@.len() - from,
            {
                if text::part_at(&hay, &wanted, from) {
                    proof {
                        let tail = match_cols(hay@, needle@, from + needle@.len());
                        assert(found.skip(k) =~= seq![from as int] + tail);
                        assert(found[k] == found.skip(k)[0]);
                        assert(found.skip(k + 1) =~= found.skip(k).skip(1));
                        assert(found.skip(k + 1) =~= tail);
                        assert(found.take(k + 1) =~= found.take(k).push(found[k]));
                    }
                    let ghost sofar = matches@;
                    matches.push(Cursor { row, col: from });
                    from = from + wanted.len();
                    assert(matches@ =~= earlier + found.take(k + 1).map_values(
                        |col: int| Cursor { row, col: col as usize },
                    ));
                    proof {
                        k = k + 1;
                    }
                } else {
                    from += 1;
                }
            }
            assert(found.skip(k).len() == 0);
            assert(found.take(k) =~= found);
            assert(matches@ =~= matches_of(self.lines@, needle@, row + 1));
            row += 1;
        }
        self.search = Some(Search { query: needle, forward, matches });
    }

    /// Jumps to the nearest match in a direction, wrapping around.
    pub fn search_jump(&mut self, forward: bool)
        requires
            old(self).wf(),
        ensures
            (old(self).search is None || old(self).search->0.matches@.len() == 0) ==> *final(self)
                == *old(self),
            old(self).search matches Some(s) ==> s.matches@.len() > 0 ==> {
                &&& *final(self) == old(self).moved(
                    jump_target(s.matches@, old(self).cursor, forward).at(),
                )
                &&& final(self).in_view()
            },
    {
        let target = match &self.search {
            None => return ,
            Some(search) => {
                if search.matches.len() == 0 {
                    return ;
                }
                nearest(&search.matches, self.cursor, forward)
            },
        };
        self.cursor = target;
        self.after_move();
    }

    pub fn clear_search(&mut self)
        ensures
            *final(self) == (CopyMode { search: None, ..*old(self) }),
    {
        self.search = None;
    }

    // --------------------------------------------------------------- selection

    /// Selected columns `[start, end)` on `row`, or `None` when unselected.
    pub fn selection_span(&self, row: usize) -> (r: Option<(usize, usize)>)
        ensures
            match self.anchor {
                None => r is None,
                Some(anchor) => {
                    let start = first_of(anchor, self.cursor);
                    let end = last_of(anchor, self.cursor);
                    let len = self.text_at(row as int).len() as int;
                    let span = covered(self.select, start, end, row as int, len);
                    if row < start.row || row > end.row {
                        r is None
                    } else {
                        r matches Some(got) && got.0 == num::min(span.0, len) && got.1 == num::min(span.1, len)
                    }
                },
            },
    {
        let anchor = match self.anchor {
            None => return None,
            Some(anchor) => anchor,
        };
        let (start, end) = ordered(anchor, self.cursor);
        if row < start.row || row > end.row {
            return None;
        }
        let len: usize = self.line_len(row);
        let (from, to) = covered_columns(self.select, start, end, row, len);
        Some((num::min_usize(from, len), num::min_usize(to, len)))
    }

    /// Match column ranges on `row`, for highlighting.
    pub fn search_spans(&self, row: usize) -> (r: Vec<(usize, usize)>)
        requires
            self.spans_fit(),
        ensures
            self.search is None ==> r@.len() == 0,
            self.search matches Some(s) ==> r@ == spans_on(
                s.matches@,
                row as int,
                s.query@.len() as int,
            ),
    {
        let mut out: Vec<(usize, usize)> = Vec::new();
        if let Some(search) = &self.search {
            let width: usize = search.query.as_str().unicode_len();
            let mut i: usize = 0;
            while i < search.matches.len()
                invariant
                    i <= search.matches@.len(),
                    width == search.query@.len(),
                    forall|i: int|
                        0 <= i < search.matches@.len() ==> (#[trigger] search.matches@[i]).col
                            + width <= usize::MAX,
                    out@ == spans_on(search.matches@.take(i as int), row as int, width as int),
                decreases search.matches@.len() - i,
            {
                let m = search.matches[i];
                assert(search.matches@.take(i + 1).drop_last() =~= search.matches@.take(i as int));
                assert(search.matches@.take(i + 1).last() == m);
                if m.row == row {
                    out.push((m.col, m.col + width));
                }
                i += 1;
            }
            assert(search.matches@.take(i as int) =~= search.matches@);
        }
        out
    }

    /// Text to yank: the selection if one is active, else the current line.
    pub fn yank_text(&self) -> (r: String)
        ensures
            match self.anchor {
                None => r@ == self.text_at(self.cursor.row as int),
                Some(anchor) => r@ == text::joined(
                    yanked_rows(
                        self.lines@,
                        self.select,
                        first_of(anchor, self.cursor),
                        last_of(anchor, self.cursor),
                        last_of(anchor, self.cursor).row + 1,
                    ),
                    "\n"@,
                ),
            },
    {
        let anchor = match self.anchor {
            None => return self.cur_line().to_owned(),
            Some(anchor) => anchor,
        };
        let (start, end) = ordered(anchor, self.cursor);
        let mut rows: Vec<String> = Vec::new();
        let mut row: usize = start.row;
        let mut going = true;
        while going
            invariant
                start.row <= row <= end.row,
                going ==> text::texts(rows@) == yanked_rows(
                    self.lines@,
                    self.select,
                    start,
                    end,
                    row as int,
                ),
                !going ==> row == end.row && text::texts(rows@) == yanked_rows(
                    self.lines@,
                    self.select,
                    start,
                    end,
                    end.row + 1,
                ),
            decreases
                    end.row - row,
                    (if going {
                        1int
                    } else {
                        0int
                    }),
        {
            let chars = text::chars_of(self.line(row));
            let (from, to) = covered_columns(self.select, start, end, row, chars.len());
            let ghost before = text::texts(rows@);
            let piece = cut(&chars, from, to);
            let ghost cut_text = piece@;
            rows.push(piece);
            assert(text::texts(rows@) =~= before.push(cut_text));
            if row == end.row {
                going = false;
            } else {
                row += 1;
            }
        }
        text::join(&rows, "\n")
    }
}

/// The highlighted ranges of the matches on one row.
pub open spec fn spans_on(matches: Seq<Cursor>, row: int, width: int) -> Seq<(usize, usize)>
    decreases matches.len(),
{
    if matches.len() == 0 {
        Seq::empty()
    } else {
        let rest = spans_on(matches.drop_last(), row, width);
        let m = matches.last();
        if m.row == row {
            rest.push((m.col, (m.col + width) as usize))
        } else {
            rest
        }
    }
}

/// The characters between two columns, held inside the line.
fn cut(chars: &Vec<char>, from: usize, to: usize) -> (r: String)
    ensures
        r@ == columns(chars@, from as int, to as int),
{
    let end: usize = num::min_usize(to, chars.len());
    if from < end {
        text::text_of(chars.as_slice(), from, end)
    } else {
        String::new()
    }
}

fn covered_columns(select: SelectKind, start: Cursor, end: Cursor, row: usize, len: usize) -> (r: (
    usize,
    usize,
))
    ensures
        (r.0 as int, r.1 as int) == covered(select, start, end, row as int, len as int),
{
    match select {
        SelectKind::Line => (0, len),
        SelectKind::Block => (
            num::min_usize(start.col, end.col),
            num::max_usize(start.col, end.col),
        ),
        SelectKind::Char => (
            if row == start.row {
                start.col
            } else {
                0
            },
            if row == end.row {
                end.col
            } else {
                len
            },
        ),
    }
}

fn is_before(a: Cursor, b: Cursor) -> (r: bool)
    ensures
        r == before(a, b),
{
    a.row < b.row || (a.row == b.row && a.col < b.col)
}

fn nearest(matches: &Vec<Cursor>, cur: Cursor, forward: bool) -> (r: Cursor)
    requires
        matches@.len() > 0,
    ensures
        r == jump_target(matches@, cur, forward),
{
    if forward {
        let mut i: usize = 0;
        assert(matches@.skip(0) =~= matches@);
        while i < matches.len()
            invariant
                forward,
                i <= matches@.len(),
                match_after(matches@, cur) == match_after(matches@.skip(i as int), cur),
            decreases matches@.len() - i,
        {
            assert(matches@.skip(i as int)[0] == matches@[i as int]);
            assert(matches@.skip(i as int).skip(1) =~= matches@.skip(i + 1));
            if is_before(cur, matches[i]) {
                return matches[i];
            }
            i += 1;
        }
        matches[0]
    } else {
        let mut i: usize = matches.len();
        assert(matches@.take(i as int) =~= matches@);
        while i > 0
            invariant
                !forward,
                i <= matches@.len(),
                match_before(matches@, cur) == match_before(matches@.take(i as int), cur),
            decreases i,
        {
            assert(matches@.take(i as int).last() == matches@[i - 1]);
            assert(matches@.take(i as int).drop_last() =~= matches@.take(i - 1));
            if is_before(matches[i - 1], cur) {
                return matches[i - 1];
            }
            i -= 1;
        }
        matches[matches.len() - 1]
    }
}

/// Orders two cursors so that the first is at or before the second.
pub fn ordered(a: Cursor, b: Cursor) -> (r: (Cursor, Cursor))
    ensures
        r == (first_of(a, b), last_of(a, b)),
        !before(r.1, r.0),
{
    if is_before(b, a) {
        (b, a)
    } else {
        (a, b)
    }
}

// ---------------------------------------------------------------- search order

proof fn lemma_match_cols(hay: Seq<char>, needle: Seq<char>, from: int)
    requires
        0 <= from,
    ensures
        forall|i: int|
            0 <= i < match_cols(hay, needle, from).len() ==> from <= #[trigger] match_cols(
                hay,
                needle,
                from,
            )[i] <= hay.len() - needle.len() && occurs_at_col(hay, needle, from, i),
        forall|i: int, j: int|
            0 <= i < j < match_cols(hay, needle, from).len() ==> #[trigger] match_cols(
                hay,
                needle,
                from,
            )[i] + needle.len() <= #[trigger] match_cols(hay, needle, from)[j],
        needle.len() == 0 ==> match_cols(hay, needle, from).len() == 0,
    decreases hay.len() - from,
{
    let cols = match_cols(hay, needle, from);
    if needle.len() > 0 && from + needle.len() <= hay.len() {
        if text::occurs_at(hay, needle, from) {
            let rest = match_cols(hay, needle, from + needle.len());
            lemma_match_cols(hay, needle, from + needle.len());
            assert forall|i: int| 0 <= i < cols.len() implies from <= #[trigger] cols[i]
                <= hay.len() - needle.len() && occurs_at_col(hay, needle, from, i) by {
                if i > 0 {
                    assert(cols[i] == rest[i - 1]);
                    assert(occurs_at_col(hay, needle, from + needle.len(), i - 1));
                }
            }
            assert forall|i: int, j: int| 0 <= i < j < cols.len() implies #[trigger] cols[i]
                + needle.len() <= #[trigger] cols[j] by {
                assert(cols[j] == rest[j - 1]);
                if i > 0 {
                    assert(cols[i] == rest[i - 1]);
                }
            }
        } else {
            lemma_match_cols(hay, needle, from + 1);
            let rest = match_cols(hay, needle, from + 1);
            assert(cols == rest);
            assert forall|i: int| 0 <= i < cols.len() implies from <= #[trigger] cols[i]
                <= hay.len() - needle.len() && occurs_at_col(hay, needle, from, i) by {
                assert(cols[i] == rest[i]);
                assert(occurs_at_col(hay, needle, from + 1, i));
            }
            assert forall|i: int, j: int| 0 <= i < j < cols.len() implies #[trigger] cols[i]
                + needle.len() <= #[trigger] cols[j] by {
                assert(rest[i] + needle.len() <= rest[j]);
            }
        }
    } else {
        assert(cols.len() == 0);
    }
}

spec fn occurs_at_col(hay: Seq<char>, needle: Seq<char>, from: int, i: int) -> bool {
    text::occurs_at(hay, needle, match_cols(hay, needle, from)[i])
}

/// The matches of a search are listed in reading order, each one where the
/// needle occurs in the lower-case line.
pub proof fn law_matches_are_in_reading_order(lines: Seq<String>, needle: Seq<char>, count: int)
    requires
        0 <= count <= lines.len() <= usize::MAX,
        forall|i: int|
            0 <= i < lines.len() ==> text::lowercase((#[trigger] lines[i])@).len() <= usize::MAX,
    ensures
        forall|i: int|
            0 <= i < matches_of(lines, needle, count).len() ==> {
                let m = #[trigger] matches_of(lines, needle, count)[i];
                m.row < count && text::occurs_at(
                    text::lowercase(lines[m.row as int]@),
                    needle,
                    m.col as int,
                )
            },
        forall|i: int, j: int|
            0 <= i < j < matches_of(lines, needle, count).len() ==> before(
                #[trigger] matches_of(lines, needle, count)[i],
                #[trigger] matches_of(lines, needle, count)[j],
            ),
    decreases count,
{
    if count > 0 {
        law_matches_are_in_reading_order(lines, needle, count - 1);
        let earlier = matches_of(lines, needle, count - 1);
        let hay = text::lowercase(lines[count - 1]@);
        let cols = match_cols(hay, needle, 0);
        lemma_match_cols(hay, needle, 0);
        let all = matches_of(lines, needle, count);
        assert forall|i: int| 0 <= i < all.len() implies {
            let m = #[trigger] all[i];
            m.row < count && text::occurs_at(text::lowercase(lines[m.row as int]@), needle, m.col as int)
        } by {
            if i < earlier.len() {
                assert(all[i] == earlier[i]);
            } else {
                let k = i - earlier.len();
                assert(occurs_at_col(hay, needle, 0, k));
                assert(0 <= cols[k] <= hay.len() - needle.len());
                assert(all[i].col == cols[k]);
            }
        }
        assert forall|i: int, j: int| 0 <= i < j < all.len() implies before(
            #[trigger] all[i],
            #[trigger] all[j],
        ) by {
            if j < earlier.len() {
                assert(all[i] == earlier[i]);
                assert(all[j] == earlier[j]);
            } else {
                let l = j - earlier.len();
                assert(0 <= cols[l] <= hay.len() - needle.len());
                assert(all[j].col == cols[l]);
                if i < earlier.len() {
                    assert(all[i] == earlier[i]);
                } else {
                    let k = i - earlier.len();
                    assert(0 <= cols[k] <= hay.len() - needle.len());
                    assert(all[i].col == cols[k]);
                    assert(cols[k] + needle.len() <= cols[l]);
                }
            }
        }
    }
}

proof fn lemma_spans_of_parts(a: Seq<Cursor>, b: Seq<Cursor>, row: int, width: int)
    ensures
        spans_on(a + b, row, width) == spans_on(a, row, width) + spans_on(b, row, width),
    decreases b.len(),
{
    if b.len() == 0 {
        assert(a + b =~= a);
    } else {
        lemma_spans_of_parts(a, b.drop_last(), row, width);
        assert((a + b).drop_last() =~= a + b.drop_last());
        assert((a + b).last() == b.last());
        assert(spans_on(a + b, row, width) =~= spans_on(a, row, width) + spans_on(b, row, width));
    }
}

proof fn lemma_spans_of_row(cols: Seq<int>, at: usize, row: int, width: int)
    requires
        row >= 0,
    ensures
        spans_on(cols.map_values(|col: int| Cursor { row: at, col: col as usize }), row, width)
            == (if at == row {
            cols.map_values(|col: int| (col as usize, (col as usize + width) as usize))
        } else {
            Seq::empty()
        }),
    decreases cols.len(),
{
    let all = cols.map_values(|col: int| Cursor { row: at, col: col as usize });
    if cols.len() > 0 {
        lemma_spans_of_row(cols.drop_last(), at, row, width);
        assert(all.drop_last() =~= cols.drop_last().map_values(
            |col: int| Cursor { row: at, col: col as usize },
        ));
        if at == row {
            assert(spans_on(all, row, width) =~= cols.map_values(
                |col: int| (col as usize, (col as usize + width) as usize),
            ));
        }
    } else {
        assert(spans_on(all, row, width) =~= (if at == row {
            cols.map_values(|col: int| (col as usize, (col as usize + width) as usize))
        } else {
            Seq::empty()
        }));
    }
}

proof fn lemma_spans_of_matches(lines: Seq<String>, needle: Seq<char>, count: int, row: int)
    requires
        0 <= count <= lines.len() <= usize::MAX,
        row >= 0,
    ensures
        spans_on(matches_of(lines, needle, count), row, needle.len() as int) == (if row < count {
            match_cols(text::lowercase(lines[row]@), needle, 0).map_values(
                |col: int| (col as usize, (col as usize + needle.len()) as usize),
            )
        } else {
            Seq::empty()
        }),
    decreases count,
{
    let width = needle.len() as int;
    if count > 0 {
        lemma_spans_of_matches(lines, needle, count - 1, row);
        let cols = match_cols(text::lowercase(lines[count - 1]@), needle, 0);
        let here = cols.map_values(
            |col: int| Cursor { row: (count - 1) as usize, col: col as usize },
        );
        lemma_spans_of_parts(matches_of(lines, needle, count - 1), here, row, width);
        lemma_spans_of_row(cols, (count - 1) as usize, row, width);
        assert(spans_on(matches_of(lines, needle, count), row, width) =~= (if row < count {
            match_cols(text::lowercase(lines[row]@), needle, 0).map_values(
                |col: int| (col as usize, (col as usize + needle.len()) as usize),
            )
        } else {
            Seq::empty()
        }));
    }
}

/// Whether ranges of a row are ascending and disjoint, each as wide as a lower-case
/// needle and inside the row, with the needle under each one.
pub open spec fn shows_query(
    spans: Seq<(usize, usize)>,
    line: Seq<char>,
    needle: Seq<char>,
) -> bool {
    let low = text::lowercase(line);
    &&& forall|i: int, j: int|
        0 <= i < j < spans.len() ==> (#[trigger] spans[i]).1 <= (#[trigger] spans[j]).0
    &&& forall|i: int|
        0 <= i < spans.len() ==> {
            let span = #[trigger] spans[i];
            &&& span.0 < span.1 <= low.len()
            &&& span.1 - span.0 == needle.len()
            &&& low.subrange(span.0 as int, span.1 as int) == needle
            &&& text::all_ascii(line) ==> low.len() == line.len() && text::lowercase(
                line.subrange(span.0 as int, span.1 as int),
            ) == needle
        }
}

proof fn lemma_spans_of_one_row(mode: CopyMode, needle: Seq<char>, row: int)
    requires
        0 <= row < mode.lines@.len(),
        text::lowercase(mode.lines@[row]@).len() <= usize::MAX,
        spans_on(mode.search->0.matches@, row, needle.len() as int) == match_cols(
            text::lowercase(mode.lines@[row]@),
            needle,
            0,
        ).map_values(|col: int| (col as usize, (col as usize + needle.len()) as usize)),
    ensures
        shows_query(
            spans_on(mode.search->0.matches@, row, needle.len() as int),
            mode.lines@[row]@,
            needle,
        ),
{
    let line = mode.lines@[row]@;
    let low = text::lowercase(line);
    let cols = match_cols(low, needle, 0);
    let spans = spans_on(mode.search->0.matches@, row, needle.len() as int);
    lemma_match_cols(low, needle, 0);
    assert forall|i: int| 0 <= i < spans.len() implies ({
        let span = #[trigger] spans[i];
        &&& span.0 == cols[i]
        &&& span.1 == cols[i] + needle.len()
        &&& span.0 < span.1 <= low.len()
        &&& low.subrange(span.0 as int, span.1 as int) == needle
        &&& text::all_ascii(line) ==> low.len() == line.len() && text::lowercase(
            line.subrange(span.0 as int, span.1 as int),
        ) == needle
    }) by {
        let col = cols[i];
        assert(occurs_at_col(low, needle, 0, i));
        assert(0 <= col <= low.len() - needle.len());
        let under = low.subrange(col, col + needle.len());
        assert(under =~= needle);
        if text::all_ascii(line) {
            let part = line.subrange(col, col + needle.len());
            assert(text::all_ascii(part));
            assert(text::lowercase(part) =~= under);
        }
    }
    assert forall|i: int, j: int| 0 <= i < j < spans.len() implies (#[trigger] spans[i]).1 <= (
    #[trigger] spans[j]).0 by {
        assert(cols[i] + needle.len() <= cols[j]);
    }
}

/// A refresh goes on searching for what was searched for. Of a query with characters
/// outside ASCII this is said where its lower case is its own lower case.
pub proof fn law_refresh_keeps_the_search(
    before: CopyMode,
    height: int,
    after: CopyMode,
    query: Seq<char>,
    forward: bool,
)
    requires
        before.refreshed(height, after),
        before.searches_for(query, forward),
        text::all_ascii(query) || (text::lowercase(query).len() > 0 && text::lowercase(
            text::lowercase(query),
        ) == text::lowercase(query)),
    ensures
        after.searches_for(query, forward),
{
    if text::all_ascii(query) {
        let low = text::lowercase(query);
        assert forall|i: int| 0 <= i < low.len() implies text::ascii(#[trigger] low[i])
            && text::ascii_lowercase(low[i]) == low[i] by {
            assert(low[i] == text::ascii_lowercase(query[i]));
            assert(text::ascii(query[i]));
        }
        assert(text::lowercase(low) =~= low);
    }
}

/// The highlighted ranges of a row are ascending and disjoint, each as wide as the
/// query and inside the row, and under each one the lower-case row reads as the
/// lower-case query. On an ASCII row the text under it is the query, ignoring case.
pub proof fn law_spans_show_the_query(mode: CopyMode, query: Seq<char>, forward: bool, row: int)
    requires
        query.len() > 0,
        mode.searches_for(query, forward),
        0 <= row,
        mode.lines@.len() <= usize::MAX,
        row < mode.lines@.len() ==> text::lowercase(mode.lines@[row]@).len() <= usize::MAX,
    ensures
        row >= mode.lines@.len() ==> spans_on(
            mode.search->0.matches@,
            row,
            text::lowercase(query).len() as int,
        ).len() == 0,
        row < mode.lines@.len() ==> shows_query(
            spans_on(mode.search->0.matches@, row, text::lowercase(query).len() as int),
            mode.lines@[row]@,
            text::lowercase(query),
        ),
{
    let needle = text::lowercase(query);
    lemma_spans_of_matches(mode.lines@, needle, mode.lines@.len() as int, row);
    if row < mode.lines@.len() {
        lemma_spans_of_one_row(mode, needle, row);
    }
}

// ------------------------------------------------------------ lines and escapes

/// The lines of a screen, at least one.
pub open spec fn grid_lines(contents: Seq<char>) -> Seq<Seq<char>> {
    if text::line_texts(contents).len() == 0 {
        seq![Seq::<char>::empty()]
    } else {
        text::line_texts(contents)
    }
}

/// Splits terminal `contents` into lines, guaranteeing at least one row.
pub fn grid(contents: &str) -> (r: Vec<String>)
    ensures
        text::texts(r@) == grid_lines(contents@),
        r@.len() >= 1,
{
    let mut lines = text::lines(contents);
    if lines.len() == 0 {
        lines.push(String::new());
        assert(text::texts(lines@) =~= seq![Seq::<char>::empty()]);
    }
    lines
}

/// The largest character boundary that does not exceed `index`.
pub open spec fn boundary_below(bytes: Seq<u8>, index: int) -> int
    decreases index,
{
    if index <= 0 || vstd::utf8::is_char_boundary(bytes, index) {
        index
    } else {
        boundary_below(bytes, index - 1)
    }
}

/// A text held to at most `limit` bytes, cut at a character boundary.
pub open spec fn limited(bytes: Seq<u8>, limit: int) -> Seq<u8> {
    if bytes.len() <= limit {
        bytes
    } else {
        bytes.take(boundary_below(bytes, limit))
    }
}

/// Holds a text to what a clipboard escape carries; says whether it was cut.
pub fn limit(text: &str) -> (r: (&str, bool))
    ensures
        vstd::utf8::encode_utf8(r.0@) == limited(vstd::utf8::encode_utf8(text@), OSC52_LIMIT as int),
        r.1 == (vstd::utf8::encode_utf8(text@).len() > OSC52_LIMIT),
{
    if text.as_bytes().len() <= OSC52_LIMIT {
        return (text, false);
    }
    let ghost bytes = vstd::utf8::encode_utf8(text@);
    let mut index: usize = OSC52_LIMIT;
    while index > 0 && !text.is_char_boundary(index)
        invariant
            bytes == vstd::utf8::encode_utf8(text@),
            index <= OSC52_LIMIT < bytes.len(),
            boundary_below(bytes, OSC52_LIMIT as int) == boundary_below(bytes, index as int),
        decreases index,
    {
        index -= 1;
    }
    proof {
        vstd::utf8::encode_utf8_valid_utf8(text@);
        assert(vstd::utf8::is_char_boundary(bytes, 0));
    }
    let (head, _tail) = text.split_at(index);
    assert(bytes.subrange(0, index as int) =~= bytes.take(index as int));
    (head, true)
}

/// What is kept of a text is a valid text, a prefix of it, and no longer than
/// the limit.
pub proof fn law_limit_keeps_a_prefix(bytes: Seq<u8>, limit: int)
    requires
        vstd::utf8::valid_utf8(bytes),
        limit >= 0,
    ensures
        limited(bytes, limit).len() <= limit,
        limited(bytes, limit).is_prefix_of(bytes),
        vstd::utf8::valid_utf8(limited(bytes, limit)),
{
    if bytes.len() > limit {
        lemma_boundary_below(bytes, limit);
        let at = boundary_below(bytes, limit);
        assert(bytes.take(at) =~= bytes.subrange(0, at));
        vstd::utf8::valid_utf8_split(bytes, at);
    } else {
        assert(bytes.subrange(0, bytes.len() as int) =~= bytes);
    }
}

proof fn lemma_boundary_below(bytes: Seq<u8>, index: int)
    requires
        vstd::utf8::valid_utf8(bytes),
        0 <= index <= bytes.len(),
    ensures
        0 <= boundary_below(bytes, index) <= index,
        vstd::utf8::is_char_boundary(bytes, boundary_below(bytes, index)),
    decreases index,
{
    assert(vstd::utf8::is_char_boundary(bytes, 0));
    if index > 0 && !vstd::utf8::is_char_boundary(bytes, index) {
        lemma_boundary_below(bytes, index - 1);
    }
}

/// The base64 character for a value below 64.
pub open spec fn base64_char(n: int) -> char {
    if n < 26 {
        (('A' as int) + n) as char
    } else if n < 52 {
        (('a' as int) + n - 26) as char
    } else if n < 62 {
        (('0' as int) + n - 52) as char
    } else if n == 62 {
        '+'
    } else {
        '/'
    }
}

/// Four characters for one group of up to three bytes; `count` of them are real.
pub open spec fn base64_group(b0: int, b1: int, b2: int, count: int) -> Seq<char> {
    let n = b0 * 65536 + b1 * 256 + b2;
    seq![
        base64_char(n / 262144),
        base64_char(n / 4096 % 64),
        if count > 1 {
            base64_char(n / 64 % 64)
        } else {
            '='
        },
        if count > 2 {
            base64_char(n % 64)
        } else {
            '='
        },
    ]
}

/// Base64 with padding, from the front in groups of three bytes.
pub open spec fn base64_text(bytes: Seq<u8>) -> Seq<char>
    decreases bytes.len(),
{
    if bytes.len() == 0 {
        Seq::empty()
    } else if bytes.len() == 1 {
        base64_group(bytes[0] as int, 0, 0, 1)
    } else if bytes.len() == 2 {
        base64_group(bytes[0] as int, bytes[1] as int, 0, 2)
    } else {
        base64_group(bytes[0] as int, bytes[1] as int, bytes[2] as int, 3) + base64_text(
            bytes.skip(3),
        )
    }
}

fn base64_digit(n: u32) -> (r: char)
    requires
        n < 64,
    ensures
        r == base64_char(n as int),
{
    let d: u8 = n as u8;
    if d < 26 {
        (65 + d) as char
    } else if d < 52 {
        (71 + d) as char
    } else if d < 62 {
        (d - 4) as char
    } else if d == 62 {
        '+'
    } else {
        '/'
    }
}

/// Base64 with padding.
pub fn base64(input: &[u8]) -> (r: String)
    ensures
        r@ == base64_text(input@),
{
    let mut out = String::new();
    let mut i: usize = 0;
    assert(input@.skip(0) =~= input@);
    while i < input.len()
        invariant
            i <= input.len(),
            out@ + base64_text(input@.skip(i as int)) == base64_text(input@),
        decreases input@.len() - i,
    {
        let ghost rest = input@.skip(i as int);
        let ghost before = out@;
        let left: usize = input.len() - i;
        let b0: u32 = input[i] as u32;
        let b1: u32 = if left > 1 {
            input[i + 1] as u32
        } else {
            0
        };
        let b2: u32 = if left > 2 {
            input[i + 2] as u32
        } else {
            0
        };
        let n: u32 = b0 * 65536 + b1 * 256 + b2;
        out.push(base64_digit(n / 262144));
        out.push(base64_digit(n / 4096 % 64));
        out.push(
            if left > 1 {
                base64_digit(n / 64 % 64)
            } else {
                '='
            },
        );
        out.push(
            if left > 2 {
                base64_digit(n % 64)
            } else {
                '='
            },
        );
        let count: usize = if left > 3 {
            3
        } else {
            left
        };
        proof {
            let group = base64_group(b0 as int, b1 as int, b2 as int, count as int);
            assert(out@ =~= before + group);
            assert(rest[0] == input@[i as int]);
            if left > 1 {
                assert(rest[1] == input@[i + 1]);
            }
            if left > 2 {
                assert(rest[2] == input@[i + 2]);
                assert(rest.skip(3) =~= input@.skip(i + 3));
                assert(before + (group + base64_text(rest.skip(3))) =~= out@ + base64_text(
                    input@.skip(i + 3),
                ));
            } else {
                assert(input@.skip(i + count) =~= Seq::<u8>::empty());
                assert(base64_text(rest) == group);
                assert(out@ + base64_text(input@.skip(i + count)) =~= before + group);
            }
        }
        i = i + count;
    }
    assert(input@.skip(i as int) =~= Seq::<u8>::empty());
    assert(out@ + base64_text(input@.skip(i as int)) =~= out@);
    out
}

/// Base64 turns every group of up to three bytes into four characters.
pub proof fn law_base64_length(bytes: Seq<u8>)
    ensures
        base64_text(bytes).len() == (bytes.len() + 2) / 3 * 4,
    decreases bytes.len(),
{
    if bytes.len() > 2 {
        law_base64_length(bytes.skip(3));
    }
}

/// The escape that sets the clipboard to a text, and whether the text was cut.
pub fn osc52(text: &str) -> (r: (String, bool))
    ensures
        r.0@ == "\x1b]52;c;"@ + base64_text(limited(vstd::utf8::encode_utf8(text@), OSC52_LIMIT as int)) + "\x07"@,
        r.1 == (vstd::utf8::encode_utf8(text@).len() > OSC52_LIMIT),
{
    let (kept, truncated) = limit(text);
    (text::cat3("\x1b]52;c;", base64(kept.as_bytes()).as_str(), "\x07"), truncated)
}

// ------------------------------------------------------------------ context menu

#[derive(Debug, Clone, Copy, PartialEq, Eq, Structural)]
pub enum MenuTarget {
    Pane(PaneId),
    Tab(TabId),
    Workspace(WorkspaceId),
}

#[derive(Debug, Clone, Copy, PartialEq, Eq, Structural)]
pub enum MenuAction {
    SplitRight,
    SplitDown,
    Rename,
    Zoom,
    Close,
    /// Pane into its own tab.
    BreakToTab,
    /// Reset split ratios in the pane's tab.
    Equalize,
    /// Reorder a tab.
    MoveLeft,
    MoveRight,
    /// Open the help overlay; present on every target.
    Help,
    /// Cycle a workspace's sidebar swatch through the preset colors.
    Color,
}

#[derive(Debug, Clone)]
pub struct Menu {
    pub target: MenuTarget,
    pub x: u16,
    pub y: u16,
    pub selected: usize,
}

/// The entries of the menu for a target, top to bottom.
pub open spec fn menu_actions(target: MenuTarget) -> Seq<MenuAction> {
    match target {
        MenuTarget::Pane(_) => seq![
            MenuAction::SplitRight,
            MenuAction::SplitDown,
            MenuAction::Rename,
            MenuAction::Zoom,
            MenuAction::BreakToTab,
            MenuAction::Equalize,
            MenuAction::Close,
            MenuAction::Help,
        ],
        MenuTarget::Tab(_) => seq![
            MenuAction::Rename,
            MenuAction::MoveLeft,
            MenuAction::MoveRight,
            MenuAction::Close,
            MenuAction::Help,
        ],
        MenuTarget::Workspace(_) => seq![
            MenuAction::Rename,
            MenuAction::Color,
            MenuAction::Close,
            MenuAction::Help,
        ],
    }
}

impl Menu {
    /// The entries of this menu, top to bottom.
    pub fn actions(&self) -> (r: Vec<MenuAction>)
        ensures
            r@ == menu_actions(self.target),
    {
        match self.target {
            MenuTarget::Pane(_) => vec![
                MenuAction::SplitRight,
                MenuAction::SplitDown,
                MenuAction::Rename,
                MenuAction::Zoom,
                MenuAction::BreakToTab,
                MenuAction::Equalize,
                MenuAction::Close,
                MenuAction::Help,
            ],
            MenuTarget::Tab(_) => vec![
                MenuAction::Rename,
                MenuAction::MoveLeft,
                MenuAction::MoveRight,
                MenuAction::Close,
                MenuAction::Help,
            ],
            MenuTarget::Workspace(_) => vec![
                MenuAction::Rename,
                MenuAction::Color,
                MenuAction::Close,
                MenuAction::Help,
            ],
        }
    }

    /// Moves the selection, held inside the menu.
    pub fn move_by(&mut self, delta: isize)
        ensures
            *final(self) == (Menu {
                selected: num::min(
                    num::add_signed(old(self).selected as int, delta as int),
                    menu_actions(old(self).target).len() - 1,
                ) as usize,
                ..*old(self)
            }),
            final(self).selected < menu_actions(final(self).target).len(),
    {
        let last: usize = self.actions().len() - 1;
        self.selected = num::min_usize(num::saturating_add_signed(self.selected, delta), last);
    }

    /// The selected entry.
    pub fn action(&self) -> (r: MenuAction)
        requires
            self.selected < menu_actions(self.target).len(),
        ensures
            r == menu_actions(self.target)[self.selected as int],
    {
        self.actions()[self.selected]
    }
}

/// Fixed context-menu width.
pub const MENU_WIDTH: u16 = 14;

/// Left edge of the menu, flipped left of the click when it would clip the
/// right screen edge.
pub open spec fn menu_left(x: int, area_width: int) -> int {
    if num::min(x + MENU_WIDTH, u16::MAX as int) > area_width {
        num::max(x - MENU_WIDTH, 0)
    } else {
        x
    }
}

/// Left edge of the menu. Render and hit-test share this so they agree.
pub fn menu_origin_x(x: u16, area_width: u16) -> (r: u16)
    ensures
        r == menu_left(x as int, area_width as int),
{
    if x.saturating_add(MENU_WIDTH) > area_width {
        x.saturating_sub(MENU_WIDTH)
    } else {
        x
    }
}

/// The menu entry under a cell.
pub fn menu_hit(menu: &Menu, column: u16, row: u16, area_width: u16) -> (r: Option<usize>)
    ensures
        ({
            let x = menu_left(menu.x as int, area_width as int);
            let count = menu_actions(menu.target).len() as int;
            if x <= column < num::min(x + MENU_WIDTH, u16::MAX as int) && menu.y <= row < num::min(
                menu.y + count,
                u16::MAX as int,
            ) {
                r == Some((row - menu.y) as usize)
            } else {
                r is None
            }
        }),
        r matches Some(index) ==> index < menu_actions(menu.target).len(),
{
    let x: u16 = menu_origin_x(menu.x, area_width);
    let count: u16 = menu.actions().len() as u16;
    if column >= x && column < x.saturating_add(MENU_WIDTH) && row >= menu.y && row
        < menu.y.saturating_add(count) {
        Some((row - menu.y) as usize)
    } else {
        None
    }
}

} // verus!
