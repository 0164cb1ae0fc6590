//! Mouse selection: what a drag covers, and that this is what is copied.

use vstd::prelude::*;

use crate::event::{KeyModifiers, MouseButton, MouseEventKind};
use crate::laws::copying;
use crate::mode;
use crate::proto::Screen;
use crate::selection::{self, Selection, SelectionMode};
use crate::text;

verus! {

proof fn lemma_picked(
    lines: Seq<Seq<char>>,
    bounds: ((usize, usize), (usize, usize)),
    first: int,
    upto: int,
    row: int,
)
    requires
        first <= row < upto,
    ensures
        selection::picked_rows(lines, bounds, first, upto).len() == upto - first,
        selection::picked_rows(lines, bounds, first, upto)[row - first]
            == selection::picked_rows(lines, bounds, first, row + 1).last(),
        selection::picked_rows(lines, bounds, first, row + 1).len() == row + 1 - first,
    decreases upto - first,
{
    assert(selection::picked_rows(lines, bounds, first, first).len() == 0);
    if upto > row + 1 {
        lemma_picked(lines, bounds, first, upto - 1, row);
    } else if row > first {
        lemma_picked(lines, bounds, first, upto - 1, row - 1);
    }
}

/// What is copied is what is selected: one text for each row from the first to the last,
/// made of exactly the characters whose cells fall inside the selection, in order. The
/// result says where they stand in the row.
pub proof fn law_copies_take_the_selection(drag: Selection, screen: Screen, row: int) -> (cut: (
    int,
    int,
))
    requires
        drag.bounds().0.0 <= row <= drag.bounds().1.0,
        row < mode::grid_lines(screen.contents@).len(),
    ensures
        ({
            let line = mode::grid_lines(screen.contents@)[row];
            let taken = drag.taken(screen);
            &&& 0 <= row - drag.bounds().0.0 < taken.len()
            &&& 0 <= cut.0 <= cut.1 <= line.len()
            &&& taken[row - drag.bounds().0.0] == line.subrange(cut.0, cut.1)
            &&& forall|col: int|
                0 <= col < line.len() ==> (cut.0 <= col < cut.1) == #[trigger] drag.covers(row, col)
        }),
{
    let lines = mode::grid_lines(screen.contents@);
    let first = drag.bounds().0.0 as int;
    let stop = if drag.bounds().1.0 < lines.len() {
        drag.bounds().1.0 as int
    } else {
        lines.len() - 1
    };
    lemma_picked(lines, drag.bounds(), first, stop + 1, row);
    let line = lines[row];
    let from = if row == drag.bounds().0.0 {
        drag.bounds().0.1 as int
    } else {
        0
    };
    let to = if row == drag.bounds().1.0 {
        drag.bounds().1.1 as int
    } else {
        line.len() as int
    };
    let piece = selection::picked_rows(lines, drag.bounds(), first, row + 1).last();
    assert(piece == mode::columns(line, from, to));
    if from < to && from < line.len() {
        if to <= line.len() {
            (from, to)
        } else {
            (from, line.len() as int)
        }
    } else {
        assert(line.subrange(0, 0) =~= Seq::<char>::empty());
        (0, 0)
    }
}

/// No row is copied twice or left out: there are as many texts as rows.
pub proof fn law_copies_take_every_row(drag: Selection, screen: Screen)
    requires
        drag.bounds().0.0 <= drag.bounds().1.0 < mode::grid_lines(screen.contents@).len(),
    ensures
        drag.taken(screen).len() == drag.bounds().1.0 - drag.bounds().0.0 + 1,
{
    let lines = mode::grid_lines(screen.contents@);
    lemma_picked(
        lines,
        drag.bounds(),
        drag.bounds().0.0 as int,
        drag.bounds().1.0 + 1,
        drag.bounds().0.0 as int,
    );
}

/// A drag over characters selects every cell from the one where the button went down to
/// the one under the pointer, both counted, whichever comes first.
pub proof fn law_drags_select_what_is_between(
    drag: Selection,
    screen: Screen,
    row: int,
    col: int,
)
    requires
        drag.resolved(screen),
        drag.mode == SelectionMode::Char,
        drag.anchor.1 < usize::MAX,
        drag.head.1 < usize::MAX,
        0 <= row < mode::grid_lines(screen.contents@).len(),
        0 <= col < mode::grid_lines(screen.contents@)[row].len() <= usize::MAX,
        drag.anchor.0 < mode::grid_lines(screen.contents@).len() ==> mode::grid_lines(
            screen.contents@,
        )[drag.anchor.0 as int].len() <= usize::MAX,
        drag.head.0 < mode::grid_lines(screen.contents@).len() ==> mode::grid_lines(
            screen.contents@,
        )[drag.head.0 as int].len() <= usize::MAX,
    ensures
        ({
            let a = (drag.anchor.0 as int, drag.anchor.1 as int);
            let b = (drag.head.0 as int, drag.head.1 as int);
            let cell = (row, col);
            drag.covers(row, col) == ((!copying::earlier(cell, a) && !copying::earlier(b, cell))
                || (!copying::earlier(cell, b) && !copying::earlier(a, cell)))
        }),
{
}

/// A drag over lines selects every cell of the rows between, the two ends counted.
pub proof fn law_line_drags_select_whole_rows(drag: Selection, screen: Screen, row: int, col: int)
    requires
        drag.resolved(screen),
        drag.mode == SelectionMode::Line,
        0 <= row < mode::grid_lines(screen.contents@).len(),
        0 <= col < mode::grid_lines(screen.contents@)[row].len() <= usize::MAX,
    ensures
        drag.covers(row, col) == ((drag.anchor.0 <= row <= drag.head.0) || (drag.head.0 <= row
            <= drag.anchor.0)),
{
}

proof fn lemma_run_left(line: Seq<char>, col: int)
    requires
        0 <= col <= line.len(),
    ensures
        0 <= selection::run_left(line, col) <= col,
        forall|k: int|
            selection::run_left(line, col) <= k < col ==> selection::word_char(#[trigger] line[k]),
        selection::run_left(line, col) > 0 ==> !selection::word_char(
            line[selection::run_left(line, col) - 1],
        ),
    decreases col,
{
    if col > 0 && selection::word_char(line[col - 1]) {
        lemma_run_left(line, col - 1);
    }
}

proof fn lemma_run_right(line: Seq<char>, col: int)
    requires
        0 <= col <= line.len(),
    ensures
        col <= selection::run_right(line, col) <= line.len(),
        forall|k: int|
            col <= k < selection::run_right(line, col) ==> selection::word_char(
                #[trigger] line[k],
            ),
        selection::run_right(line, col) < line.len() ==> !selection::word_char(
            line[selection::run_right(line, col)],
        ),
    decreases line.len() - col,
{
    if col < line.len() && selection::word_char(line[col]) {
        lemma_run_right(line, col + 1);
    }
}

/// A double click on a word selects the whole of it and nothing more: from the first to
/// the last of the joined word characters around the cell. Beside a word it selects the
/// cell alone.
pub proof fn law_double_clicks_select_words(drag: Selection, screen: Screen, col: int)
    requires
        drag.resolved(screen),
        drag.mode == SelectionMode::Word,
        drag.anchor == drag.head,
        drag.anchor.0 < mode::grid_lines(screen.contents@).len(),
        drag.anchor.1 < mode::grid_lines(screen.contents@)[drag.anchor.0 as int].len()
            <= usize::MAX,
        0 <= col < mode::grid_lines(screen.contents@)[drag.anchor.0 as int].len(),
    ensures
        ({
            let line = mode::grid_lines(screen.contents@)[drag.anchor.0 as int];
            let at = drag.anchor.1 as int;
            let low = if col < at {
                col
            } else {
                at
            };
            let high = if col < at {
                at
            } else {
                col
            };
            drag.covers(drag.anchor.0 as int, col) == (col == at || forall|k: int|
                low <= k <= high ==> selection::word_char(#[trigger] line[k]))
        }),
{
    let line = mode::grid_lines(screen.contents@)[drag.anchor.0 as int];
    let at = drag.anchor.1 as int;
    lemma_run_left(line, at);
    lemma_run_right(line, at);
    let left = selection::run_left(line, at);
    let right = selection::run_right(line, at);
    if selection::word_char(line[at]) {
        assert(left <= at < right);
        if col < left {
            assert(!selection::word_char(line[left - 1]));
        } else if col >= right {
            assert(!selection::word_char(line[right]));
        }
    } else {
        assert(!selection::word_char(line[at]));
    }
}

/// Words are made of letters, digits and what stands in paths.
pub proof fn law_word_characters(c: char)
    ensures
        text::alphanumeric(c) ==> selection::word_char(c),
        selection::word_char('_') && selection::word_char('.') && selection::word_char('/')
            && selection::word_char('~') && selection::word_char('-'),
        selection::word_char(c) ==> text::alphanumeric(c) || c == '_' || c == '.' || c == '/' || c
            == '~' || c == '-',
{
}

// ---------------------------------------------------------------------------- links

proof fn lemma_token(line: Seq<char>, col: int)
    requires
        0 <= col <= line.len(),
    ensures
        0 <= selection::token_left(line, col) <= col <= selection::token_right(line, col)
            <= line.len(),
        forall|k: int|
            selection::token_left(line, col) <= k < col ==> !text::white_space(#[trigger] line[k]),
        forall|k: int|
            col <= k < selection::token_right(line, col) ==> !text::white_space(
                #[trigger] line[k],
            ),
        selection::token_left(line, col) > 0 ==> text::white_space(
            line[selection::token_left(line, col) - 1],
        ),
        selection::token_right(line, col) < line.len() ==> text::white_space(
            line[selection::token_right(line, col)],
        ),
{
    lemma_token_left(line, col);
    lemma_token_right(line, col);
}

proof fn lemma_token_left(line: Seq<char>, col: int)
    requires
        0 <= col <= line.len(),
    ensures
        0 <= selection::token_left(line, col) <= col,
        forall|k: int|
            selection::token_left(line, col) <= k < col ==> !text::white_space(#[trigger] line[k]),
        selection::token_left(line, col) > 0 ==> text::white_space(
            line[selection::token_left(line, col) - 1],
        ),
    decreases col,
{
    if col > 0 && !text::white_space(line[col - 1]) {
        lemma_token_left(line, col - 1);
    }
}

proof fn lemma_token_right(line: Seq<char>, col: int)
    requires
        0 <= col <= line.len(),
    ensures
        col <= selection::token_right(line, col) <= line.len(),
        forall|k: int|
            col <= k < selection::token_right(line, col) ==> !text::white_space(
                #[trigger] line[k],
            ),
        selection::token_right(line, col) < line.len() ==> text::white_space(
            line[selection::token_right(line, col)],
        ),
    decreases line.len() - col,
{
    if col < line.len() && !text::white_space(line[col]) {
        lemma_token_right(line, col + 1);
    }
}

/// Signs that people put in front of a link.
pub open spec fn in_front(c: char) -> bool {
    c == '(' || c == '<' || c == '"' || c == '\''
}

/// Signs that people put behind a link.
pub open spec fn behind(c: char) -> bool {
    c == ')' || c == '>' || c == '.' || c == ',' || c == ';' || c == '"' || c == '\''
}

proof fn lemma_unopened(s: Seq<char>) -> (from: int)
    ensures
        0 <= from <= s.len(),
        selection::unopened(s) == s.skip(from),
        forall|k: int| 0 <= k < from ==> in_front(#[trigger] s[k]),
        from < s.len() ==> !in_front(s[from]),
    decreases s.len(),
{
    if s.len() > 0 && selection::opens_link(s[0]) {
        let n = lemma_unopened(s.skip(1));
        assert(s.skip(1).skip(n) =~= s.skip(n + 1));
        assert forall|k: int| 0 <= k < n + 1 implies in_front(#[trigger] s[k]) by {
            if k > 0 {
                assert(s.skip(1)[k - 1] == s[k]);
            }
        }
        n + 1
    } else {
        assert(s.skip(0) =~= s);
        0
    }
}

proof fn lemma_unclosed(s: Seq<char>) -> (to: int)
    ensures
        0 <= to <= s.len(),
        selection::unclosed(s) == s.take(to),
        forall|k: int| to <= k < s.len() ==> behind(#[trigger] s[k]),
        to > 0 ==> !behind(s[to - 1]),
    decreases s.len(),
{
    if s.len() > 0 && selection::closes_link(s.last()) {
        let n = lemma_unclosed(s.drop_last());
        assert(s.drop_last().take(n) =~= s.take(n));
        assert forall|k: int| n <= k < s.len() implies behind(#[trigger] s[k]) by {
            if k < s.len() - 1 {
                assert(s.drop_last()[k] == s[k]);
            }
        }
        n
    } else {
        assert(s.take(s.len() as int) =~= s);
        s.len() as int
    }
}

/// A click opens the link around the cell: the whole stretch without white space, less the
/// brackets, quotes and full stops around it, where that begins as a web address does.
/// The result says where in the line the stretch begins and ends, and the link in it.
pub proof fn law_clicks_open_the_link_around(line: Seq<char>, col: int) -> (at: (
    int,
    int,
    int,
    int,
))
    requires
        0 <= col < line.len(),
        !text::white_space(line[col]),
    ensures
        0 <= at.0 <= at.1 <= at.2 <= at.3 <= line.len(),
        at.0 <= col < at.3,
        forall|k: int| at.0 <= k < at.3 ==> !text::white_space(#[trigger] line[k]),
        at.0 > 0 ==> text::white_space(line[at.0 - 1]),
        at.3 < line.len() ==> text::white_space(line[at.3]),
        forall|k: int| at.0 <= k < at.1 ==> in_front(#[trigger] line[k]),
        forall|k: int| at.2 <= k < at.3 ==> behind(#[trigger] line[k]),
        at.1 < at.2 ==> !in_front(line[at.1]) && !behind(line[at.2 - 1]),
        ({
            let found = line.subrange(at.1, at.2);
            selection::link_in(line, col) == (if "http://"@.is_prefix_of(found)
                || "https://"@.is_prefix_of(found) {
                Some(found)
            } else {
                None
            })
        }),
{
    lemma_token(line, col);
    let l = selection::token_left(line, col);
    let r = selection::token_right(line, col);
    assert(r > col) by {
        assert(r == selection::token_right(line, col + 1));
        lemma_token_right(line, col + 1);
    }
    let token = line.subrange(l, r);
    let from = lemma_unopened(token);
    let rest = token.skip(from);
    let to = lemma_unclosed(rest);
    assert(rest.take(to) =~= line.subrange(l + from, l + from + to));
    assert forall|k: int| l <= k < l + from implies in_front(#[trigger] line[k]) by {
        assert(token[k - l] == line[k]);
    }
    assert forall|k: int| l + from + to <= k < r implies behind(#[trigger] line[k]) by {
        assert(rest[k - l - from] == line[k]);
    }
    if to > 0 {
        assert(token[from] == line[l + from]);
        assert(rest[to - 1] == line[l + from + to - 1]);
    }
    (l, l + from, l + from + to, r)
}

// ---------------------------------------------------------------------------- mouse

/// The numbers that programs are told: buttons from left to right, the same when they go
/// up, 32 more while they are held, the wheel from 64 on. Each modifier adds a bit of its
/// own, so that no two events with the same direction share a number.
pub proof fn law_mouse_numbers(
    button: MouseButton,
    a: KeyModifiers,
    b: KeyModifiers,
    kind: MouseEventKind,
)
    ensures
        selection::event_number(MouseEventKind::Down(MouseButton::Left)) == 0,
        selection::event_number(MouseEventKind::Down(MouseButton::Middle)) == 1,
        selection::event_number(MouseEventKind::Down(MouseButton::Right)) == 2,
        selection::event_number(MouseEventKind::Up(button)) == selection::event_number(
            MouseEventKind::Down(button),
        ),
        selection::event_number(MouseEventKind::Drag(button)) == selection::event_number(
            MouseEventKind::Down(button),
        ) + 32,
        selection::event_number(MouseEventKind::Moved) == 35,
        selection::event_number(MouseEventKind::ScrollUp) == 64,
        selection::event_number(MouseEventKind::ScrollDown) == 65,
        selection::event_number(MouseEventKind::ScrollLeft) == 66,
        selection::event_number(MouseEventKind::ScrollRight) == 67,
        selection::modifier_number(a) / 4 % 2 == 1 <==> a.shift,
        selection::modifier_number(a) / 8 % 2 == 1 <==> a.alt,
        selection::modifier_number(a) / 16 % 2 == 1 <==> a.control,
        0 <= selection::modifier_number(a) <= 28,
        selection::modifier_number(a) % 4 == 0,
        selection::modifier_number(a) == selection::modifier_number(b) ==> a.shift == b.shift
            && a.alt == b.alt && a.control == b.control,
{
}

/// There is nothing outside the grid.
pub proof fn law_nothing_is_outside_the_grid(lines: Seq<Seq<char>>, row: int)
    ensures
        0 <= row < lines.len() ==> selection::grid_row(lines, row) == lines[row],
        row < 0 || row >= lines.len() ==> selection::grid_row(lines, row).len() == 0,
{
}

} // verus!
