//! Copy mode: where motions and jumps lead, and what is yanked.

use vstd::prelude::*;

use crate::mode::{self, Class, CopyMode, Cursor, SelectKind};
use crate::num;
use crate::text;

verus! {

/// One cell comes before another as text is read: on a higher row, or further left on
/// the same one.
pub open spec fn earlier(a: (int, int), b: (int, int)) -> bool {
    a.0 < b.0 || (a.0 == b.0 && a.1 < b.1)
}

/// Matches as a search lists them.
pub open spec fn in_order(matches: Seq<Cursor>) -> bool {
    forall|i: int, j: int|
        0 <= i < j < matches.len() ==> earlier(
            ((#[trigger] matches[i]).row as int, matches[i].col as int),
            ((#[trigger] matches[j]).row as int, matches[j].col as int),
        )
}

proof fn lemma_match_after(matches: Seq<Cursor>, cur: Cursor)
    ensures
        match mode::match_after(matches, cur) {
            Some(m) => exists|i: int|
                0 <= i < matches.len() && #[trigger] matches[i] == m && earlier(
                    cur.at(),
                    m.at(),
                ) && forall|j: int| 0 <= j < i ==> !earlier(cur.at(), (#[trigger] matches[j]).at()),
            None => forall|j: int|
                0 <= j < matches.len() ==> !earlier(cur.at(), (#[trigger] matches[j]).at()),
        },
    decreases matches.len(),
{
    if matches.len() > 0 && !mode::before(cur, matches[0]) {
        let rest = matches.skip(1);
        lemma_match_after(rest, cur);
        match mode::match_after(rest, cur) {
            Some(m) => {
                let i = choose|i: int|
                    0 <= i < rest.len() && #[trigger] rest[i] == m && earlier(cur.at(), m.at())
                        && forall|j: int|
                        0 <= j < i ==> !earlier(cur.at(), (#[trigger] rest[j]).at());
                assert(matches[i + 1] == m);
                assert forall|j: int| 0 <= j < i + 1 implies !earlier(
                    cur.at(),
                    (#[trigger] matches[j]).at(),
                ) by {
                    if j > 0 {
                        assert(rest[j - 1] == matches[j]);
                    }
                }
            },
            None => {
                assert forall|j: int| 0 <= j < matches.len() implies !earlier(
                    cur.at(),
                    (#[trigger] matches[j]).at(),
                ) by {
                    if j > 0 {
                        assert(rest[j - 1] == matches[j]);
                    }
                }
            },
        }
    } else if matches.len() > 0 {
        assert(matches[0] == mode::match_after(matches, cur)->0);
    }
}

proof fn lemma_match_before(matches: Seq<Cursor>, cur: Cursor)
    ensures
        match mode::match_before(matches, cur) {
            Some(m) => exists|i: int|
                0 <= i < matches.len() && #[trigger] matches[i] == m && earlier(
                    m.at(),
                    cur.at(),
                ) && forall|j: int|
                    i < j < matches.len() ==> !earlier((#[trigger] matches[j]).at(), cur.at()),
            None => forall|j: int|
                0 <= j < matches.len() ==> !earlier((#[trigger] matches[j]).at(), cur.at()),
        },
    decreases matches.len(),
{
    if matches.len() > 0 && !mode::before(matches.last(), cur) {
        let rest = matches.drop_last();
        lemma_match_before(rest, cur);
        match mode::match_before(rest, cur) {
            Some(m) => {
                let i = choose|i: int|
                    0 <= i < rest.len() && #[trigger] rest[i] == m && earlier(m.at(), cur.at())
                        && forall|j: int|
                        i < j < rest.len() ==> !earlier((#[trigger] rest[j]).at(), cur.at());
                assert(matches[i] == m);
                assert forall|j: int| i < j < matches.len() implies !earlier(
                    (#[trigger] matches[j]).at(),
                    cur.at(),
                ) by {
                    if j < rest.len() {
                        assert(rest[j] == matches[j]);
                    }
                }
            },
            None => {
                assert forall|j: int| 0 <= j < matches.len() implies !earlier(
                    (#[trigger] matches[j]).at(),
                    cur.at(),
                ) by {
                    if j < rest.len() {
                        assert(rest[j] == matches[j]);
                    }
                }
            },
        }
    } else if matches.len() > 0 {
        assert(matches[matches.len() - 1] == mode::match_before(matches, cur)->0);
    }
}

/// A jump lands on a match. Forward it is the nearest one behind the cursor, with none in
/// between; backward the nearest one in front of it. Where there is none on that side it
/// wraps around: forward to the match that comes before all others, backward to the one
/// that comes after all others.
pub proof fn law_jumps_reach_the_nearest_match(
    matches: Seq<Cursor>,
    cur: Cursor,
    forward: bool,
    other: int,
)
    requires
        in_order(matches),
        0 <= other < matches.len(),
    ensures
        ({
            let m = mode::jump_target(matches, cur, forward);
            let at = (m.row as int, m.col as int);
            let here = (cur.row as int, cur.col as int);
            let there = (matches[other].row as int, matches[other].col as int);
            &&& matches.contains(m)
            &&& forward && earlier(here, there) ==> earlier(here, at) && !earlier(there, at)
            &&& !forward && earlier(there, here) ==> earlier(at, here) && !earlier(at, there)
            &&& forward && !earlier(here, at) ==> !earlier(here, there) && !earlier(there, at)
            &&& !forward && !earlier(at, here) ==> !earlier(there, here) && !earlier(at, there)
        }),
{
    lemma_match_after(matches, cur);
    lemma_match_before(matches, cur);
    let m = mode::jump_target(matches, cur, forward);
    let last = matches.len() - 1;
    assert(matches[0].at() == (matches[0].row as int, matches[0].col as int));
    if forward {
        if let Some(n) = mode::match_after(matches, cur) {
            let i = choose|i: int|
                0 <= i < matches.len() && #[trigger] matches[i] == n && earlier(cur.at(), n.at())
                    && forall|j: int|
                    0 <= j < i ==> !earlier(cur.at(), (#[trigger] matches[j]).at());
            assert(matches[i] == m);
            if i < other {
                assert(earlier(matches[i].at(), matches[other].at()));
            }
        } else {
            assert(matches[0] == m);
            if other > 0 {
                assert(earlier(matches[0].at(), matches[other].at()));
            }
        }
    } else {
        if let Some(n) = mode::match_before(matches, cur) {
            let i = choose|i: int|
                0 <= i < matches.len() && #[trigger] matches[i] == n && earlier(n.at(), cur.at())
                    && forall|j: int|
                    i < j < matches.len() ==> !earlier((#[trigger] matches[j]).at(), cur.at());
            assert(matches[i] == m);
            if other < i {
                assert(earlier(matches[other].at(), matches[i].at()));
            }
        } else {
            assert(matches[last] == m);
            if other < last {
                assert(earlier(matches[other].at(), matches[last].at()));
            }
        }
    }
}

proof fn lemma_columns_found(hay: Seq<char>, needle: Seq<char>, from: int, col: int)
    requires
        0 <= from <= col,
        needle.len() > 0,
        col + needle.len() <= hay.len(),
        hay.subrange(col, col + needle.len()) == needle,
    ensures
        exists|k: int|
            0 <= k < mode::match_cols(hay, needle, from).len() && #[trigger] mode::match_cols(
                hay,
                needle,
                from,
            )[k] <= col < mode::match_cols(hay, needle, from)[k] + needle.len(),
    decreases hay.len() - from,
{
    let all = mode::match_cols(hay, needle, from);
    if text::occurs_at(hay, needle, from) {
        if col < from + needle.len() {
            assert(all[0] <= col < all[0] + needle.len());
        } else {
            let rest = mode::match_cols(hay, needle, from + needle.len());
            lemma_columns_found(hay, needle, from + needle.len(), col);
            let k = choose|k: int|
                0 <= k < rest.len() && #[trigger] rest[k] <= col < rest[k] + needle.len();
            assert(all[k + 1] == rest[k]);
        }
    } else {
        lemma_columns_found(hay, needle, from + 1, col);
    }
}

/// A search misses nothing: wherever the lower-case text of a line reads as the query,
/// a match stands there or overlaps it from the left.
pub proof fn law_searches_miss_nothing(
    lines: Seq<String>,
    needle: Seq<char>,
    count: int,
    row: int,
    col: int,
)
    requires
        0 <= row < count <= lines.len() <= usize::MAX,
        needle.len() > 0,
        text::lowercase(lines[row]@).len() <= usize::MAX,
        0 <= col,
        col + needle.len() <= text::lowercase(lines[row]@).len(),
        text::lowercase(lines[row]@).subrange(col, col + needle.len()) == needle,
    ensures
        exists|i: int|
            0 <= i < mode::matches_of(lines, needle, count).len() && (#[trigger] mode::matches_of(
                lines,
                needle,
                count,
            )[i]).row == row && mode::matches_of(lines, needle, count)[i].col <= col
                < mode::matches_of(lines, needle, count)[i].col + needle.len(),
    decreases count,
{
    let all = mode::matches_of(lines, needle, count);
    let front = mode::matches_of(lines, needle, count - 1);
    if row < count - 1 {
        law_searches_miss_nothing(lines, needle, count - 1, row, col);
        let i = choose|i: int|
            0 <= i < front.len() && (#[trigger] front[i]).row == row && front[i].col <= col
                < front[i].col + needle.len();
        assert(all[i] == front[i]);
    } else {
        let hay = text::lowercase(lines[row]@);
        lemma_columns_found(hay, needle, 0, col);
        let cols = mode::match_cols(hay, needle, 0);
        let k = choose|k: int|
            0 <= k < cols.len() && #[trigger] cols[k] <= col < cols[k] + needle.len();
        lemma_columns_from(hay, needle, 0, k);
        assert(all[front.len() + k].row == row);
        assert(all[front.len() + k].col == cols[k]);
    }
}

proof fn lemma_columns_from(hay: Seq<char>, needle: Seq<char>, from: int, k: int)
    requires
        0 <= from,
        0 <= k < mode::match_cols(hay, needle, from).len(),
    ensures
        from <= mode::match_cols(hay, needle, from)[k] <= hay.len(),
    decreases hay.len() - from,
{
    if text::occurs_at(hay, needle, from) {
        if k > 0 {
            lemma_columns_from(hay, needle, from + needle.len(), k - 1);
        }
    } else {
        lemma_columns_from(hay, needle, from + 1, k);
    }
}

// -------------------------------------------------------------------------- yanking

/// A cell is in a selection between two positions.
pub open spec fn selected(
    select: SelectKind,
    a: (int, int),
    b: (int, int),
    row: int,
    col: int,
) -> bool {
    let first = if earlier(b, a) {
        b
    } else {
        a
    };
    let last = if earlier(b, a) {
        a
    } else {
        b
    };
    first.0 <= row <= last.0 && match select {
        SelectKind::Line => true,
        SelectKind::Char => !earlier((row, col), first) && earlier((row, col), last),
        SelectKind::Block => (a.1 <= col || b.1 <= col) && (col < a.1 || col < b.1),
    }
}

proof fn lemma_yanked_row(
    lines: Seq<String>,
    select: SelectKind,
    start: Cursor,
    end: Cursor,
    row: int,
    upto: int,
)
    requires
        start.row <= row < upto,
    ensures
        mode::yanked_rows(lines, select, start, end, upto).len() == upto - start.row,
        ({
            let line = mode::row_text(lines, row);
            let span = mode::covered(select, start, end, row, line.len() as int);
            mode::yanked_rows(lines, select, start, end, upto)[row - start.row] == mode::columns(
                line,
                span.0,
                span.1,
            )
        }),
    decreases upto,
{
    if upto > row + 1 {
        lemma_yanked_row(lines, select, start, end, row, upto - 1);
    } else {
        lemma_yanked_len(lines, select, start, end, upto);
        lemma_yanked_len(lines, select, start, end, upto - 1);
    }
}

proof fn lemma_yanked_len(
    lines: Seq<String>,
    select: SelectKind,
    start: Cursor,
    end: Cursor,
    upto: int,
)
    requires
        start.row <= upto,
    ensures
        mode::yanked_rows(lines, select, start, end, upto).len() == upto - start.row,
    decreases upto,
{
    if upto > start.row {
        lemma_yanked_len(lines, select, start, end, upto - 1);
    }
}

/// What is yanked is the selection: one text for each row that it reaches, from the first
/// to the last, made of the characters of the row that are selected, in order. `from` and
/// `to` tell where they stand.
pub proof fn law_yanks_take_the_selection(
    lines: Seq<String>,
    select: SelectKind,
    a: Cursor,
    b: Cursor,
    row: int,
) -> (cut: (int, int))
    requires
        mode::first_of(a, b).row <= row <= mode::last_of(a, b).row,
    ensures
        ({
            let first = mode::first_of(a, b);
            let last = mode::last_of(a, b);
            let rows = mode::yanked_rows(lines, select, first, last, last.row + 1);
            let line = mode::row_text(lines, row);
            &&& first == a && last == b || first == b && last == a
            &&& !earlier((last.row as int, last.col as int), (first.row as int, first.col as int))
            &&& rows.len() == last.row - first.row + 1
            &&& 0 <= cut.0 <= cut.1 <= line.len()
            &&& rows[row - first.row] == line.subrange(cut.0, cut.1)
            &&& forall|col: int|
                0 <= col < line.len() ==> (cut.0 <= col < cut.1) == #[trigger] selected(
                    select,
                    (a.row as int, a.col as int),
                    (b.row as int, b.col as int),
                    row,
                    col,
                )
        }),
{
    let first = mode::first_of(a, b);
    let last = mode::last_of(a, b);
    lemma_yanked_row(lines, select, first, last, row, last.row + 1);
    let line = mode::row_text(lines, row);
    let span = mode::covered(select, first, last, row, line.len() as int);
    if span.0 < span.1 && span.0 < line.len() {
        let to = if span.1 < line.len() {
            span.1
        } else {
            line.len() as int
        };
        (span.0, to)
    } else {
        assert(line.subrange(0, 0) =~= Seq::<char>::empty());
        (0, 0)
    }
}

// -------------------------------------------------------------------------- motions

/// A position in the buffer: a row that is there, and a column up to its line break.
pub open spec fn inside(lines: Seq<String>, p: (int, int)) -> bool {
    0 <= p.0 < lines.len() && 0 <= p.1 <= lines[p.0]@.len()
}

/// A motion to a position inside the buffer leads exactly there, leaves the text, the
/// selection and the search alone, and shows the row.
pub proof fn law_motions_lead_where_they_say(copy: CopyMode, p: (int, int))
    requires
        copy.wf(),
        copy.lines@.len() <= usize::MAX,
        inside(copy.lines@, p),
        copy.lines@[p.0]@.len() <= usize::MAX,
    ensures
        ({
            let after = copy.moved(p);
            &&& after.cursor.row == p.0
            &&& after.cursor.col == p.1
            &&& after.lines == copy.lines
            &&& after.anchor == copy.anchor
            &&& after.select == copy.select
            &&& after.search == copy.search
            &&& after.height == copy.height
            &&& after.top <= p.0 < after.top + copy.height
        }),
{
}

/// Scrolling moves the viewport no further than it must: no offset that shows the row is
/// nearer to where it was.
pub proof fn law_scrolling_is_least(top: int, height: int, count: int, row: int, other: int)
    requires
        0 <= row < count,
        1 <= height,
        0 <= top,
        top == 0 || top <= count - height,
        0 <= other <= row < other + height,
    ensures
        mode::scrolled(top, height, count, row) <= row < mode::scrolled(top, height, count, row)
            + height,
        mode::scrolled(top, height, count, row) >= 0,
        top <= other ==> mode::scrolled(top, height, count, row) <= other,
        other <= top ==> other <= mode::scrolled(top, height, count, row),
        top <= row < top + height ==> mode::scrolled(top, height, count, row) == top,
{
}

/// Moving by rows keeps the column and, inside the buffer, counts them exactly; past
/// its ends it stops at the first or the last line.
pub proof fn law_rows_are_counted(copy: CopyMode, delta: int)
    requires
        copy.cursor.row < copy.lines@.len() <= usize::MAX,
    ensures
        copy.rows_away(delta).1 == copy.cursor.col,
        0 <= copy.rows_away(delta).0 < copy.lines@.len(),
        0 <= copy.cursor.row + delta < copy.lines@.len() ==> copy.rows_away(delta).0
            == copy.cursor.row + delta,
        copy.cursor.row + delta < 0 ==> copy.rows_away(delta).0 == 0,
        copy.cursor.row + delta >= copy.lines@.len() ==> copy.rows_away(delta).0
            == copy.lines@.len() - 1,
{
}

/// The next paragraph ends at the first blank line behind the cursor, else at the last
/// line: no line between is blank.
pub proof fn law_next_blank_is_nearest(lines: Seq<String>, row: int)
    requires
        0 <= row < lines.len(),
    ensures
        row <= mode::next_blank(lines, row) < lines.len(),
        row + 1 < lines.len() ==> row < mode::next_blank(lines, row),
        text::blank(lines[mode::next_blank(lines, row)]@) || mode::next_blank(lines, row)
            == lines.len() - 1,
        forall|k: int|
            row < k < mode::next_blank(lines, row) ==> !text::blank((#[trigger] lines[k])@),
    decreases lines.len() - row,
{
    if row + 1 < lines.len() && !text::blank(lines[row + 1]@) {
        law_next_blank_is_nearest(lines, row + 1);
    }
}

/// The previous paragraph begins at the last blank line in front of the cursor, else at
/// the first line: no line between is blank.
pub proof fn law_previous_blank_is_nearest(lines: Seq<String>, row: int)
    requires
        0 <= row < lines.len(),
    ensures
        0 <= mode::prev_blank(lines, row) <= row,
        0 < row ==> mode::prev_blank(lines, row) < row,
        text::blank(lines[mode::prev_blank(lines, row)]@) || mode::prev_blank(lines, row) == 0,
        forall|k: int|
            mode::prev_blank(lines, row) < k < row ==> !text::blank((#[trigger] lines[k])@),
    decreases row,
{
    if row > 0 && !text::blank(lines[row - 1]@) {
        law_previous_blank_is_nearest(lines, row - 1);
    }
}

/// The first character that is not white space has only white space in front of it.
pub proof fn law_first_nonblank_is_first(line: Seq<char>, from: int)
    requires
        0 <= from <= line.len(),
    ensures
        ({
            let col = mode::first_nonblank(line, from);
            ||| from <= col < line.len() && !text::white_space(line[col]) && forall|k: int|
                from <= k < col ==> text::white_space(#[trigger] line[k])
            ||| col == 0 && forall|k: int|
                from <= k < line.len() ==> text::white_space(#[trigger] line[k])
        }),
    decreases line.len() - from,
{
    if from < line.len() && text::white_space(line[from]) {
        law_first_nonblank_is_first(line, from + 1);
    }
}

// ---------------------------------------------------------------------------- words

/// What a word is made of: letters, digits and underscores, or other signs; with `big`,
/// of anything but white space. The line break is white space.
pub proof fn law_words_are_made_of_letters(lines: Seq<String>, row: int, col: int, big: bool)
    requires
        0 <= row < lines.len(),
        0 <= col,
    ensures
        ({
            let kind = mode::class_of(lines, (row, col), big);
            let line = lines[row]@;
            &&& (kind == Class::Space) == (col >= line.len() || text::white_space(line[col]))
            &&& big ==> kind != Class::Punct
            &&& kind != Class::Space && !big ==> (kind == Class::Word) == (text::alphanumeric(
                line[col],
            ) || line[col] == '_')
        }),
{
}

/// A word begins at a position.
pub open spec fn word_begins(lines: Seq<String>, p: (int, int), big: bool) -> bool {
    let kind = mode::class_of(lines, p, big);
    kind != Class::Space && (p.1 == 0 || mode::class_of(lines, (p.0, p.1 - 1), big) != kind)
}

/// A word ends at a position.
pub open spec fn word_ends(lines: Seq<String>, p: (int, int), big: bool) -> bool {
    let kind = mode::class_of(lines, p, big);
    kind != Class::Space && mode::class_of(lines, (p.0, p.1 + 1), big) != kind
}

/// The last position of the buffer.
pub open spec fn final_position(lines: Seq<String>) -> (int, int) {
    (lines.len() - 1, lines[lines.len() - 1]@.len() as int)
}

proof fn lemma_skip_on(lines: Seq<String>, p: (int, int), big: bool, class: Class)
    requires
        inside(lines, p),
    ensures
        ({
            let s = mode::skip_on(lines, p, big, class);
            &&& inside(lines, s)
            &&& !earlier(s, p)
            &&& mode::class_of(lines, s, big) != class || s == final_position(lines)
            &&& forall|q: (int, int)|
                inside(lines, q) && !earlier(q, p) && earlier(q, s) ==> #[trigger] mode::class_of(
                    lines,
                    q,
                    big,
                ) == class
        }),
    decreases num::max(lines.len() - p.0, 0), num::max(mode::row_text(lines, p.0).len() - p.1, 0),
{
    if mode::class_of(lines, p, big) == class {
        if let Some(n) = mode::next_position(lines, p) {
            lemma_skip_on(lines, n, big, class);
            let s = mode::skip_on(lines, p, big, class);
            assert forall|q: (int, int)|
                inside(lines, q) && !earlier(q, p) && earlier(
                    q,
                    s,
                ) implies #[trigger] mode::class_of(lines, q, big) == class by {
                if earlier(q, n) {
                    assert(q == p);
                }
            }
        }
    }
}

proof fn lemma_skip_back(lines: Seq<String>, p: (int, int), big: bool, class: Class)
    requires
        inside(lines, p),
    ensures
        ({
            let s = mode::skip_back(lines, p, big, class);
            &&& inside(lines, s)
            &&& !earlier(p, s)
            &&& mode::class_of(lines, s, big) != class || s == (0int, 0int)
            &&& forall|q: (int, int)|
                inside(lines, q) && !earlier(p, q) && earlier(s, q) ==> #[trigger] mode::class_of(
                    lines,
                    q,
                    big,
                ) == class
        }),
    decreases num::max(p.0, 0), num::max(p.1, 0),
{
    if mode::class_of(lines, p, big) == class {
        if let Some(n) = mode::prev_position(lines, p) {
            lemma_skip_back(lines, n, big, class);
            let s = mode::skip_back(lines, p, big, class);
            assert forall|q: (int, int)|
                inside(lines, q) && !earlier(p, q) && earlier(
                    s,
                    q,
                ) implies #[trigger] mode::class_of(lines, q, big) == class by {
                if earlier(n, q) {
                    assert(q == p);
                }
            }
        }
    }
}

proof fn lemma_run_start(lines: Seq<String>, p: (int, int), big: bool, class: Class)
    requires
        inside(lines, p),
        mode::class_of(lines, p, big) == class,
    ensures
        ({
            let s = mode::run_start(lines, p, big, class);
            &&& inside(lines, s)
            &&& !earlier(p, s)
            &&& s.1 == 0 || mode::class_of(lines, (s.0, s.1 - 1), big) != class
            &&& forall|q: (int, int)|
                inside(lines, q) && !earlier(p, q) && !earlier(q, s) ==> #[trigger] mode::class_of(
                    lines,
                    q,
                    big,
                ) == class
        }),
    decreases num::max(p.0, 0), num::max(p.1, 0),
{
    if let Some(n) = mode::prev_position(lines, p) {
        let s = mode::run_start(lines, p, big, class);
        if mode::class_of(lines, n, big) == class {
            lemma_run_start(lines, n, big, class);
            assert forall|q: (int, int)|
                inside(lines, q) && !earlier(p, q) && !earlier(
                    q,
                    s,
                ) implies #[trigger] mode::class_of(lines, q, big) == class by {
                if earlier(n, q) {
                    assert(q == p);
                }
            }
        } else {
            assert forall|q: (int, int)|
                inside(lines, q) && !earlier(p, q) && !earlier(
                    q,
                    s,
                ) implies #[trigger] mode::class_of(lines, q, big) == class by {
                assert(q == p);
            }
        }
    } else {
        assert forall|q: (int, int)|
            inside(lines, q) && !earlier(p, q) && !earlier(q, p) implies #[trigger] mode::class_of(
            lines,
            q,
            big,
        ) == class by {
            assert(q == p);
        }
    }
}

proof fn lemma_run_end(lines: Seq<String>, p: (int, int), big: bool, class: Class)
    requires
        inside(lines, p),
        mode::class_of(lines, p, big) == class,
    ensures
        ({
            let s = mode::run_end(lines, p, big, class);
            &&& inside(lines, s)
            &&& !earlier(s, p)
            &&& s == final_position(lines) || s.1 == lines[s.0]@.len() || mode::class_of(
                lines,
                (s.0, s.1 + 1),
                big,
            ) != class
            &&& forall|q: (int, int)|
                inside(lines, q) && !earlier(q, p) && !earlier(s, q) ==> #[trigger] mode::class_of(
                    lines,
                    q,
                    big,
                ) == class
        }),
    decreases num::max(lines.len() - p.0, 0), num::max(mode::row_text(lines, p.0).len() - p.1, 0),
{
    let s = mode::run_end(lines, p, big, class);
    if let Some(n) = mode::next_position(lines, p) {
        if mode::class_of(lines, n, big) == class {
            lemma_run_end(lines, n, big, class);
            assert forall|q: (int, int)|
                inside(lines, q) && !earlier(q, p) && !earlier(
                    s,
                    q,
                ) implies #[trigger] mode::class_of(lines, q, big) == class by {
                if earlier(q, n) {
                    assert(q == p);
                }
            }
        } else {
            assert forall|q: (int, int)|
                inside(lines, q) && !earlier(q, p) && !earlier(
                    s,
                    q,
                ) implies #[trigger] mode::class_of(lines, q, big) == class by {
                assert(q == p);
            }
        }
    } else {
        assert forall|q: (int, int)|
            inside(lines, q) && !earlier(q, p) && !earlier(s, q) implies #[trigger] mode::class_of(
            lines,
            q,
            big,
        ) == class by {
            assert(q == p);
        }
    }
}

/// `w` leads to the nearest beginning of a word behind the cursor: none lies between.
/// Behind the last word it leads to the end of the buffer.
pub proof fn law_next_word_is_nearest(lines: Seq<String>, p: (int, int), big: bool, q: (int, int))
    requires
        inside(lines, p),
        inside(lines, q),
    ensures
        ({
            let n = mode::next_word_start(lines, p, big);
            &&& inside(lines, n)
            &&& n == final_position(lines) || (word_begins(lines, n, big) && earlier(p, n))
            &&& earlier(p, q) && earlier(q, n) ==> !word_begins(lines, q, big)
        }),
{
    let start = mode::class_of(lines, p, big);
    let after = if start != Class::Space {
        lemma_skip_on(lines, p, big, start);
        mode::skip_on(lines, p, big, start)
    } else {
        p
    };
    lemma_skip_on(lines, after, big, Class::Space);
    let n = mode::next_word_start(lines, p, big);
    if earlier(p, q) && earlier(q, n) {
        if earlier(q, after) {
            assert(mode::class_of(lines, q, big) == start);
            if q.1 > 0 {
                assert(mode::class_of(lines, (q.0, q.1 - 1), big) == start);
            } else {
                let end = (q.0 - 1, lines[q.0 - 1]@.len() as int);
                assert(inside(lines, end) && !earlier(end, p) && earlier(end, after));
                assert(mode::class_of(lines, end, big) == start);
            }
        } else {
            assert(mode::class_of(lines, q, big) == Class::Space);
        }
    }
    if n != final_position(lines) && n.1 > 0 {
        let r = (n.0, n.1 - 1);
        assert(inside(lines, r));
        if !earlier(r, after) {
            assert(mode::class_of(lines, r, big) == Class::Space);
        } else if start != Class::Space {
            assert(after == n);
            assert(earlier(p, n));
            assert(mode::class_of(lines, r, big) == start);
        }
    }
}

/// `b` leads to the nearest beginning of a word in front of the cursor: none lies between.
/// In front of the first word it leads to the start of the buffer.
pub proof fn law_previous_word_is_nearest(
    lines: Seq<String>,
    p: (int, int),
    big: bool,
    q: (int, int),
)
    requires
        inside(lines, p),
        inside(lines, q),
    ensures
        ({
            let b = mode::prev_word_start(lines, p, big);
            &&& inside(lines, b)
            &&& p != (0int, 0int) ==> earlier(b, p)
            &&& b == (0int, 0int) || word_begins(lines, b, big)
            &&& earlier(q, p) && earlier(b, q) ==> !word_begins(lines, q, big)
        }),
{
    let back = match mode::prev_position(lines, p) {
        Some(n) => n,
        None => p,
    };
    assert(inside(lines, back));
    lemma_skip_back(lines, back, big, Class::Space);
    let word = mode::skip_back(lines, back, big, Class::Space);
    let kind = mode::class_of(lines, word, big);
    lemma_run_start(lines, word, big, kind);
    let b = mode::prev_word_start(lines, p, big);
    if earlier(q, p) && earlier(b, q) {
        assert(!earlier(back, q));
        if earlier(word, q) {
            assert(mode::class_of(lines, q, big) == Class::Space);
        } else {
            assert(mode::class_of(lines, q, big) == kind);
            if q.1 > 0 {
                assert(mode::class_of(lines, (q.0, q.1 - 1), big) == kind);
            } else {
                let end = (q.0 - 1, lines[q.0 - 1]@.len() as int);
                assert(inside(lines, end) && !earlier(end, b) && !earlier(word, end));
                assert(mode::class_of(lines, end, big) == kind);
            }
        }
    }
}

/// `e` leads to the nearest end of a word behind the cursor: none lies between. Behind
/// the last word it leads to the end of the buffer.
pub proof fn law_word_end_is_nearest(lines: Seq<String>, p: (int, int), big: bool, q: (int, int))
    requires
        inside(lines, p),
        inside(lines, q),
    ensures
        ({
            let e = mode::word_end_position(lines, p, big);
            &&& inside(lines, e)
            &&& p != final_position(lines) ==> earlier(p, e)
            &&& e == final_position(lines) || word_ends(lines, e, big)
            &&& earlier(p, q) && earlier(q, e) ==> !word_ends(lines, q, big)
        }),
{
    let on = match mode::next_position(lines, p) {
        Some(n) => n,
        None => p,
    };
    assert(inside(lines, on));
    lemma_skip_on(lines, on, big, Class::Space);
    let word = mode::skip_on(lines, on, big, Class::Space);
    let kind = mode::class_of(lines, word, big);
    lemma_run_end(lines, word, big, kind);
    let e = mode::word_end_position(lines, p, big);
    if earlier(p, q) && earlier(q, e) {
        assert(!earlier(q, on));
        if earlier(q, word) {
            assert(mode::class_of(lines, q, big) == Class::Space);
        } else {
            assert(mode::class_of(lines, q, big) == kind);
            if q.1 < lines[q.0]@.len() {
                let r = (q.0, q.1 + 1);
                assert(inside(lines, r) && !earlier(r, word) && !earlier(e, r));
                assert(mode::class_of(lines, r, big) == kind);
            }
        }
    }
}

// ------------------------------------------------------------------------ clipboard

/// The number that a character of base64 stands for.
pub open spec fn sextet(c: char) -> int {
    if 'A' <= c <= 'Z' {
        c as int - 'A' as int
    } else if 'a' <= c <= 'z' {
        c as int - 'a' as int + 26
    } else if '0' <= c <= '9' {
        c as int - '0' as int + 52
    } else if c == '+' {
        62
    } else if c == '/' {
        63
    } else {
        0
    }
}

/// The byte that stands at a place in a text of base64.
pub open spec fn byte_at(encoded: Seq<char>, i: int) -> int {
    let a = sextet(encoded[i / 3 * 4]);
    let b = sextet(encoded[i / 3 * 4 + 1]);
    let c = sextet(encoded[i / 3 * 4 + 2]);
    let d = sextet(encoded[i / 3 * 4 + 3]);
    if i % 3 == 0 {
        a * 4 + b / 16
    } else if i % 3 == 1 {
        b % 16 * 16 + c / 4
    } else {
        c % 4 * 64 + d
    }
}

proof fn lemma_sextet(k: int)
    requires
        0 <= k < 64,
    ensures
        sextet(mode::base64_char(k)) == k,
{
}

proof fn lemma_sextets(b0: int, b1: int, b2: int)
    requires
        0 <= b0 < 256,
        0 <= b1 < 256,
        0 <= b2 < 256,
    ensures
        ({
            let n = b0 * 65536 + b1 * 256 + b2;
            &&& n / 262144 == b0 / 4
            &&& n / 4096 % 64 == b0 % 4 * 16 + b1 / 16
            &&& n / 64 % 64 == b1 % 16 * 4 + b2 / 64
            &&& 0 <= b0 / 4 < 64
        }),
{
    let n = b0 * 65536 + b1 * 256 + b2;
    let h0 = b0 / 4;
    let l0 = b0 % 4;
    let h1 = b1 / 16;
    let l1 = b1 % 16;
    let h2 = b2 / 64;
    let l2 = b2 % 64;
    assert(n == 262144 * h0 + 65536 * l0 + 4096 * h1 + 256 * l1 + 64 * h2 + l2);
    assert(n / 4096 == 64 * h0 + 16 * l0 + h1);
    assert(n / 64 == 64 * (64 * h0 + 16 * l0 + h1) + 4 * l1 + h2);
}

proof fn lemma_group_reads_back(b0: int, b1: int, b2: int, count: int)
    requires
        0 <= b0 < 256,
        0 <= b1 < 256,
        0 <= b2 < 256,
        count == 3 || (count == 2 && b2 == 0) || (count == 1 && b1 == 0 && b2 == 0),
    ensures
        ({
            let g = mode::base64_group(b0, b1, b2, count);
            &&& sextet(g[0]) * 4 + sextet(g[1]) / 16 == b0
            &&& sextet(g[1]) % 16 * 16 + sextet(g[2]) / 4 == b1
            &&& sextet(g[2]) % 4 * 64 + sextet(g[3]) == b2
        }),
{
    let n = b0 * 65536 + b1 * 256 + b2;
    lemma_sextets(b0, b1, b2);
    lemma_sextet(n / 262144);
    lemma_sextet(n / 4096 % 64);
    lemma_sextet(n / 64 % 64);
    lemma_sextet(n % 64);
}

/// What is put on the clipboard is the text: its base64 reads back as the same bytes,
/// whatever they are.
pub proof fn law_base64_reads_back(bytes: Seq<u8>, i: int)
    requires
        0 <= i < bytes.len(),
    ensures
        byte_at(mode::base64_text(bytes), i) == bytes[i],
    decreases bytes.len(),
{
    let all = mode::base64_text(bytes);
    let b1 = if bytes.len() > 1 {
        bytes[1] as int
    } else {
        0
    };
    let b2 = if bytes.len() > 2 {
        bytes[2] as int
    } else {
        0
    };
    let count = if bytes.len() > 2 {
        3
    } else {
        bytes.len() as int
    };
    let group = mode::base64_group(bytes[0] as int, b1, b2, count);
    assert(group.len() == 4);
    if i < 3 {
        lemma_group_reads_back(bytes[0] as int, b1, b2, count);
        assert(i / 3 == 0 && i % 3 == i);
        assert(all[0] == group[0] && all[1] == group[1] && all[2] == group[2] && all[3]
            == group[3]);
    } else {
        let rest = mode::base64_text(bytes.skip(3));
        law_base64_reads_back(bytes.skip(3), i - 3);
        mode::law_base64_length(bytes.skip(3));
        assert((i - 3) / 3 + 1 <= (bytes.len() - 3 + 2) / 3);
        lemma_next_group(group, rest, i);
    }
}

proof fn lemma_next_group(group: Seq<char>, rest: Seq<char>, i: int)
    requires
        group.len() == 4,
        3 <= i,
        (i - 3) / 3 * 4 + 3 < rest.len(),
    ensures
        byte_at(group + rest, i) == byte_at(rest, i - 3),
{
    let k = (i - 3) / 3 * 4;
    assert(i / 3 * 4 == k + 4);
    assert(i % 3 == (i - 3) % 3);
    assert((group + rest)[k + 4] == rest[k]);
    assert((group + rest)[k + 5] == rest[k + 1]);
    assert((group + rest)[k + 6] == rest[k + 2]);
    assert((group + rest)[k + 7] == rest[k + 3]);
}

} // verus!
