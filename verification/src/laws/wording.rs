//! Texts: what taking them apart and putting them together gives.

use vstd::prelude::*;

use crate::text;

verus! {

// -------------------------------------------------------------------------- trimming

proof fn lemma_trim_start(s: Seq<char>) -> (from: int)
    ensures
        0 <= from <= s.len(),
        text::trim_start(s) == s.skip(from),
        forall|k: int| 0 <= k < from ==> text::white_space(#[trigger] s[k]),
        from < s.len() ==> !text::white_space(s[from]),
    decreases s.len(),
{
    if s.len() > 0 && text::white_space(s[0]) {
        let n = lemma_trim_start(s.skip(1));
        assert(s.skip(1).skip(n) =~= s.skip(n + 1));
        assert forall|k: int| 0 <= k < n + 1 implies text::white_space(#[trigger] s[k]) by {
            if k > 0 {
                assert(s.skip(1)[k - 1] == s[k]);
            }
        }
        n + 1
    } else {
        assert(s.skip(0) =~= s);
        0
    }
}

proof fn lemma_trim_end(s: Seq<char>) -> (to: int)
    ensures
        0 <= to <= s.len(),
        text::trim_end(s) == s.take(to),
        forall|k: int| to <= k < s.len() ==> text::white_space(#[trigger] s[k]),
        to > 0 ==> !text::white_space(s[to - 1]),
    decreases s.len(),
{
    if s.len() > 0 && text::white_space(s.last()) {
        let n = lemma_trim_end(s.drop_last());
        assert(s.drop_last().take(n) =~= s.take(n));
        assert forall|k: int| n <= k < s.len() implies text::white_space(#[trigger] s[k]) by {
            if k < s.len() - 1 {
                assert(s.drop_last()[k] == s[k]);
            }
        }
        n
    } else {
        assert(s.take(s.len() as int) =~= s);
        s.len() as int
    }
}

/// Trimming takes away the white space at both ends and nothing else. The result says
/// where what is left begins and ends.
pub proof fn law_trimming_takes_the_ends(s: Seq<char>) -> (at: (int, int))
    ensures
        0 <= at.0 <= at.1 <= s.len(),
        text::trim(s) == s.subrange(at.0, at.1),
        forall|k: int| 0 <= k < at.0 ==> text::white_space(#[trigger] s[k]),
        forall|k: int| at.1 <= k < s.len() ==> text::white_space(#[trigger] s[k]),
        at.0 < at.1 ==> !text::white_space(s[at.0]) && !text::white_space(s[at.1 - 1]),
{
    let from = lemma_trim_start(s);
    let rest = s.skip(from);
    let to = lemma_trim_end(rest);
    assert(rest.take(to) =~= s.subrange(from, from + to));
    assert forall|k: int| from + to <= k < s.len() implies text::white_space(
        #[trigger] s[k],
    ) by {
        assert(rest[k - from] == s[k]);
    }
    if to > 0 {
        assert(rest[to - 1] == s[from + to - 1]);
    }
    (from, from + to)
}

// -------------------------------------------------------------------------- splitting

/// Pieces put together again with the separator between them.
pub open spec fn glued(pieces: Seq<Seq<char>>, sep: char) -> Seq<char>
    decreases pieces.len(),
{
    if pieces.len() == 0 {
        Seq::empty()
    } else if pieces.len() == 1 {
        pieces[0]
    } else {
        glued(pieces.drop_last(), sep) + seq![sep] + pieces.last()
    }
}

/// Splitting loses nothing: no piece holds the separator, and put together with it the
/// pieces are the text.
pub proof fn law_splitting_keeps_the_text(s: Seq<char>, sep: char)
    ensures
        text::split_on(s, sep).len() > 0,
        glued(text::split_on(s, sep), sep) == s,
        forall|i: int|
            0 <= i < text::split_on(s, sep).len() ==> !(#[trigger] text::split_on(
                s,
                sep,
            )[i]).contains(sep),
    decreases s.len(),
{
    let all = text::split_on(s, sep);
    if s.len() == 0 {
        assert(glued(all, sep) =~= s);
    } else {
        let front = text::split_on(s.drop_last(), sep);
        law_splitting_keeps_the_text(s.drop_last(), sep);
        assert(s =~= s.drop_last().push(s.last()));
        if s.last() == sep {
            assert(all.drop_last() =~= front);
            assert(glued(front, sep) + seq![sep] + Seq::<char>::empty() =~= s);
        } else {
            let last = front.last().push(s.last());
            assert(all.drop_last() =~= front.drop_last());
            assert(all.last() == last);
            if front.len() > 1 {
                assert(glued(front.drop_last(), sep) + seq![sep] + last =~= (glued(
                    front.drop_last(),
                    sep,
                ) + seq![sep] + front.last()).push(s.last()));
            } else {
                assert(all[0] == last);
                assert(front[0] == front.last());
            }
            assert forall|i: int| 0 <= i < all.len() implies !(#[trigger] all[i]).contains(
                sep,
            ) by {
                if i == all.len() - 1 {
                    assert(!front[front.len() - 1].contains(sep));
                    if last.contains(sep) {
                        let k = last.index_of(sep);
                        assert(front.last()[k] == sep);
                    }
                } else {
                    assert(all[i] == front[i]);
                }
            }
        }
    }
}

/// A piece without the separator behind one more separator is one more piece.
pub proof fn lemma_split_more(s: Seq<char>, sep: char, piece: Seq<char>)
    requires
        !piece.contains(sep),
    ensures
        text::split_on(s + seq![sep] + piece, sep) == text::split_on(s, sep).push(piece),
    decreases piece.len(),
{
    let whole = s + seq![sep] + piece;
    law_splitting_keeps_the_text(s, sep);
    if piece.len() == 0 {
        assert(whole.drop_last() =~= s);
        assert(piece =~= Seq::<char>::empty());
    } else {
        let front = piece.drop_last();
        assert(!front.contains(sep)) by {
            if front.contains(sep) {
                assert(piece[front.index_of(sep)] == sep);
            }
        }
        lemma_split_more(s, sep, front);
        assert(whole.drop_last() =~= s + seq![sep] + front);
        assert(whole.last() == piece.last());
        assert(piece.last() != sep) by {
            assert(piece[piece.len() - 1] == piece.last());
        }
        let before = text::split_on(s, sep).push(front);
        assert(before.drop_last() =~= text::split_on(s, sep));
        assert(before.last().push(piece.last()) =~= piece);
    }
}

/// Joining and splitting undo each other: texts without the separator, joined with it, are
/// the pieces of the result.
pub proof fn law_joined_texts_split_again(parts: Seq<Seq<char>>, sep: char)
    requires
        parts.len() > 0,
        forall|i: int| 0 <= i < parts.len() ==> !(#[trigger] parts[i]).contains(sep),
    ensures
        text::split_on(text::joined(parts, seq![sep]), sep) == parts,
    decreases parts.len(),
{
    if parts.len() == 1 {
        lemma_one_piece(parts[0], sep);
        assert(parts =~= seq![parts[0]]);
    } else {
        let front = parts.drop_last();
        assert forall|i: int| 0 <= i < front.len() implies !(#[trigger] front[i]).contains(
            sep,
        ) by {
            assert(front[i] == parts[i]);
        }
        law_joined_texts_split_again(front, sep);
        assert(!parts[parts.len() - 1].contains(sep));
        lemma_split_more(text::joined(front, seq![sep]), sep, parts.last());
        assert(front.push(parts.last()) =~= parts);
    }
}

proof fn lemma_one_piece(s: Seq<char>, sep: char)
    requires
        !s.contains(sep),
    ensures
        text::split_on(s, sep) == seq![s],
    decreases s.len(),
{
    if s.len() == 0 {
        assert(s =~= Seq::<char>::empty());
    } else {
        assert(!s.drop_last().contains(sep)) by {
            if s.drop_last().contains(sep) {
                assert(s[s.drop_last().index_of(sep)] == sep);
            }
        }
        lemma_one_piece(s.drop_last(), sep);
        assert(s.last() != sep) by {
            assert(s[s.len() - 1] == s.last());
        }
        assert(seq![s.drop_last()].drop_last().push(s.drop_last().push(s.last())) =~= seq![s]) by {
            assert(s.drop_last().push(s.last()) =~= s);
        }
        assert(seq![s.drop_last()].last() == s.drop_last());
    }
}

/// Joining puts the separator between neighbours and nowhere else.
pub proof fn law_joining_keeps_the_parts(parts: Seq<Seq<char>>, last: Seq<char>, sep: Seq<char>)
    ensures
        text::joined(Seq::empty(), sep).len() == 0,
        text::joined(seq![last], sep) == last,
        parts.len() > 0 ==> text::joined(parts.push(last), sep) == text::joined(parts, sep) + sep
            + last,
{
    assert(parts.push(last).drop_last() =~= parts);
}

/// The lines of a text have no line ends in them, and where it has no carriage returns,
/// put together with line ends they are the text, up to one at its end.
pub proof fn law_lines_keep_the_text(s: Seq<char>)
    requires
        !s.contains('\r'),
    ensures
        ({
            let lines = text::line_texts(s);
            let whole = glued(lines, '\n');
            &&& forall|i: int| 0 <= i < lines.len() ==> !(#[trigger] lines[i]).contains('\n')
            &&& lines.len() == 0 <==> s.len() == 0
            &&& lines.len() > 0 ==> s == whole || s == whole.push('\n')
        }),
{
    let pieces = text::split_on(s, '\n');
    law_splitting_keeps_the_text(s, '\n');
    let front = pieces.drop_last();
    let ended = front.map_values(|piece: Seq<char>| text::strip_return(piece));
    assert forall|i: int| 0 <= i < front.len() implies ended[i] == front[i] by {
        lemma_piece_inside(pieces, '\n', i, '\r');
        assert(front[i] == pieces[i]);
        if front[i].len() > 0 && front[i].last() == '\r' {
            assert(front[i].contains('\r'));
        }
    }
    assert(ended =~= front);
    assert(front.push(pieces.last()) =~= pieces);
    let lines = text::line_texts(s);
    if pieces.last().len() == 0 {
        assert(lines == front);
        if front.len() > 0 {
            assert(glued(pieces, '\n') =~= glued(front, '\n').push('\n'));
        } else {
            assert(pieces[0] == pieces.last());
        }
        assert forall|i: int| 0 <= i < lines.len() implies !(#[trigger] lines[i]).contains(
            '\n',
        ) by {
            assert(lines[i] == pieces[i]);
        }
    } else {
        assert(lines == pieces);
        if s.len() == 0 {
            assert(pieces =~= seq![Seq::<char>::empty()]);
        }
    }
}

proof fn lemma_piece_inside(pieces: Seq<Seq<char>>, sep: char, i: int, c: char)
    requires
        0 <= i < pieces.len(),
        !glued(pieces, sep).contains(c),
    ensures
        !pieces[i].contains(c),
    decreases pieces.len(),
{
    let whole = glued(pieces, sep);
    if pieces.len() == 1 {
    } else if i == pieces.len() - 1 {
        if pieces[i].contains(c) {
            let k = pieces[i].index_of(c);
            assert(whole[whole.len() - pieces[i].len() + k] == c);
        }
    } else {
        let front = pieces.drop_last();
        assert(!glued(front, sep).contains(c)) by {
            if glued(front, sep).contains(c) {
                assert(whole[glued(front, sep).index_of(c)] == c);
            }
        }
        lemma_piece_inside(front, sep, i, c);
    }
}

/// Cutting a text at a character gives what stands in front of its first occurrence and
/// what stands behind it; there is nothing to cut only where it does not occur.
pub proof fn law_cutting_finds_the_first(s: Seq<char>, c: char)
    ensures
        match text::cut_at(s, c) {
            Some((before, after)) => !before.contains(c) && s == before + seq![c] + after,
            None => !s.contains(c),
        },
    decreases s.len(),
{
    lemma_first_of(s, c);
    if let Some(i) = text::first_of(s, c) {
        assert(s =~= s.take(i) + seq![c] + s.skip(i + 1));
        if s.take(i).contains(c) {
            let k = s.take(i).index_of(c);
            assert(s[k] == c);
        }
    }
}

proof fn lemma_first_of(s: Seq<char>, c: char)
    ensures
        match text::first_of(s, c) {
            Some(i) => 0 <= i < s.len() && s[i] == c && forall|k: int|
                0 <= k < i ==> #[trigger] s[k] != c,
            None => !s.contains(c),
        },
    decreases s.len(),
{
    if s.len() > 0 && s[0] != c {
        lemma_first_of(s.skip(1), c);
        match text::first_of(s.skip(1), c) {
            Some(i) => {
                assert forall|k: int| 0 <= k < i + 1 implies #[trigger] s[k] != c by {
                    if k > 0 {
                        assert(s.skip(1)[k - 1] == s[k]);
                    }
                }
            },
            None => {
                if s.contains(c) {
                    let k = s.index_of(c);
                    assert(s.skip(1)[k - 1] == c);
                }
            },
        }
    }
}

// ------------------------------------------------------------------------------ words

/// The characters of a text that are not white space.
pub open spec fn inked(s: Seq<char>) -> Seq<char>
    decreases s.len(),
{
    if s.len() == 0 {
        s
    } else if text::white_space(s.last()) {
        inked(s.drop_last())
    } else {
        inked(s.drop_last()).push(s.last())
    }
}

/// Words one right behind the other.
pub open spec fn run_together(words: Seq<Seq<char>>) -> Seq<char>
    decreases words.len(),
{
    if words.len() == 0 {
        Seq::empty()
    } else {
        run_together(words.drop_last()) + words.last()
    }
}

/// The words of a text are not empty and hold no white space, and together they are all
/// that is not white space, in order. A text that ends in a word and one that ends in
/// white space are told apart by whether a letter behind it begins a new word.
pub proof fn law_words_are_what_is_between_blanks(s: Seq<char>, c: char)
    ensures
        run_together(text::words_of(s)) == inked(s),
        forall|i: int|
            0 <= i < text::words_of(s).len() ==> (#[trigger] text::words_of(s)[i]).len() > 0
                && forall|k: int|
                0 <= k < text::words_of(s)[i].len() ==> !text::white_space(
                    #[trigger] text::words_of(s)[i][k],
                ),
        s.len() > 0 && !text::white_space(s.last()) ==> text::words_of(s).len() > 0,
        !text::white_space(c) ==> text::words_of(s.push(c)).len() == text::words_of(s).len() + (
        if s.len() == 0 || text::white_space(s.last()) {
            1int
        } else {
            0
        }),
        text::white_space(c) ==> text::words_of(s.push(c)) == text::words_of(s),
    decreases s.len(),
{
    assert(s.push(c).drop_last() =~= s);
    if s.len() > 0 {
        let front = s.drop_last();
        law_words_are_what_is_between_blanks(front, s.last());
        assert(front.push(s.last()) =~= s);
        let before = text::words_of(front);
        let all = text::words_of(s);
        if !text::white_space(s.last()) {
            if s.len() > 1 && !text::white_space(s[s.len() - 2]) {
                assert(front.last() == s[s.len() - 2]);
                let last = before.last().push(s.last());
                assert(all.drop_last() =~= before.drop_last());
                assert(run_together(before.drop_last()) + last =~= (run_together(
                    before.drop_last(),
                ) + before.last()).push(s.last()));
                assert forall|i: int| 0 <= i < all.len() implies (#[trigger] all[i]).len() > 0
                    && forall|k: int|
                    0 <= k < all[i].len() ==> !text::white_space(#[trigger] all[i][k]) by {
                    if i < all.len() - 1 {
                        assert(all[i] == before[i]);
                    } else {
                        assert(before[i] == before.last());
                    }
                }
            } else {
                assert(all.drop_last() =~= before);
                assert(run_together(before) + seq![s.last()] =~= run_together(before).push(
                    s.last(),
                ));
                assert forall|i: int| 0 <= i < all.len() implies (#[trigger] all[i]).len() > 0
                    && forall|k: int|
                    0 <= k < all[i].len() ==> !text::white_space(#[trigger] all[i][k]) by {
                    if i < all.len() - 1 {
                        assert(all[i] == before[i]);
                    }
                }
            }
        }
    }
}

// ---------------------------------------------------------------------------- numbers

/// What a text of digits says, in a base.
pub open spec fn says(s: Seq<char>, base: int) -> int
    decreases s.len(),
{
    if s.len() == 0 {
        0
    } else {
        let c = s.last();
        says(s.drop_last(), base) * base + (if '0' <= c <= '9' {
            c as int - '0' as int
        } else {
            c as int - 'a' as int + 10
        })
    }
}

/// A number that is written says the number, with digits alone and no zero in front.
pub proof fn law_numbers_are_written(n: nat)
    ensures
        says(text::decimal(n), 10) == n,
        text::decimal(n).len() > 0,
        n > 0 ==> text::decimal(n)[0] != '0',
        forall|i: int| 0 <= i < text::decimal(n).len() ==> '0' <= #[trigger] text::decimal(n)[i] <= '9',
    decreases n,
{
    if n < 10 {
        assert(seq![text::digit(n)].drop_last() =~= Seq::<char>::empty());
        assert(says(Seq::<char>::empty(), 10) == 0);
    } else {
        law_numbers_are_written(n / 10);
        let front = text::decimal(n / 10);
        assert(front.push(text::digit(n % 10)).drop_last() =~= front);
        assert(text::decimal(n)[0] == front[0]);
    }
}

/// A number in base sixteen says the number, with small letters and no zero in front.
pub proof fn law_hexadecimal_is_written(n: nat)
    ensures
        says(text::hexadecimal(n), 16) == n,
        text::hexadecimal(n).len() > 0,
        n > 0 ==> text::hexadecimal(n)[0] != '0',
    decreases n,
{
    if n < 16 {
        assert(seq![text::digit(n)].drop_last() =~= Seq::<char>::empty());
        assert(says(Seq::<char>::empty(), 16) == 0);
    } else {
        law_hexadecimal_is_written(n / 16);
        let front = text::hexadecimal(n / 16);
        assert(front.push(text::digit(n % 16)).drop_last() =~= front);
        assert(text::hexadecimal(n)[0] == front[0]);
    }
}

proof fn lemma_digits_say(s: Seq<char>)
    requires
        forall|i: int| 0 <= i < s.len() ==> '0' <= #[trigger] s[i] <= '9',
    ensures
        text::digits_value(s) == says(s, 10),
    decreases s.len(),
{
    if s.len() > 0 {
        assert('0' <= s[s.len() - 1] <= '9');
        assert forall|i: int| 0 <= i < s.drop_last().len() implies '0'
            <= #[trigger] s.drop_last()[i] <= '9' by {
            assert(s.drop_last()[i] == s[i]);
        }
        lemma_digits_say(s.drop_last());
    }
}

/// Nothing but digits.
pub open spec fn only_digits(s: Seq<char>) -> bool {
    forall|i: int| 0 <= i < s.len() ==> '0' <= #[trigger] s[i] <= '9'
}

/// A number is read exactly where a text is digits, at least one, that say one small
/// enough. What is read is what they say, and a plus in front changes nothing.
pub proof fn law_numbers_are_read(s: Seq<char>)
    requires
        s.len() > 0 ==> s[0] != '+',
    ensures
        match text::parse_unsigned(s) {
            Some(n) => s.len() > 0 && only_digits(s) && n == says(s, 10),
            None => s.len() == 0 || !only_digits(s) || says(s, 10) > u64::MAX,
        },
        text::parse_unsigned(seq!['+'] + s) == text::parse_unsigned(s),
{
    assert((seq!['+'] + s).skip(1) =~= s);
    assert(only_digits(s) == text::all_digits(s)) by {
        if text::all_digits(s) {
            assert forall|i: int| 0 <= i < s.len() implies '0' <= #[trigger] s[i] <= '9' by {
                assert(text::ascii_digit(s[i]));
            }
        }
        if only_digits(s) {
            assert forall|i: int| 0 <= i < s.len() implies text::ascii_digit(#[trigger] s[i]) by {}
        }
    }
    if only_digits(s) {
        lemma_digits_say(s);
    }
}

/// A signed number has a minus exactly where it is below zero, in front of its size.
pub proof fn law_signs_are_written(n: int)
    ensures
        n >= 0 ==> text::signed(n) == text::decimal(n as nat),
        n < 0 ==> text::signed(n).len() > 0 && text::signed(n)[0] == '-' && text::signed(n).skip(1)
            == text::decimal((-n) as nat),
{
    reveal_strlit("-");
    if n < 0 {
        assert(text::signed(n).skip(1) =~= text::decimal((-n) as nat));
    }
}

// ------------------------------------------------------------------------ characters

/// The classes of plain characters, by their codes.
pub proof fn law_plain_characters(c: char)
    ensures
        text::ascii(c) <==> (c as u32) <= 127,
        text::ascii_digit(c) <==> 48 <= (c as u32) <= 57,
        text::ascii_upper(c) <==> 65 <= (c as u32) <= 90,
        text::ascii_lower(c) <==> 97 <= (c as u32) <= 122,
        text::ascii_alnum(c) <==> text::ascii_digit(c) || text::ascii_upper(c)
            || text::ascii_lower(c),
        text::control(c) <==> (c as u32) <= 31 || 127 <= (c as u32) <= 159,
        text::ascii_upper(c) ==> text::ascii_lower(text::ascii_lowercase(c)) && (
        text::ascii_lowercase(c) as u32) == (c as u32) + 32,
        !text::ascii_upper(c) ==> text::ascii_lowercase(c) == c,
        text::ascii(c) ==> (text::alphanumeric(c) <==> text::ascii_alnum(c)),
{
}

/// Lower case is made character by character in plain text, and making it again changes
/// nothing.
pub proof fn law_lower_case_is_settled(s: Seq<char>)
    requires
        text::all_ascii(s),
    ensures
        text::lowercase(s).len() == s.len(),
        forall|i: int|
            0 <= i < s.len() ==> #[trigger] text::lowercase(s)[i] == text::ascii_lowercase(s[i]),
        text::lowercase(text::lowercase(s)) == text::lowercase(s),
{
    let low = text::lowercase(s);
    assert forall|i: int| 0 <= i < low.len() implies text::ascii(#[trigger] low[i])
        && text::ascii_lowercase(low[i]) == low[i] by {
        assert(text::ascii(s[i]));
    }
    assert(text::lowercase(low) =~= low);
}

/// Texts are ordered by the first character in which they differ, and a text comes in
/// front of a longer one that begins with it.
pub proof fn law_texts_are_ordered(
    common: Seq<char>,
    x: char,
    y: char,
    a: Seq<char>,
    b: Seq<char>,
)
    ensures
        (x as u32) < (y as u32) ==> text::precedes(
            common + seq![x] + a,
            common + seq![y] + b,
        ) && !text::precedes(common + seq![y] + b, common + seq![x] + a),
        text::precedes(common, common + seq![y] + b),
        !text::precedes(common + seq![y] + b, common),
    decreases common.len(),
{
    let p = common + seq![x] + a;
    let q = common + seq![y] + b;
    if common.len() > 0 {
        let rest = common.skip(1);
        law_texts_are_ordered(rest, x, y, a, b);
        assert(p.skip(1) =~= rest + seq![x] + a);
        assert(q.skip(1) =~= rest + seq![y] + b);
        assert(p[0] == q[0]);
        assert(common[0] == q[0]);
    } else {
        assert(p[0] == x && q[0] == y);
    }
}

// ---------------------------------------------------------------------------- rewriting

/// Replacing a character by another does so wherever it stands and nowhere else.
pub proof fn law_replacing_keeps_the_rest(s: Seq<char>, from: char, to: char)
    ensures
        text::replace_char(s, from, seq![to]).len() == s.len(),
        forall|i: int|
            0 <= i < s.len() ==> #[trigger] text::replace_char(s, from, seq![to])[i] == (if s[i]
                == from {
                to
            } else {
                s[i]
            }),
    decreases s.len(),
{
    if s.len() > 0 {
        law_replacing_keeps_the_rest(s.drop_last(), from, to);
    }
}

/// Replacing by a text that does not hold the character leaves none of it, and a text
/// without the character stays as it is.
pub proof fn law_replacing_leaves_none(s: Seq<char>, from: char, to: Seq<char>)
    ensures
        !to.contains(from) ==> !text::replace_char(s, from, to).contains(from),
        !s.contains(from) ==> text::replace_char(s, from, to) == s,
        text::replace_char(s.push(from), from, to) == text::replace_char(s, from, to) + to,
    decreases s.len(),
{
    assert(s.push(from).drop_last() =~= s);
    if s.len() > 0 {
        let front = s.drop_last();
        law_replacing_leaves_none(front, from, to);
        let done = text::replace_char(front, from, to);
        let all = text::replace_char(s, from, to);
        if !to.contains(from) && all.contains(from) {
            let k = all.index_of(from);
            if k < done.len() {
                assert(done[k] == from);
            } else if s.last() == from {
                assert(to[k - done.len()] == from);
            }
        }
        if !s.contains(from) {
            assert(s[s.len() - 1] != from);
            if front.contains(from) {
                assert(s[front.index_of(from)] == from);
            }
            assert(all =~= s);
        }
    }
}

/// A text that is filled up begins with itself, ends in spaces, and has the width or more.
pub proof fn law_filling_up_keeps_the_text(s: Seq<char>, width: int)
    ensures
        text::padded_to(s, width).len() == (if s.len() < width {
            width
        } else {
            s.len() as int
        }),
        text::padded_to(s, width).take(s.len() as int) == s,
        forall|i: int|
            s.len() <= i < text::padded_to(s, width).len() ==> #[trigger] text::padded_to(
                s,
                width,
            )[i] == ' ',
{
    assert(text::padded_to(s, width).take(s.len() as int) =~= s);
}

// ------------------------------------------------------------------------------ paths

/// A relative name below a directory is the directory, one slash, and the name; an
/// absolute name stands for itself.
pub proof fn law_names_are_joined_to_directories(dir: Seq<char>, name: Seq<char>)
    ensures
        name.len() > 0 && name[0] == '/' ==> text::path_join(dir, name) == name,
        !(name.len() > 0 && name[0] == '/') && dir.len() > 0 && dir.last() != '/'
            ==> text::path_join(dir, name) == dir + seq!['/'] + name,
        !(name.len() > 0 && name[0] == '/') && (dir.len() == 0 || dir.last() == '/')
            ==> text::path_join(dir, name) == dir + name,
{
    reveal_strlit("/");
    assert("/"@ =~= seq!['/']);
}

/// The last part of a path is its name: what stands behind the last slash, unless that
/// names nothing or leads back.
pub proof fn law_paths_end_in_their_names(dir: Seq<char>, name: Seq<char>)
    requires
        !name.contains('/'),
        name.len() > 0,
        name != "."@,
        name != ".."@,
    ensures
        text::base_name(dir + seq!['/'] + name) == Some(name),
        text::base_name(name) == Some(name),
{
    lemma_split_more(dir, '/', name);
    lemma_one_piece(name, '/');
    let keep = |part: Seq<char>| part.len() > 0 && part != "."@;
    let front = text::split_on(dir, '/');
    reveal(Seq::filter);
    assert(front.push(name).drop_last() =~= front);
    assert(front.push(name).filter(keep) == front.filter(keep).push(name));
    assert(seq![name].drop_last() =~= Seq::empty());
    assert(seq![name].last() == name);
    assert(seq![name].filter(keep).last() == name);
}

proof fn lemma_extension_dot(name: Seq<char>, end: int)
    requires
        0 <= end <= name.len(),
    ensures
        match text::extension_dot(name, end) {
            Some(dot) => 0 < dot < end && name[dot] == '.' && forall|k: int|
                dot < k < end ==> #[trigger] name[k] != '.',
            None => forall|k: int| 0 < k < end ==> #[trigger] name[k] != '.',
        },
    decreases end,
{
    if end > 1 && name[end - 1] != '.' {
        lemma_extension_dot(name, end - 1);
    }
}

/// A name is its stem, a dot and its extension, which has no dot; a name whose only dot
/// is in front has no extension and is its own stem.
pub proof fn law_names_have_stems_and_extensions(name: Seq<char>)
    ensures
        match text::extension_of(name) {
            Some(ext) => name == text::stem_of(name) + seq!['.'] + ext && !ext.contains('.')
                && text::stem_of(name).len() > 0,
            None => text::stem_of(name) == name && forall|k: int|
                0 < k < name.len() ==> #[trigger] name[k] != '.',
        },
{
    lemma_extension_dot(name, name.len() as int);
    if let Some(dot) = text::extension_dot(name, name.len() as int) {
        let ext = name.skip(dot + 1);
        assert(name =~= name.take(dot) + seq!['.'] + ext);
        if ext.contains('.') {
            let k = ext.index_of('.');
            assert(name[dot + 1 + k] == '.');
        }
    }
}

/// A text is blank as long as only white space is added to it.
pub proof fn law_blank_texts(s: Seq<char>, c: char)
    ensures
        text::blank(s.push(c)) <==> text::blank(s) && text::white_space(c),
        text::blank(Seq::empty()),
{
    let more = s.push(c);
    if text::blank(more) {
        assert(text::white_space(more[s.len() as int]));
        assert forall|i: int| 0 <= i < s.len() implies text::white_space(#[trigger] s[i]) by {
            assert(text::white_space(more[i]));
        }
    }
    if text::blank(s) && text::white_space(c) {
        assert forall|i: int| 0 <= i < more.len() implies text::white_space(#[trigger] more[i]) by {
            if i < s.len() {
                assert(text::white_space(s[i]));
            }
        }
    }
}

/// Two texts name one path when they have the same parts from the same start.
pub proof fn law_one_path(a: Seq<char>, b: Seq<char>)
    ensures
        text::one_path(a, a),
        text::one_path(a, b) <==> text::one_path(b, a),
        text::one_path(a, b) ==> text::path_parts(a) == text::path_parts(b),
        text::one_path(a, b) && a.len() > 0 && a[0] == '/' ==> b.len() > 0 && b[0] == '/',
{
}

} // verus!
