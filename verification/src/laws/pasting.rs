//! Pastes: what is taken out of them, and how they reach a program.

use vstd::prelude::*;

use crate::automation;
use crate::paste;
use crate::text;

verus! {

/// Line ends of any system become one: text without carriage returns stays, and one in
/// front of a line end goes.
pub proof fn law_line_ends_are_one(plain: Seq<char>, rest: Seq<char>)
    requires
        !plain.contains('\r'),
    ensures
        paste::unix_newlines(plain) == plain,
        paste::unix_newlines(plain + seq!['\r', '\n'] + rest) == plain + seq!['\n']
            + paste::unix_newlines(rest),
    decreases plain.len(),
{
    let whole = plain + seq!['\r', '\n'] + rest;
    if plain.len() == 0 {
        assert(whole[0] == '\r' && whole[1] == '\n');
        assert(whole.skip(2) =~= rest);
        assert(plain + seq!['\n'] + paste::unix_newlines(rest) =~= seq!['\n']
            + paste::unix_newlines(rest));
        assert(plain =~= Seq::<char>::empty());
    } else {
        let tail = plain.skip(1);
        assert(plain[0] != '\r');
        assert(!tail.contains('\r')) by {
            if tail.contains('\r') {
                assert(plain[tail.index_of('\r') + 1] == '\r');
            }
        }
        law_line_ends_are_one(tail, rest);
        assert(whole.skip(1) =~= tail + seq!['\r', '\n'] + rest);
        assert(seq![plain[0]] + tail =~= plain);
        assert(seq![plain[0]] + (tail + seq!['\n'] + paste::unix_newlines(rest)) =~= plain
            + seq!['\n'] + paste::unix_newlines(rest));
    }
}

/// Text that may stand in a paste.
pub open spec fn printable(s: Seq<char>) -> bool {
    forall|i: int|
        0 <= i < s.len() ==> (#[trigger] s[i] == '\n' || s[i] == '\t' || s[i] as u32 >= 32)
}

/// What may stand in a paste stays in front of whatever follows.
pub proof fn law_plain_text_stays(plain: Seq<char>, rest: Seq<char>)
    requires
        printable(plain),
    ensures
        paste::clean(plain + rest) == plain + paste::clean(rest),
    decreases plain.len(),
{
    if plain.len() == 0 {
        assert(plain + rest =~= rest);
        assert(plain + paste::clean(rest) =~= paste::clean(rest));
    } else {
        let tail = plain.skip(1);
        assert forall|i: int| 0 <= i < tail.len() implies (#[trigger] tail[i] == '\n' || tail[i]
            == '\t' || tail[i] as u32 >= 32) by {
            assert(tail[i] == plain[i + 1]);
        }
        law_plain_text_stays(tail, rest);
        assert((plain + rest).skip(1) =~= tail + rest);
        assert((plain + rest)[0] == plain[0]);
        assert(plain[0] == '\n' || plain[0] == '\t' || plain[0] as u32 >= 32);
        assert(seq![plain[0]] + (tail + paste::clean(rest)) =~= plain + paste::clean(rest));
    }
}

proof fn lemma_csi(middle: Seq<char>, end: char, rest: Seq<char>)
    requires
        forall|i: int| 0 <= i < middle.len() ==> !('\x40' <= #[trigger] middle[i] <= '\x7e'),
        '\x40' <= end <= '\x7e',
    ensures
        paste::after_csi(middle + seq![end] + rest) == rest,
    decreases middle.len(),
{
    let s = middle + seq![end] + rest;
    if middle.len() == 0 {
        assert(s[0] == end);
        assert(s.skip(1) =~= rest);
    } else {
        let tail = middle.skip(1);
        assert forall|i: int| 0 <= i < tail.len() implies !('\x40' <= #[trigger] tail[i]
            <= '\x7e') by {
            assert(tail[i] == middle[i + 1]);
        }
        lemma_csi(tail, end, rest);
        assert(s[0] == middle[0]);
        assert(s.skip(1) =~= tail + seq![end] + rest);
    }
}

/// A control sequence vanishes whole: from its escape to the letter that ends it, and not
/// a character of what follows.
pub proof fn law_control_sequences_vanish(middle: Seq<char>, end: char, rest: Seq<char>)
    requires
        forall|i: int| 0 <= i < middle.len() ==> !('\x40' <= #[trigger] middle[i] <= '\x7e'),
        '\x40' <= end <= '\x7e',
    ensures
        paste::clean(seq!['\x1b', '['] + middle + seq![end] + rest) == paste::clean(rest),
{
    let s = seq!['\x1b', '['] + middle + seq![end] + rest;
    assert(s[0] == '\x1b');
    assert(s.skip(1)[0] == '[');
    assert(s.skip(1).skip(1) =~= middle + seq![end] + rest);
    lemma_csi(middle, end, rest);
}

proof fn lemma_osc(middle: Seq<char>, end: Seq<char>, rest: Seq<char>)
    requires
        forall|i: int|
            0 <= i < middle.len() ==> #[trigger] middle[i] != '\x07' && middle[i] != '\x1b',
        end == seq!['\x07'] || end == seq!['\x1b', '\\'],
    ensures
        paste::after_osc(middle + end + rest) == rest,
    decreases middle.len(),
{
    let s = middle + end + rest;
    if middle.len() == 0 {
        if end == seq!['\x07'] {
            assert(s[0] == '\x07');
            assert(s.skip(1) =~= rest);
        } else {
            assert(s[0] == '\x1b' && s[1] == '\\');
            assert(s.skip(2) =~= rest);
        }
    } else {
        let tail = middle.skip(1);
        assert forall|i: int| 0 <= i < tail.len() implies #[trigger] tail[i] != '\x07' && tail[i]
            != '\x1b' by {
            assert(tail[i] == middle[i + 1]);
        }
        lemma_osc(tail, end, rest);
        assert(s[0] == middle[0]);
        assert(s.skip(1) =~= tail + end + rest);
    }
}

/// A command to the terminal vanishes whole, whichever of the two ways it ends.
pub proof fn law_terminal_commands_vanish(middle: Seq<char>, end: Seq<char>, rest: Seq<char>)
    requires
        forall|i: int|
            0 <= i < middle.len() ==> #[trigger] middle[i] != '\x07' && middle[i] != '\x1b',
        end == seq!['\x07'] || end == seq!['\x1b', '\\'],
    ensures
        paste::clean(seq!['\x1b', ']'] + middle + end + rest) == paste::clean(rest),
{
    let s = seq!['\x1b', ']'] + middle + end + rest;
    assert(s[0] == '\x1b');
    assert(s.skip(1)[0] == ']');
    assert(s.skip(1).skip(1) =~= middle + end + rest);
    lemma_osc(middle, end, rest);
}

/// A lone control character goes, and nothing with it.
pub proof fn law_control_characters_vanish(c: char, rest: Seq<char>)
    requires
        c as u32 <= 31,
        c != '\n',
        c != '\t',
        c != '\x1b',
    ensures
        paste::clean(seq![c] + rest) == paste::clean(rest),
{
    assert((seq![c] + rest)[0] == c);
    assert((seq![c] + rest).skip(1) =~= rest);
}

/// A program that asked for it sees a paste between two marks, the text unchanged; any
/// other sees it typed, with Enter in place of each line end and no line end left.
pub proof fn law_pastes_are_framed(pasted: Seq<char>)
    ensures
        ({
            let marked = paste::framed(pasted, true);
            &&& marked.len() == pasted.len() + 12
            &&& marked.take(6) == seq!['\x1b', '[', '2', '0', '0', '~']
            &&& marked.subrange(6, 6 + pasted.len() as int) == pasted
            &&& marked.skip(6 + pasted.len() as int) == seq!['\x1b', '[', '2', '0', '1', '~']
        }),
        paste::framed(pasted, false).len() == pasted.len(),
        forall|i: int|
            0 <= i < pasted.len() ==> #[trigger] paste::framed(pasted, false)[i] == (if pasted[i]
                == '\n' {
                '\r'
            } else {
                pasted[i]
            }),
{
    reveal_strlit("\x1b[200~");
    reveal_strlit("\x1b[201~");
    reveal_strlit("\r");
    let marked = paste::framed(pasted, true);
    assert(marked.take(6) =~= seq!['\x1b', '[', '2', '0', '0', '~']);
    assert(marked.subrange(6, 6 + pasted.len() as int) =~= pasted);
    assert(marked.skip(6 + pasted.len() as int) =~= seq!['\x1b', '[', '2', '0', '1', '~']);
    assert("\r"@ =~= seq!['\r']);
    crate::laws::wording::law_replacing_keeps_the_rest(pasted, '\n', '\r');
}

/// A prompt is a paste of the clean text, and then Enter.
pub proof fn law_prompts_are_pastes(input: Seq<char>, bracketed: bool)
    ensures
        automation::prompt_bytes(input, bracketed) == vstd::utf8::encode_utf8(
            paste::framed(paste::clean(paste::unix_newlines(input)), bracketed),
        ).push(13),
{
}

} // verus!
