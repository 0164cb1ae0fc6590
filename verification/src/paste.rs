//! Paste sanitizing, bracketed-paste wrapping, and chunking.
//!
//! Pasted text can carry escape sequences and stray control bytes. `sanitize`
//! removes them so a paste cannot drive the terminal, `wrap` frames the bytes
//! for the target program, and `chunks` splits a large paste so that it can be
//! paced.

use vstd::prelude::*;

use crate::text;

verus! {

/// Default paste chunk size; large pastes are paced one chunk at a time.
pub const CHUNK_SIZE: usize = 65536;

/// The text with each carriage return and newline pair made a newline.
pub open spec fn unix_newlines(s: Seq<char>) -> Seq<char>
    decreases s.len(),
{
    if s.len() == 0 {
        Seq::empty()
    } else if s.len() >= 2 && s[0] == '\r' && s[1] == '\n' {
        seq!['\n'] + unix_newlines(s.skip(2))
    } else {
        seq![s[0]] + unix_newlines(s.skip(1))
    }
}

/// What is left after the final character of a control sequence.
pub open spec fn after_csi(s: Seq<char>) -> Seq<char>
    decreases s.len(),
{
    if s.len() == 0 {
        s
    } else if '\x40' <= s[0] <= '\x7e' {
        s.skip(1)
    } else {
        after_csi(s.skip(1))
    }
}

/// What is left after the BEL or the string terminator of an operating system
/// command. A lone ESC ends it too.
pub open spec fn after_osc(s: Seq<char>) -> Seq<char>
    decreases s.len(),
{
    if s.len() == 0 {
        s
    } else if s[0] == '\x07' {
        s.skip(1)
    } else if s[0] == '\x1b' {
        if s.len() >= 2 && s[1] == '\\' {
            s.skip(2)
        } else {
            s.skip(1)
        }
    } else {
        after_osc(s.skip(1))
    }
}

/// What is left after one escape sequence whose ESC has been read.
pub open spec fn after_escape(s: Seq<char>) -> Seq<char> {
    if s.len() == 0 {
        s
    } else if s[0] == '[' {
        after_csi(s.skip(1))
    } else if s[0] == ']' {
        after_osc(s.skip(1))
    } else {
        s.skip(1)
    }
}

pub proof fn lemma_after_shrinks(s: Seq<char>)
    ensures
        after_csi(s).len() <= s.len(),
        after_osc(s).len() <= s.len(),
    decreases s.len(),
{
    if s.len() > 0 {
        lemma_after_shrinks(s.skip(1));
    }
}

/// The text without escape sequences and control characters; newline and tab
/// stay.
pub open spec fn clean(s: Seq<char>) -> Seq<char>
    decreases s.len(),
{
    if s.len() == 0 {
        Seq::empty()
    } else if s[0] == '\x1b' {
        proof {
            lemma_after_shrinks(s.skip(1));
            lemma_after_shrinks(s.skip(1).skip(1));
        }
        clean(after_escape(s.skip(1)))
    } else if s[0] == '\n' || s[0] == '\t' || (s[0] as u32) >= 0x20 {
        seq![s[0]] + clean(s.skip(1))
    } else {
        clean(s.skip(1))
    }
}

fn normalize_newlines(text: &str) -> (r: Vec<char>)
    ensures
        r@ == unix_newlines(text@),
{
    let chars = text::chars_of(text);
    let mut out: Vec<char> = Vec::new();
    let mut i: usize = 0;
    assert(chars@.skip(0) =~= chars@);
    assert(out@ + unix_newlines(chars@) =~= unix_newlines(chars@));
    while i < chars.len()
        invariant
            chars@ == text@,
            i <= chars@.len(),
            out@ + unix_newlines(chars@.skip(i as int)) == unix_newlines(chars@),
        decreases chars@.len() - i,
    {
        let ghost rest = chars@.skip(i as int);
        let ghost before = out@;
        assert(rest[0] == chars@[i as int]);
        if chars[i] == '\r' && i + 1 < chars.len() && chars[i + 1] == '\n' {
            out.push('\n');
            assert(rest[1] == chars@[i + 1]);
            assert(rest.skip(2) =~= chars@.skip(i + 2));
            assert(out@ + unix_newlines(chars@.skip(i + 2)) =~= before + unix_newlines(rest));
            i += 2;
        } else {
            out.push(chars[i]);
            assert(rest.len() >= 2 ==> rest[1] == chars@[i + 1]);
            assert(rest.skip(1) =~= chars@.skip(i + 1));
            assert(out@ + unix_newlines(chars@.skip(i + 1)) =~= before + unix_newlines(rest));
            i += 1;
        }
    }
    assert(chars@.skip(i as int) =~= Seq::<char>::empty());
    assert(out@ + unix_newlines(chars@.skip(i as int)) =~= out@);
    out
}

/// The index after one escape sequence whose ESC stands just before `from`.
fn strip_escape(chars: &Vec<char>, from: usize) -> (r: usize)
    requires
        from <= chars@.len(),
    ensures
        from <= r <= chars@.len(),
        chars@.skip(r as int) == after_escape(chars@.skip(from as int)),
{
    let ghost rest = chars@.skip(from as int);
    if from >= chars.len() {
        return from;
    }
    assert(rest[0] == chars@[from as int]);
    assert(rest.skip(1) =~= chars@.skip(from + 1));
    if chars[from] == '[' {
        let mut i: usize = from + 1;
        while i < chars.len()
            invariant
                from < i <= chars@.len(),
                after_csi(chars@.skip(from + 1)) == after_csi(chars@.skip(i as int)),
                after_escape(chars@.skip(from as int)) == after_csi(chars@.skip(from + 1)),
            decreases chars@.len() - i,
        {
            assert(chars@.skip(i as int)[0] == chars@[i as int]);
            assert(chars@.skip(i as int).skip(1) =~= chars@.skip(i + 1));
            if '\x40' <= chars[i] && chars[i] <= '\x7e' {
                return i + 1;
            }
            i += 1;
        }
        return i;
    }
    if chars[from] == ']' {
        let mut i: usize = from + 1;
        while i < chars.len()
            invariant
                from < i <= chars@.len(),
                after_osc(chars@.skip(from + 1)) == after_osc(chars@.skip(i as int)),
                after_escape(chars@.skip(from as int)) == after_osc(chars@.skip(from + 1)),
            decreases chars@.len() - i,
        {
            let ghost here = chars@.skip(i as int);
            assert(here[0] == chars@[i as int]);
            assert(here.skip(1) =~= chars@.skip(i + 1));
            if chars[i] == '\x07' {
                return i + 1;
            }
            if chars[i] == '\x1b' {
                if i + 1 < chars.len() && chars[i + 1] == '\\' {
                    assert(here[1] == chars@[i + 1]);
                    assert(here.skip(2) =~= chars@.skip(i + 2));
                    return i + 2;
                }
                assert(here.len() >= 2 ==> here[1] == chars@[i + 1]);
                return i + 1;
            }
            i += 1;
        }
        return i;
    }
    from + 1
}

/// Strips escape sequences and control characters from pasted text, in order:
/// line endings become newlines, each escape sequence goes in full, then the
/// control characters go that are neither newline nor tab.
pub fn sanitize(text: &str) -> (r: String)
    ensures
        r@ == clean(unix_newlines(text@)),
{
    let chars = normalize_newlines(text);
    let ghost all = unix_newlines(text@);
    let mut out = String::new();
    let mut i: usize = 0;
    assert(all.skip(0) =~= all);
    assert(out@ + clean(all) =~= clean(all));
    while i < chars.len()
        invariant
            chars@ == all,
            i <= chars@.len(),
            out@ + clean(all.skip(i as int)) == clean(all),
        decreases chars@.len() - i,
    {
        let ghost rest = all.skip(i as int);
        let ghost before = out@;
        let c = chars[i];
        assert(rest[0] == c);
        assert(rest.skip(1) =~= all.skip(i + 1));
        if c == '\x1b' {
            i = strip_escape(&chars, i + 1);
        } else if c == '\n' || c == '\t' || (c as u32) >= 0x20 {
            out.push(c);
            assert(out@ + clean(all.skip(i + 1)) =~= before + clean(rest));
            i += 1;
        } else {
            i += 1;
        }
    }
    assert(all.skip(i as int) =~= Seq::<char>::empty());
    assert(out@ + clean(all.skip(i as int)) =~= out@);
    out
}

/// A character that a paste may hold: newline, tab, or no C0 control.
pub open spec fn harmless(c: char) -> bool {
    c == '\n' || c == '\t' || (c as u32) >= 0x20
}

/// Cleaned text holds no escape and no C0 control except newline and tab.
pub proof fn law_clean_text_is_harmless(s: Seq<char>, i: int)
    requires
        0 <= i < clean(s).len(),
    ensures
        harmless(clean(s)[i]),
        clean(s)[i] != '\x1b',
    decreases s.len(),
{
    if s.len() > 0 {
        if s[0] == '\x1b' {
            lemma_after_shrinks(s.skip(1));
            lemma_after_shrinks(s.skip(1).skip(1));
            law_clean_text_is_harmless(after_escape(s.skip(1)), i);
        } else if harmless(s[0]) {
            if i > 0 {
                assert(clean(s)[i] == clean(s.skip(1))[i - 1]);
                law_clean_text_is_harmless(s.skip(1), i - 1);
            }
        } else {
            law_clean_text_is_harmless(s.skip(1), i);
        }
    }
}

/// Text of harmless characters passes unchanged, so cleaning twice is cleaning
/// once.
pub proof fn law_harmless_text_is_kept(s: Seq<char>)
    requires
        forall|i: int| 0 <= i < s.len() ==> harmless(#[trigger] s[i]) && s[i] != '\x1b',
    ensures
        clean(s) == s,
    decreases s.len(),
{
    if s.len() > 0 {
        let t = s.skip(1);
        assert forall|i: int| 0 <= i < t.len() implies harmless(#[trigger] t[i]) && t[i]
            != '\x1b' by {
            assert(t[i] == s[i + 1]);
        }
        law_harmless_text_is_kept(t);
        assert(harmless(s[0]));
        assert(seq![s[0]] + t =~= s);
    }
}

/// A sanitized text is left as it is by sanitizing it again.
pub proof fn law_sanitize_is_idempotent(s: Seq<char>)
    ensures
        clean(unix_newlines(clean(unix_newlines(s)))) == clean(unix_newlines(s)),
{
    let once = clean(unix_newlines(s));
    assert forall|i: int| 0 <= i < once.len() implies harmless(#[trigger] once[i]) && once[i]
        != '\x1b' by {
        law_clean_text_is_harmless(unix_newlines(s), i);
    }
    lemma_no_returns(once);
    law_harmless_text_is_kept(once);
}

proof fn lemma_no_returns(s: Seq<char>)
    requires
        forall|i: int| 0 <= i < s.len() ==> harmless(#[trigger] s[i]),
    ensures
        unix_newlines(s) == s,
    decreases s.len(),
{
    if s.len() > 0 {
        let t = s.skip(1);
        assert forall|i: int| 0 <= i < t.len() implies harmless(#[trigger] t[i]) by {
            assert(t[i] == s[i + 1]);
        }
        lemma_no_returns(t);
        assert(harmless(s[0]));
        assert(s[0] != '\r');
        assert(seq![s[0]] + t =~= s);
    } else {
        assert(unix_newlines(s) =~= s);
    }
}

/// A paste as a program sees it: between marks where it asked for them, else typed, with
/// Enter for each line end.
pub open spec fn framed(text: Seq<char>, bracketed: bool) -> Seq<char> {
    if bracketed {
        "\x1b[200~"@ + text + "\x1b[201~"@
    } else {
        text::replace_char(text, '\n', "\r"@)
    }
}

/// Frames text for the target program. Bracketed mode wraps it in the paste
/// markers; otherwise a newline becomes what a terminal sends for Enter.
pub fn wrap(text: &str, bracketed: bool) -> (r: Vec<u8>)
    ensures
        r@ == vstd::utf8::encode_utf8(
            if bracketed {
                "\x1b[200~"@ + text@ + "\x1b[201~"@
            } else {
                text::replace_char(text@, '\n', "\r"@)
            },
        ),
        r@ == vstd::utf8::encode_utf8(framed(text@, bracketed)),
{
    let framed = if bracketed {
        text::cat3("\x1b[200~", text, "\x1b[201~")
    } else {
        text::replaced(text, '\n', "\r")
    };
    framed.as_str().as_bytes_vec()
}

/// The pieces of `size` bytes each; the last may be shorter.
pub open spec fn pieces(bytes: Seq<u8>, size: int) -> Seq<Seq<u8>>
    decreases bytes.len(),
{
    if bytes.len() == 0 || size <= 0 {
        Seq::empty()
    } else if bytes.len() <= size {
        seq![bytes]
    } else {
        seq![bytes.take(size)] + pieces(bytes.skip(size), size)
    }
}

pub open spec fn byte_lists(v: Seq<Vec<u8>>) -> Seq<Seq<u8>> {
    v.map_values(|b: Vec<u8>| b@)
}

/// Splits bytes into `size`-byte chunks so that a large paste can be paced.
pub fn chunks(bytes: &[u8], size: usize) -> (r: Vec<Vec<u8>>)
    ensures
        byte_lists(r@) == pieces(
            bytes@,
            if size == 0 {
                1
            } else {
                size as int
            },
        ),
{
    let step: usize = if size == 0 {
        1
    } else {
        size
    };
    let mut out: Vec<Vec<u8>> = Vec::new();
    let mut i: usize = 0;
    assert(bytes@.skip(0) =~= bytes@);
    assert(byte_lists(out@) + pieces(bytes@, step as int) =~= pieces(bytes@, step as int));
    while i < bytes.len()
        invariant
            step >= 1,
            i <= bytes.len(),
            byte_lists(out@) + pieces(bytes@.skip(i as int), step as int) == pieces(
                bytes@,
                step as int,
            ),
        decreases bytes@.len() - i,
    {
        let ghost rest = bytes@.skip(i as int);
        let ghost before = byte_lists(out@);
        let end: usize = if bytes.len() - i > step {
            i + step
        } else {
            bytes.len()
        };
        let mut piece: Vec<u8> = Vec::new();
        let mut k: usize = i;
        while k < end
            invariant
                i <= k <= end <= bytes@.len(),
                piece@ == bytes@.subrange(i as int, k as int),
            decreases end - k,
        {
            piece.push(bytes[k]);
            k += 1;
        }
        let ghost cut = piece@;
        out.push(piece);
        assert(byte_lists(out@) =~= before.push(cut));
        proof {
            if rest.len() > step {
                assert(cut =~= rest.take(step as int));
                assert(rest.skip(step as int) =~= bytes@.skip(i + step));
            } else {
                assert(cut =~= rest);
                assert(bytes@.skip(end as int) =~= Seq::<u8>::empty());
            }
            assert(byte_lists(out@) + pieces(bytes@.skip(end as int), step as int) =~= before
                + pieces(rest, step as int));
        }
        i = end;
    }
    assert(bytes@.skip(i as int) =~= Seq::<u8>::empty());
    assert(byte_lists(out@) + pieces(bytes@.skip(i as int), step as int) =~= byte_lists(out@));
    out
}

/// The concatenation of byte strings.
pub open spec fn concat(parts: Seq<Seq<u8>>) -> Seq<u8>
    decreases parts.len(),
{
    if parts.len() == 0 {
        Seq::empty()
    } else {
        parts[0] + concat(parts.skip(1))
    }
}

/// The chunks of a paste put together give the paste. All but the last are as long as
/// asked, and the last is not empty and no longer.
pub proof fn law_chunks_keep_the_paste(bytes: Seq<u8>, size: int)
    requires
        size >= 1,
    ensures
        concat(pieces(bytes, size)) == bytes,
        forall|i: int|
            0 <= i < pieces(bytes, size).len() ==> 0 < (#[trigger] pieces(bytes, size)[i]).len()
                <= size,
        forall|i: int|
            0 <= i < pieces(bytes, size).len() - 1 ==> (#[trigger] pieces(bytes, size)[i]).len()
                == size,
    decreases bytes.len(),
{
    let all = pieces(bytes, size);
    if bytes.len() == 0 {
        assert(concat(all) =~= bytes);
    } else if bytes.len() <= size {
        assert(all.skip(1) =~= Seq::<Seq<u8>>::empty());
        assert(concat(all.skip(1)) =~= Seq::<u8>::empty());
        assert(concat(all) =~= bytes);
    } else {
        let rest = pieces(bytes.skip(size), size);
        law_chunks_keep_the_paste(bytes.skip(size), size);
        assert(all.skip(1) =~= rest);
        assert(bytes.take(size) + bytes.skip(size) =~= bytes);
        assert forall|i: int| 0 <= i < all.len() implies 0 < (#[trigger] all[i]).len() <= size && (
        i < all.len() - 1 ==> all[i].len() == size) by {
            if i > 0 {
                assert(all[i] == rest[i - 1]);
            }
        }
    }
}

} // verus!
