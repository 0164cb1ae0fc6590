//! Text primitives shared by the whole library.
//!
//! A text is modelled by its sequence of characters, `Seq<char>`. The functions
//! here compute on characters only; where Unicode tables are needed they come
//! from the standard library.

use vstd::prelude::*;

verus! {

/// `String::push` appends one character.
pub assume_specification[ String::push ](s: &mut String, c: char)
    ensures
        final(s)@ == old(s)@.push(c),
;

/// The characters with the Unicode `White_Space` property.
pub open spec fn white_space(c: char) -> bool {
    ||| '\u{9}' <= c <= '\u{d}'
    ||| c == ' '
    ||| c == '\u{85}'
    ||| c == '\u{a0}'
    ||| c == '\u{1680}'
    ||| '\u{2000}' <= c <= '\u{200a}'
    ||| c == '\u{2028}'
    ||| c == '\u{2029}'
    ||| c == '\u{202f}'
    ||| c == '\u{205f}'
    ||| c == '\u{3000}'
}

/// `char::is_whitespace` says whether a character has the `White_Space` property.
pub assume_specification[ char::is_whitespace ](c: char) -> (r: bool)
    ensures
        r == white_space(c),
;

/// Whether a character outside ASCII is alphabetic or numeric by the Unicode tables.
pub uninterp spec fn unicode_alphanumeric(c: char) -> bool;

/// Whether a character is alphabetic or numeric. In ASCII these are the letters and
/// the digits; the Unicode tables decide on the others.
pub open spec fn alphanumeric(c: char) -> bool {
    if ascii(c) {
        ascii_alnum(c)
    } else {
        unicode_alphanumeric(c)
    }
}

/// `char::is_alphanumeric` looks the character up in the Unicode tables, which in
/// ASCII hold the letters and the digits.
pub assume_specification[ char::is_alphanumeric ](c: char) -> (r: bool)
    ensures
        r == (if ascii(c) {
            ascii_alnum(c)
        } else {
            unicode_alphanumeric(c)
        }),
;

/// The lower case of a text that is not all ASCII, by the Unicode tables.
pub uninterp spec fn unicode_lowercase(s: Seq<char>) -> Seq<char>;

/// The lower case of a text. In ASCII each capital letter becomes a small one; the
/// Unicode tables decide on texts with other characters.
pub open spec fn lowercase(s: Seq<char>) -> Seq<char> {
    if all_ascii(s) {
        s.map_values(|c: char| ascii_lowercase(c))
    } else {
        unicode_lowercase(s)
    }
}

/// `str::to_lowercase` maps a text to its lower case by the Unicode tables, which in
/// ASCII map the capital letters alone.
pub assume_specification[ str::to_lowercase ](s: &str) -> (r: String)
    ensures
        r@ == (if all_ascii(s@) {
            s@.map_values(|c: char| ascii_lowercase(c))
        } else {
            unicode_lowercase(s@)
        }),
;

/// `String::pop` takes the last character off, where there is one.
pub assume_specification[ String::pop ](s: &mut String) -> (r: Option<char>)
    ensures
        old(s)@.len() == 0 ==> r is None && final(s)@ == old(s)@,
        old(s)@.len() > 0 ==> r == Some(old(s)@.last()) && final(s)@ == old(s)@.drop_last(),
;

/// The cells that a text takes up on a terminal.
pub uninterp spec fn width_of(s: Seq<char>) -> usize;

/// `ratatui::text::Span::width` of the text, which the `unicode-width` tables decide.
#[verifier::external_body]
pub(crate) fn width(s: &str) -> (r: usize)
    ensures
        r == width_of(s@),
{
    ratatui::text::Span::raw(s).width()
}

/// The cells that a character takes up as a text of its own.
pub open spec fn cells_of(c: char) -> usize {
    width_of(seq![c])
}

pub(crate) fn char_cells(c: char) -> (r: usize)
    ensures
        r == cells_of(c),
{
    let mut single = String::new();
    single.push(c);
    assert(single@ =~= seq![c]);
    width(single.as_str())
}

/// How the standard library's `Debug` writes a text: in quotes, with escapes.
pub uninterp spec fn quoted(s: Seq<char>) -> Seq<char>;

/// `format!` with `{:?}` writes the text by `<str as Debug>::fmt`.
#[verifier::external_body]
pub(crate) fn debug_text(s: &str) -> (r: String)
    ensures
        r@ == quoted(s@),
{
    format!("{s:?}")
}

/// The message of a failed result, or nothing where it succeeded.
pub open spec fn fault<T>(r: Result<T, String>) -> Option<Seq<char>> {
    match r {
        Ok(_) => None,
        Err(e) => Some(e@),
    }
}

// ---------------------------------------------------------------- characters

pub open spec fn ascii(c: char) -> bool {
    (c as u32) < 0x80
}

pub open spec fn all_ascii(s: Seq<char>) -> bool {
    forall|i: int| 0 <= i < s.len() ==> ascii(#[trigger] s[i])
}

pub open spec fn ascii_digit(c: char) -> bool {
    '0' <= c <= '9'
}

pub open spec fn ascii_lower(c: char) -> bool {
    'a' <= c <= 'z'
}

pub open spec fn ascii_upper(c: char) -> bool {
    'A' <= c <= 'Z'
}

pub open spec fn ascii_alnum(c: char) -> bool {
    ascii_digit(c) || ascii_lower(c) || ascii_upper(c)
}

/// A key that TOML writes without quotes.
pub open spec fn bare_key(s: Seq<char>) -> bool {
    s.len() > 0 && forall|i: int|
        0 <= i < s.len() ==> ascii_alnum(#[trigger] s[i]) || s[i] == '_' || s[i] == '-'
}

/// A control code: the C0 block, DEL and the C1 block.
pub open spec fn control(c: char) -> bool {
    (c as u32) < 0x20 || 0x7f <= (c as u32) < 0xa0
}

/// The character's ASCII lower case; other characters stay.
pub open spec fn ascii_lowercase(c: char) -> char {
    if ascii_upper(c) {
        ((c as u32) + 32) as char
    } else {
        c
    }
}

pub fn is_ascii_digit(c: char) -> (r: bool)
    ensures
        r == ascii_digit(c),
{
    '0' <= c && c <= '9'
}

pub fn is_ascii_lower(c: char) -> (r: bool)
    ensures
        r == ascii_lower(c),
{
    'a' <= c && c <= 'z'
}

pub fn is_ascii_upper(c: char) -> (r: bool)
    ensures
        r == ascii_upper(c),
{
    'A' <= c && c <= 'Z'
}

pub fn is_ascii_alnum(c: char) -> (r: bool)
    ensures
        r == ascii_alnum(c),
{
    is_ascii_digit(c) || is_ascii_lower(c) || is_ascii_upper(c)
}

pub fn is_control(c: char) -> (r: bool)
    ensures
        r == control(c),
{
    let code: u32 = c as u32;
    code < 0x20 || (0x7f <= code && code < 0xa0)
}

pub fn to_ascii_lower(c: char) -> (r: char)
    ensures
        r == ascii_lowercase(c),
{
    if is_ascii_upper(c) {
        let code: u8 = c as u8;
        (code + 32) as char
    } else {
        c
    }
}

// ------------------------------------------------------- texts and characters

/// The views of a list of texts.
pub open spec fn texts(v: Seq<String>) -> Seq<Seq<char>> {
    v.map_values(|s: String| s@)
}

/// The views of a list of text slices.
pub open spec fn strs(v: Seq<&str>) -> Seq<Seq<char>> {
    v.map_values(|s: &str| s@)
}

/// The characters of a text, one vector cell each.
pub fn chars_of(s: &str) -> (r: Vec<char>)
    ensures
        r@ == s@,
{
    let mut out: Vec<char> = Vec::new();
    for c in it: s.chars()
        invariant
            it.seq() == s@,
            out@ == s@.take(it.index() as int),
    {
        out.push(c);
    }
    out
}

/// The text made of `chars[from..to]`.
pub fn text_of(chars: &[char], from: usize, to: usize) -> (r: String)
    requires
        from <= to <= chars@.len(),
    ensures
        r@ == chars@.subrange(from as int, to as int),
{
    let mut out = String::new();
    let mut i: usize = from;
    while i < to
        invariant
            from <= i <= to <= chars@.len(),
            out@ == chars@.subrange(from as int, i as int),
        decreases to - i,
    {
        out.push(chars[i]);
        i += 1;
    }
    out
}

/// Whether two texts have the same characters.
pub fn same(a: &str, b: &str) -> (r: bool)
    ensures
        r == (a@ == b@),
{
    let x = chars_of(a);
    let y = chars_of(b);
    if x.len() != y.len() {
        return false;
    }
    let mut i: usize = 0;
    while i < x.len()
        invariant
            x@ == a@,
            y@ == b@,
            x@.len() == y@.len(),
            i <= x@.len(),
            forall|k: int| 0 <= k < i ==> x@[k] == y@[k],
        decreases x@.len() - i,
    {
        if x[i] != y[i] {
            assert(a@[i as int] != b@[i as int]);
            return false;
        }
        i += 1;
    }
    assert(x@ =~= y@);
    true
}

pub open spec fn option_text(v: Option<String>) -> Option<Seq<char>> {
    match v {
        Some(s) => Some(s@),
        None => None,
    }
}

// -------------------------------------------------------------------- blanks

/// A copy of a list of texts.
pub fn copied(list: &Vec<String>) -> (r: Vec<String>)
    ensures
        texts(r@) == texts(list@),
{
    let mut out: Vec<String> = Vec::new();
    let mut i: usize = 0;
    let ghost all = texts(list@);
    assert(texts(out@) =~= all.take(0));
    while i < list.len()
        invariant
            i <= list@.len(),
            all == texts(list@),
            texts(out@) == all.take(i as int),
        decreases list@.len() - i,
    {
        let ghost before = texts(out@);
        out.push(list[i].clone());
        assert(texts(out@) =~= before.push(all[i as int]));
        assert(all.take(i + 1) =~= all.take(i as int).push(all[i as int]));
        i += 1;
    }
    assert(all.take(i as int) =~= all);
    out
}

/// Only white space, or nothing.
pub open spec fn blank(s: Seq<char>) -> bool {
    forall|i: int| 0 <= i < s.len() ==> white_space(#[trigger] s[i])
}

pub open spec fn trim_start(s: Seq<char>) -> Seq<char>
    decreases s.len(),
{
    if s.len() > 0 && white_space(s[0]) {
        trim_start(s.skip(1))
    } else {
        s
    }
}

pub open spec fn trim_end(s: Seq<char>) -> Seq<char>
    decreases s.len(),
{
    if s.len() > 0 && white_space(s.last()) {
        trim_end(s.drop_last())
    } else {
        s
    }
}

/// The text without white space at either end.
pub open spec fn trim(s: Seq<char>) -> Seq<char> {
    trim_end(trim_start(s))
}

pub fn is_blank(s: &str) -> (r: bool)
    ensures
        r == blank(s@),
{
    let chars = chars_of(s);
    let mut i: usize = 0;
    while i < chars.len()
        invariant
            chars@ == s@,
            i <= chars@.len(),
            forall|k: int| 0 <= k < i ==> white_space(#[trigger] s@[k]),
        decreases chars@.len() - i,
    {
        if !chars[i].is_whitespace() {
            assert(!white_space(s@[i as int]));
            return false;
        }
        i += 1;
    }
    true
}

/// The text without white space at either end.
pub fn trimmed<'a>(s: &'a str) -> (r: &'a str)
    ensures
        r@ == trim(s@),
{
    let chars = chars_of(s);
    let mut i: usize = 0;
    assert(s@.skip(0) =~= s@);
    while i < chars.len() && chars[i].is_whitespace()
        invariant
            chars@ == s@,
            i <= chars@.len(),
            trim_start(s@) == trim_start(s@.skip(i as int)),
        decreases chars@.len() - i,
    {
        assert(s@.skip(i as int)[0] == s@[i as int]);
        assert(s@.skip(i as int).skip(1) =~= s@.skip(i + 1));
        i += 1;
    }
    assert(trim_start(s@) == s@.skip(i as int)) by {
        if i < chars@.len() {
            assert(s@.skip(i as int)[0] == s@[i as int]);
        }
    }
    let mut j: usize = chars.len();
    assert(s@.subrange(i as int, j as int) =~= s@.skip(i as int));
    while j > i && chars[j - 1].is_whitespace()
        invariant
            chars@ == s@,
            i <= j <= chars@.len(),
            trim(s@) == trim_end(s@.subrange(i as int, j as int)),
        decreases j,
    {
        assert(s@.subrange(i as int, j as int).last() == s@[j - 1]);
        assert(s@.subrange(i as int, j as int).drop_last() =~= s@.subrange(i as int, j - 1));
        j -= 1;
    }
    assert(trim(s@) == s@.subrange(i as int, j as int)) by {
        if j > i {
            assert(s@.subrange(i as int, j as int).last() == s@[j - 1]);
        }
    }
    s.substring_char(i, j)
}

// ------------------------------------------------------------------- numbers

/// A text without the white space at its end.
pub fn trimmed_end(s: &str) -> (r: String)
    ensures
        r@ == trim_end(s@),
{
    let chars = chars_of(s);
    let mut end: usize = chars.len();
    assert(s@.take(end as int) =~= s@);
    while end > 0 && chars[end - 1].is_whitespace()
        invariant
            chars@ == s@,
            end <= chars@.len(),
            trim_end(s@) == trim_end(s@.take(end as int)),
        decreases end,
    {
        assert(s@.take(end as int).drop_last() =~= s@.take(end - 1));
        assert(s@.take(end as int).last() == s@[end - 1]);
        end -= 1;
    }
    assert(end > 0 ==> s@.take(end as int).last() == s@[end - 1]);
    let out = text_of(chars.as_slice(), 0, end);
    assert(out@ =~= s@.take(end as int));
    out
}

/// The words of a text: what stands between white space.
pub open spec fn words_of(s: Seq<char>) -> Seq<Seq<char>>
    decreases s.len(),
{
    if s.len() == 0 {
        Seq::empty()
    } else {
        let before = words_of(s.drop_last());
        let c = s.last();
        if white_space(c) {
            before
        } else if s.len() > 1 && !white_space(s[s.len() - 2]) {
            before.drop_last().push(before.last().push(c))
        } else {
            before.push(seq![c])
        }
    }
}

/// The words of a text: what stands between white space.
pub fn words(s: &str) -> (r: Vec<String>)
    ensures
        texts(r@) == words_of(s@),
{
    let chars = chars_of(s);
    let mut out: Vec<String> = Vec::new();
    let mut word = String::new();
    let mut i: usize = 0;
    assert(word@ =~= Seq::<char>::empty());
    assert(s@.take(0) =~= Seq::empty());
    assert(texts(out@) =~= Seq::empty());
    while i < chars.len()
        invariant
            chars@ == s@,
            i <= chars@.len(),
            words_of(s@.take(i as int)) == (if word@.len() == 0 {
                texts(out@)
            } else {
                texts(out@).push(word@)
            }),
            word@.len() > 0 <==> i > 0 && !white_space(s@[i - 1]),
        decreases chars@.len() - i,
    {
        let ghost now = s@.take(i + 1);
        assert(now.drop_last() =~= s@.take(i as int));
        assert(now.last() == s@[i as int]);
        assert(i > 0 ==> now[now.len() - 2] == s@[i - 1]);
        let ghost held = word@;
        if chars[i].is_whitespace() {
            if i > 0 && !chars[i - 1].is_whitespace() {
                let ghost before = texts(out@);
                out.push(word);
                assert(texts(out@) =~= before.push(held));
                word = String::new();
            }
            assert(word@ =~= Seq::<char>::empty());
        } else {
            word.push(chars[i]);
            proof {
                if held.len() > 0 {
                    assert(texts(out@).push(held).drop_last() =~= texts(out@));
                } else {
                    assert(word@ =~= seq![s@[i as int]]);
                }
            }
        }
        i += 1;
    }
    assert(s@.take(i as int) =~= s@);
    if i > 0 && !chars[i - 1].is_whitespace() {
        let ghost before = texts(out@);
        let ghost held = word@;
        out.push(word);
        assert(texts(out@) =~= before.push(held));
    }
    out
}

/// The character of a decimal or hexadecimal digit.
pub open spec fn digit(d: nat) -> char {
    if d < 10 {
        (('0' as nat) + d) as char
    } else {
        (('a' as nat) + d - 10) as char
    }
}

/// A number in decimal, without leading zeros.
pub open spec fn decimal(n: nat) -> Seq<char>
    decreases n,
{
    if n < 10 {
        seq![digit(n)]
    } else {
        decimal(n / 10).push(digit(n % 10))
    }
}

/// A number in lower-case hexadecimal, without leading zeros.
pub open spec fn hexadecimal(n: nat) -> Seq<char>
    decreases n,
{
    if n < 16 {
        seq![digit(n)]
    } else {
        hexadecimal(n / 16).push(digit(n % 16))
    }
}

pub fn digit_char(d: u8) -> (r: char)
    requires
        d < 16,
    ensures
        r == digit(d as nat),
{
    if d < 10 {
        (48 + d) as char
    } else {
        (87 + d) as char
    }
}

pub fn decimal_text(n: u64) -> (r: String)
    ensures
        r@ == decimal(n as nat),
    decreases n,
{
    if n < 10 {
        let mut out = String::new();
        out.push(digit_char(n as u8));
        assert(out@ =~= seq![digit(n as nat)]);
        out
    } else {
        let mut out = decimal_text(n / 10);
        out.push(digit_char((n % 10) as u8));
        out
    }
}

pub fn hexadecimal_text(n: u128) -> (r: String)
    ensures
        r@ == hexadecimal(n as nat),
    decreases n,
{
    if n < 16 {
        let mut out = String::new();
        out.push(digit_char(n as u8));
        assert(out@ =~= seq![digit(n as nat)]);
        out
    } else {
        let mut out = hexadecimal_text(n / 16);
        out.push(digit_char((n % 16) as u8));
        out
    }
}

/// The value of a text of decimal digits.
pub open spec fn digits_value(s: Seq<char>) -> nat
    decreases s.len(),
{
    if s.len() == 0 {
        0
    } else {
        digits_value(s.drop_last()) * 10 + ((s.last() as nat) - ('0' as nat)) as nat
    }
}

pub open spec fn all_digits(s: Seq<char>) -> bool {
    forall|i: int| 0 <= i < s.len() ==> ascii_digit(#[trigger] s[i])
}

/// An unsigned decimal number: an optional `+`, then at least one digit, with a
/// value that fits in 64 bits.
pub open spec fn parse_unsigned(s: Seq<char>) -> Option<u64> {
    let body = if s.len() > 0 && s[0] == '+' {
        s.skip(1)
    } else {
        s
    };
    if body.len() > 0 && all_digits(body) && digits_value(body) <= u64::MAX {
        Some(digits_value(body) as u64)
    } else {
        None
    }
}

proof fn lemma_decimal_digits(n: nat)
    ensures
        all_digits(decimal(n)),
        digits_value(decimal(n)) == n,
        decimal(n).len() > 0,
    decreases n,
{
    if n < 10 {
        let s = decimal(n);
        assert(s.drop_last() =~= Seq::empty());
        assert(digits_value(s.drop_last()) == 0);
        assert(s.last() as nat == 48 + n);
    } else {
        lemma_decimal_digits(n / 10);
        let s = decimal(n);
        assert(s.drop_last() =~= decimal(n / 10));
        assert(s.last() as nat == 48 + n % 10);
        assert forall|i: int| 0 <= i < s.len() implies ascii_digit(#[trigger] s[i]) by {
            if i < s.len() - 1 {
                assert(s[i] == decimal(n / 10)[i]);
            }
        }
    }
}

pub proof fn lemma_decimal_ends(n: nat)
    ensures
        decimal(n).len() > 0,
        decimal(n).last() != '/',
{
    lemma_decimal_digits(n);
    assert(ascii_digit(decimal(n)[decimal(n).len() - 1]));
}

/// A number written in decimal is read back.
pub proof fn law_decimal_reads_back(n: u64)
    ensures
        parse_unsigned(decimal(n as nat)) == Some(n),
{
    lemma_decimal_digits(n as nat);
    assert(ascii_digit(decimal(n as nat)[0]));
}

/// Different numbers are written differently.
pub proof fn law_decimal_is_injective(a: nat, b: nat)
    requires
        decimal(a) == decimal(b),
    ensures
        a == b,
{
    lemma_decimal_digits(a);
    lemma_decimal_digits(b);
}

proof fn lemma_digits_value_grows(s: Seq<char>, k: int)
    requires
        0 <= k <= s.len(),
        all_digits(s),
    ensures
        digits_value(s.take(k)) <= digits_value(s),
    decreases s.len() - k,
{
    if k < s.len() {
        lemma_digits_value_grows(s, k + 1);
        assert(s.take(k + 1).drop_last() =~= s.take(k));
        assert(ascii_digit(s[k]));
    } else {
        assert(s.take(k) =~= s);
    }
}

pub fn parse_u64(s: &str) -> (r: Option<u64>)
    ensures
        r == parse_unsigned(s@),
{
    let chars = chars_of(s);
    let mut i: usize = 0;
    if chars.len() > 0 && chars[0] == '+' {
        i = 1;
    }
    let start: usize = i;
    let ghost body = s@.skip(start as int);
    assert(body =~= if s@.len() > 0 && s@[0] == '+' {
        s@.skip(1)
    } else {
        s@
    });
    if i >= chars.len() {
        return None;
    }
    let mut value: u64 = 0;
    while i < chars.len()
        invariant
            chars@ == s@,
            start <= i <= chars@.len(),
            body == s@.skip(start as int),
            body.len() > 0,
            parse_unsigned(s@) == (if body.len() > 0 && all_digits(body) && digits_value(body)
                <= u64::MAX {
                Some(digits_value(body) as u64)
            } else {
                None
            }),
            forall|k: int| 0 <= k < i - start ==> ascii_digit(#[trigger] body[k]),
            value == digits_value(body.take(i - start)),
        decreases chars@.len() - i,
    {
        let c = chars[i];
        assert(body[i - start] == c);
        if !is_ascii_digit(c) {
            return None;
        }
        let d: u64 = (c as u32 - 48) as u64;
        assert(body.take(i - start + 1).drop_last() =~= body.take(i - start));
        assert(digits_value(body.take(i - start + 1)) == value * 10 + d);
        if value > (u64::MAX - d) / 10 {
            proof {
                if all_digits(body) {
                    lemma_digits_value_grows(body, i - start + 1);
                }
            }
            return None;
        }
        value = value * 10 + d;
        i += 1;
    }
    assert(body.take(i - start) =~= body);
    Some(value)
}

// --------------------------------------------------------- splitting, joining

/// The pieces of a text between occurrences of `sep`; `n` separators make
/// `n + 1` pieces.
pub open spec fn split_on(s: Seq<char>, sep: char) -> Seq<Seq<char>>
    decreases s.len(),
{
    if s.len() == 0 {
        seq![Seq::<char>::empty()]
    } else {
        let before = split_on(s.drop_last(), sep);
        if s.last() == sep {
            before.push(Seq::<char>::empty())
        } else {
            before.drop_last().push(before.last().push(s.last()))
        }
    }
}

/// The pieces of `s` between occurrences of `sep`.
pub fn split(s: &str, sep: char) -> (r: Vec<String>)
    ensures
        texts(r@) == split_on(s@, sep),
        r@.len() > 0,
{
    let chars = chars_of(s);
    let mut done: Vec<String> = Vec::new();
    let mut current = String::new();
    let mut i: usize = 0;
    assert(s@.take(0) =~= Seq::<char>::empty());
    assert(texts(done@).push(current@) =~= seq![Seq::<char>::empty()]);
    while i < chars.len()
        invariant
            chars@ == s@,
            i <= chars@.len(),
            texts(done@).push(current@) == split_on(s@.take(i as int), sep),
        decreases chars@.len() - i,
    {
        let c = chars[i];
        let ghost before = split_on(s@.take(i as int), sep);
        assert(s@.take(i + 1).drop_last() =~= s@.take(i as int));
        assert(s@.take(i + 1).last() == c);
        if c == sep {
            let ghost done0 = done@;
            let ghost current0 = current@;
            done.push(current);
            current = String::new();
            assert(texts(done@) =~= texts(done0).push(current0));
        } else {
            let ghost current0 = current@;
            current.push(c);
            assert(before.drop_last() =~= texts(done@));
            assert(before.last() == current0);
        }
        i += 1;
    }
    assert(s@.take(i as int) =~= s@);
    let ghost done0 = done@;
    let ghost current0 = current@;
    done.push(current);
    assert(texts(done@) =~= texts(done0).push(current0));
    done
}

/// A line without the carriage return at its end.
pub open spec fn strip_return(s: Seq<char>) -> Seq<char> {
    if s.len() > 0 && s.last() == '\r' {
        s.drop_last()
    } else {
        s
    }
}

/// The lines of a text. A newline, or a carriage return and a newline, ends a
/// line; the last line needs no ending.
pub open spec fn line_texts(s: Seq<char>) -> Seq<Seq<char>> {
    let pieces = split_on(s, '\n');
    let ended = pieces.drop_last().map_values(|piece: Seq<char>| strip_return(piece));
    if pieces.last().len() == 0 {
        ended
    } else {
        ended.push(pieces.last())
    }
}

fn without_return(s: &str) -> (r: String)
    ensures
        r@ == strip_return(s@),
{
    let chars = chars_of(s);
    let mut end: usize = chars.len();
    if end > 0 && chars[end - 1] == '\r' {
        end = end - 1;
    }
    assert(s@.subrange(0, end as int) =~= strip_return(s@));
    text_of(chars.as_slice(), 0, end)
}

/// The lines of a text.
pub fn lines(s: &str) -> (r: Vec<String>)
    ensures
        texts(r@) == line_texts(s@),
{
    let pieces = split(s, '\n');
    let ghost all = split_on(s@, '\n');
    let ghost ended = all.drop_last().map_values(|piece: Seq<char>| strip_return(piece));
    let mut out: Vec<String> = Vec::new();
    let last: usize = pieces.len() - 1;
    let mut i: usize = 0;
    while i < last
        invariant
            texts(pieces@) == all,
            ended == all.drop_last().map_values(|piece: Seq<char>| strip_return(piece)),
            last == pieces@.len() - 1,
            i <= last,
            texts(out@) == ended.take(i as int),
        decreases last - i,
    {
        let line = without_return(pieces[i].as_str());
        let ghost before = texts(out@);
        let ghost text = line@;
        assert(all[i as int] == pieces@[i as int]@);
        out.push(line);
        assert(texts(out@) =~= before.push(text));
        assert(ended.take(i + 1) =~= ended.take(i as int).push(ended[i as int]));
        i += 1;
    }
    assert(ended.take(i as int) =~= ended);
    assert(all.last() == pieces@[last as int]@);
    if !pieces[last].as_str().is_empty() {
        let ghost before = texts(out@);
        out.push(pieces[last].clone());
        assert(texts(out@) =~= before.push(all.last()));
    }
    out
}

/// Texts in order with `sep` between neighbours.
pub open spec fn joined(parts: Seq<Seq<char>>, sep: Seq<char>) -> Seq<char>
    decreases parts.len(),
{
    if parts.len() == 0 {
        Seq::empty()
    } else if parts.len() == 1 {
        parts[0]
    } else {
        joined(parts.drop_last(), sep) + sep + parts.last()
    }
}

pub fn join(parts: &Vec<String>, sep: &str) -> (r: String)
    ensures
        r@ == joined(texts(parts@), sep@),
{
    let mut out = String::new();
    let mut i: usize = 0;
    while i < parts.len()
        invariant
            i <= parts@.len(),
            out@ == joined(texts(parts@.take(i as int)), sep@),
        decreases parts@.len() - i,
    {
        let ghost next = texts(parts@.take(i + 1));
        assert(next.drop_last() =~= texts(parts@.take(i as int)));
        assert(next.last() == parts@[i as int]@);
        if i > 0 {
            out.append(sep);
        }
        out.append(parts[i].as_str());
        assert(out@ =~= joined(next, sep@));
        i += 1;
    }
    assert(parts@.take(i as int) =~= parts@);
    out
}

// ------------------------------------------------------ prefixes and searching

pub fn starts_with(s: &str, prefix: &str) -> (r: bool)
    ensures
        r == prefix@.is_prefix_of(s@),
{
    let x = chars_of(s);
    let p = chars_of(prefix);
    if p.len() > x.len() {
        return false;
    }
    let mut i: usize = 0;
    while i < p.len()
        invariant
            x@ == s@,
            p@ == prefix@,
            p@.len() <= x@.len(),
            i <= p@.len(),
            forall|k: int| 0 <= k < i ==> x@[k] == p@[k],
        decreases p@.len() - i,
    {
        if x[i] != p[i] {
            assert(s@.subrange(0, prefix@.len() as int)[i as int] != prefix@[i as int]);
            return false;
        }
        i += 1;
    }
    assert(prefix@ =~= s@.subrange(0, prefix@.len() as int));
    true
}

pub fn ends_with(s: &str, suffix: &str) -> (r: bool)
    ensures
        r == suffix@.is_suffix_of(s@),
{
    let x = chars_of(s);
    let p = chars_of(suffix);
    if p.len() > x.len() {
        return false;
    }
    let base: usize = x.len() - p.len();
    let mut i: usize = 0;
    while i < p.len()
        invariant
            x@ == s@,
            p@ == suffix@,
            base + p.len() == x.len(),
            i <= p.len(),
            forall|k: int| 0 <= k < i ==> x@[base + k] == p@[k],
        decreases p@.len() - i,
    {
        if x[base + i] != p[i] {
            assert(s@.subrange(base as int, s@.len() as int)[i as int] != suffix@[i as int]);
            return false;
        }
        i += 1;
    }
    assert(suffix@ =~= s@.subrange(base as int, s@.len() as int));
    true
}

/// What follows `prefix`, when the text starts with it.
pub fn strip_prefix<'a>(s: &'a str, prefix: &str) -> (r: Option<&'a str>)
    ensures
        r is Some == prefix@.is_prefix_of(s@),
        r matches Some(rest) ==> rest@ == s@.skip(prefix@.len() as int),
{
    if starts_with(s, prefix) {
        let skip: usize = prefix.unicode_len();
        let total: usize = s.unicode_len();
        assert(s@.subrange(skip as int, total as int) =~= s@.skip(prefix@.len() as int));
        Some(s.substring_char(skip, total))
    } else {
        None
    }
}

pub fn contains_char(s: &str, c: char) -> (r: bool)
    ensures
        r == s@.contains(c),
{
    let x = chars_of(s);
    let mut i: usize = 0;
    while i < x.len()
        invariant
            x@ == s@,
            i <= x@.len(),
            forall|k: int| 0 <= k < i ==> x@[k] != c,
        decreases x@.len() - i,
    {
        if x[i] == c {
            assert(s@[i as int] == c);
            return true;
        }
        i += 1;
    }
    false
}

/// Whether `part` occurs in `s` at character `at`.
pub open spec fn occurs_at(s: Seq<char>, part: Seq<char>, at: int) -> bool {
    0 <= at && at + part.len() <= s.len() && s.subrange(at, at + part.len()) == part
}

/// Whether `part` occurs somewhere in `s`.
pub open spec fn has_part(s: Seq<char>, part: Seq<char>) -> bool {
    exists|at: int| #[trigger] occurs_at(s, part, at)
}

/// Whether `part` occurs in `s` at `at`.
pub fn part_at(s: &Vec<char>, part: &Vec<char>, at: usize) -> (r: bool)
    ensures
        r == occurs_at(s@, part@, at as int),
{
    if part.len() > s.len() || at > s.len() - part.len() {
        return false;
    }
    let mut i: usize = 0;
    while i < part.len()
        invariant
            at + part.len() <= s.len(),
            i <= part.len(),
            forall|k: int| 0 <= k < i ==> s@[at + k] == part@[k],
        decreases part@.len() - i,
    {
        if s[at + i] != part[i] {
            assert(s@.subrange(at as int, at + part@.len())[i as int] != part@[i as int]);
            return false;
        }
        i += 1;
    }
    assert(s@.subrange(at as int, at + part@.len()) =~= part@);
    true
}

/// Whether `part` occurs somewhere in `s`.
pub fn contains(s: &str, part: &str) -> (r: bool)
    ensures
        r == has_part(s@, part@),
{
    let x = chars_of(s);
    let p = chars_of(part);
    let mut i: usize = 0;
    while i < x.len()
        invariant
            x@ == s@,
            p@ == part@,
            i <= x@.len(),
            forall|k: int| 0 <= k < i ==> !#[trigger] occurs_at(s@, part@, k),
        decreases x@.len() - i,
    {
        if part_at(&x, &p, i) {
            return true;
        }
        i += 1;
    }
    part_at(&x, &p, i)
}

// ---------------------------------------------------------------------- paths

/// The components of a path that name something: empty ones and `.` do not.
pub open spec fn path_parts(path: Seq<char>) -> Seq<Seq<char>> {
    split_on(path, '/').filter(|part: Seq<char>| part.len() > 0 && part != "."@)
}

/// The components of a path.
pub fn parts_of(path: &str) -> (r: Vec<String>)
    ensures
        texts(r@) == path_parts(path@),
{
    let pieces = split(path, '/');
    let ghost all = split_on(path@, '/');
    let ghost keep = |part: Seq<char>| part.len() > 0 && part != "."@;
    let mut out: Vec<String> = Vec::new();
    let mut i: usize = 0;
    proof {
        reveal(Seq::filter);
        assert(all.take(0) =~= Seq::<Seq<char>>::empty());
        assert(texts(out@) =~= all.take(0).filter(keep));
    }
    while i < pieces.len()
        invariant
            texts(pieces@) == all,
            all == split_on(path@, '/'),
            keep == |part: Seq<char>| part.len() > 0 && part != "."@,
            i <= pieces@.len(),
            texts(out@) == all.take(i as int).filter(keep),
        decreases pieces@.len() - i,
    {
        let piece = pieces[i].as_str();
        assert(all[i as int] == piece@);
        proof {
            lemma_filter_last(all, i + 1, keep);
        }
        if !piece.is_empty() && !same(piece, ".") {
            let ghost before = texts(out@);
            out.push(piece.to_owned());
            assert(texts(out@) =~= before.push(piece@));
        }
        i += 1;
    }
    assert(all.take(i as int) =~= all);
    out
}

/// An absolute path.
pub open spec fn rooted(path: Seq<char>) -> bool {
    path.len() > 0 && path[0] == '/'
}

pub fn is_rooted(path: &str) -> (r: bool)
    ensures
        r == rooted(path@),
{
    path.unicode_len() > 0 && path.get_char(0) == '/'
}

/// The last component of a path, unless there is none or it leads back up.
pub open spec fn base_name(path: Seq<char>) -> Option<Seq<char>> {
    let parts = path_parts(path);
    if parts.len() == 0 || parts.last() == ".."@ {
        None
    } else {
        Some(parts.last())
    }
}

/// The last component of a path, unless there is none or it leads back up.
pub fn file_name(path: &str) -> (r: Option<String>)
    ensures
        option_text(r) == base_name(path@),
{
    let pieces = split(path, '/');
    let ghost all = split_on(path@, '/');
    let ghost keep = |part: Seq<char>| part.len() > 0 && part != "."@;
    let mut i: usize = pieces.len();
    assert(all.take(i as int) =~= all);
    while i > 0
        invariant
            texts(pieces@) == all,
            all == split_on(path@, '/'),
            keep == |part: Seq<char>| part.len() > 0 && part != "."@,
            i <= pieces@.len(),
            path_parts(path@) == all.take(i as int).filter(keep),
        decreases i,
    {
        let piece = pieces[i - 1].as_str();
        assert(all[i - 1] == piece@);
        proof {
            lemma_filter_last(all, i as int, keep);
        }
        if !piece.is_empty() && !same(piece, ".") {
            if same(piece, "..") {
                return None;
            }
            return Some(piece.to_owned());
        }
        i -= 1;
    }
    proof {
        reveal(Seq::filter);
        assert(all.take(0) =~= Seq::<Seq<char>>::empty());
    }
    None
}

/// Where the extension of a file name starts: the last dot that has something in
/// front of it.
pub open spec fn extension_dot(name: Seq<char>, end: int) -> Option<int>
    decreases end,
{
    if end <= 1 {
        None
    } else if name[end - 1] == '.' {
        Some(end - 1)
    } else {
        extension_dot(name, end - 1)
    }
}

/// A file name without its extension.
pub open spec fn stem_of(name: Seq<char>) -> Seq<char> {
    match extension_dot(name, name.len() as int) {
        Some(dot) => name.take(dot),
        None => name,
    }
}

/// The extension of a file name, where it has one.
pub open spec fn extension_of(name: Seq<char>) -> Option<Seq<char>> {
    match extension_dot(name, name.len() as int) {
        Some(dot) => Some(name.skip(dot + 1)),
        None => None,
    }
}

fn find_extension(chars: &Vec<char>) -> (r: Option<usize>)
    ensures
        r matches Some(dot) ==> extension_dot(chars@, chars@.len() as int) == Some(dot as int)
            && 0 < dot < chars.len(),
        r is None ==> extension_dot(chars@, chars@.len() as int) is None,
{
    let mut i: usize = chars.len();
    while i > 1
        invariant
            i <= chars@.len(),
            extension_dot(chars@, chars@.len() as int) == extension_dot(chars@, i as int),
        decreases i,
    {
        if chars[i - 1] == '.' {
            return Some(i - 1);
        }
        i -= 1;
    }
    None
}

/// A file name without its extension.
pub fn stem(name: &str) -> (r: String)
    ensures
        r@ == stem_of(name@),
{
    let chars = chars_of(name);
    match find_extension(&chars) {
        Some(dot) => {
            assert(name@.subrange(0, dot as int) =~= name@.take(dot as int));
            text_of(chars.as_slice(), 0, dot)
        },
        None => name.to_owned(),
    }
}

/// The extension of a file name, where it has one.
pub fn extension(name: &str) -> (r: Option<String>)
    ensures
        option_text(r) == extension_of(name@),
{
    let chars = chars_of(name);
    match find_extension(&chars) {
        Some(dot) => {
            assert(name@.subrange(dot + 1, name@.len() as int) =~= name@.skip(dot + 1));
            Some(text_of(chars.as_slice(), dot + 1, chars.len()))
        },
        None => None,
    }
}

proof fn lemma_filter_last(all: Seq<Seq<char>>, i: int, keep: spec_fn(Seq<char>) -> bool)
    requires
        0 < i <= all.len(),
    ensures
        keep(all[i - 1]) ==> all.take(i).filter(keep) == all.take(i - 1).filter(keep).push(
            all[i - 1],
        ),
        !keep(all[i - 1]) ==> all.take(i).filter(keep) == all.take(i - 1).filter(keep),
{
    reveal(Seq::filter);
    assert(all.take(i).drop_last() =~= all.take(i - 1));
    assert(all.take(i).last() == all[i - 1]);
}

// ------------------------------------------------------------------ rewriting

/// The text with each `from` replaced by the characters of `to`.
pub open spec fn replace_char(s: Seq<char>, from: char, to: Seq<char>) -> Seq<char>
    decreases s.len(),
{
    if s.len() == 0 {
        Seq::empty()
    } else {
        replace_char(s.drop_last(), from, to) + if s.last() == from {
            to
        } else {
            seq![s.last()]
        }
    }
}

/// Replacing begins with the first character.
pub proof fn lemma_replace_first(s: Seq<char>, from: char, to: Seq<char>)
    requires
        s.len() > 0,
    ensures
        replace_char(s, from, to) == (if s[0] == from {
            to
        } else {
            seq![s[0]]
        }) + replace_char(s.skip(1), from, to),
    decreases s.len(),
{
    let head = if s[0] == from {
        to
    } else {
        seq![s[0]]
    };
    if s.len() == 1 {
        assert(s.drop_last() =~= Seq::empty());
        assert(s.skip(1) =~= Seq::empty());
        assert(replace_char(s, from, to) =~= head + replace_char(s.skip(1), from, to));
    } else {
        lemma_replace_first(s.drop_last(), from, to);
        assert(s.drop_last().skip(1) =~= s.skip(1).drop_last());
        assert(replace_char(s, from, to) =~= head + replace_char(s.skip(1), from, to));
    }
}

pub fn replaced(s: &str, from: char, to: &str) -> (r: String)
    ensures
        r@ == replace_char(s@, from, to@),
{
    let x = chars_of(s);
    let mut out = String::new();
    let mut i: usize = 0;
    while i < x.len()
        invariant
            x@ == s@,
            i <= x@.len(),
            out@ == replace_char(s@.take(i as int), from, to@),
        decreases x@.len() - i,
    {
        assert(s@.take(i + 1).drop_last() =~= s@.take(i as int));
        assert(s@.take(i + 1).last() == x@[i as int]);
        let ghost before = out@;
        if x[i] == from {
            out.append(to);
        } else {
            out.push(x[i]);
            assert(out@ =~= before + seq![x@[i as int]]);
        }
        i += 1;
    }
    assert(s@.take(i as int) =~= s@);
    out
}

/// A text followed by another.
pub fn cat(a: &str, b: &str) -> (r: String)
    ensures
        r@ == a@ + b@,
{
    let mut out = a.to_owned();
    out.append(b);
    out
}

/// Three texts in a row.
pub fn cat3(a: &str, b: &str, c: &str) -> (r: String)
    ensures
        r@ == a@ + b@ + c@,
{
    let mut out = a.to_owned();
    out.append(b);
    out.append(c);
    out
}

// ------------------------------------------------------------- order and division

/// Where `c` stands first in `s`.
pub open spec fn first_of(s: Seq<char>, c: char) -> Option<int>
    decreases s.len(),
{
    if s.len() == 0 {
        None
    } else if s[0] == c {
        Some(0)
    } else {
        match first_of(s.skip(1), c) {
            Some(i) => Some(i + 1),
            None => None,
        }
    }
}

/// The text before and after the first `c`.
pub open spec fn cut_at(s: Seq<char>, c: char) -> Option<(Seq<char>, Seq<char>)> {
    match first_of(s, c) {
        Some(i) => Some((s.take(i), s.skip(i + 1))),
        None => None,
    }
}

pub open spec fn pair_text(v: Option<(String, String)>) -> Option<(Seq<char>, Seq<char>)> {
    match v {
        Some((a, b)) => Some((a@, b@)),
        None => None,
    }
}

/// Divides a text at the first `c`.
pub fn split_once(s: &str, c: char) -> (r: Option<(String, String)>)
    ensures
        pair_text(r) == cut_at(s@, c),
{
    let chars = chars_of(s);
    let mut i: usize = 0;
    assert(chars@.skip(0) =~= chars@);
    while i < chars.len()
        invariant
            i <= chars@.len(),
            chars@ == s@,
            first_of(s@, c) == (match first_of(s@.skip(i as int), c) {
                Some(k) => Some(k + i),
                None => None::<int>,
            }),
        decreases chars@.len() - i,
    {
        assert(s@.skip(i as int)[0] == s@[i as int]);
        assert(s@.skip(i as int).skip(1) =~= s@.skip(i + 1));
        if chars[i] == c {
            let before = text_of(chars.as_slice(), 0, i);
            let after = text_of(chars.as_slice(), i + 1, chars.len());
            assert(before@ =~= s@.take(i as int));
            assert(after@ =~= s@.skip(i + 1));
            return Some((before, after));
        }
        i += 1;
    }
    None
}

/// The order of texts: by the first character in which they differ; a text comes
/// before those it begins.
pub open spec fn precedes(a: Seq<char>, b: Seq<char>) -> bool
    decreases a.len(),
{
    if b.len() == 0 {
        false
    } else if a.len() == 0 {
        true
    } else if a[0] == b[0] {
        precedes(a.skip(1), b.skip(1))
    } else {
        a[0] < b[0]
    }
}

pub proof fn lemma_precedes_irreflexive(a: Seq<char>)
    ensures
        !precedes(a, a),
    decreases a.len(),
{
    if a.len() > 0 {
        lemma_precedes_irreflexive(a.skip(1));
    }
}

pub proof fn lemma_precedes_transitive(a: Seq<char>, b: Seq<char>, c: Seq<char>)
    requires
        precedes(a, b),
        precedes(b, c),
    ensures
        precedes(a, c),
    decreases a.len(),
{
    if a.len() > 0 && a[0] == b[0] && b[0] == c[0] {
        lemma_precedes_transitive(a.skip(1), b.skip(1), c.skip(1));
    }
}

pub proof fn lemma_precedes_total(a: Seq<char>, b: Seq<char>)
    ensures
        precedes(a, b) || precedes(b, a) || a == b,
    decreases a.len(),
{
    if a.len() > 0 && b.len() > 0 && a[0] == b[0] {
        lemma_precedes_total(a.skip(1), b.skip(1));
        if a.skip(1) == b.skip(1) {
            assert(a =~= seq![a[0]] + a.skip(1));
            assert(b =~= seq![b[0]] + b.skip(1));
        }
    } else if a.len() == 0 && b.len() == 0 {
        assert(a =~= b);
    }
}

/// Whether `a` comes before `b`.
pub fn comes_before(a: &str, b: &str) -> (r: bool)
    ensures
        r == precedes(a@, b@),
{
    let x = chars_of(a);
    let y = chars_of(b);
    let mut i: usize = 0;
    assert(a@.skip(0) =~= a@);
    assert(b@.skip(0) =~= b@);
    while i < x.len() && i < y.len()
        invariant
            x@ == a@,
            y@ == b@,
            i <= x@.len(),
            i <= y@.len(),
            precedes(a@, b@) == precedes(a@.skip(i as int), b@.skip(i as int)),
        decreases x@.len() - i,
    {
        assert(a@.skip(i as int)[0] == x@[i as int]);
        assert(b@.skip(i as int)[0] == y@[i as int]);
        assert(a@.skip(i as int).skip(1) =~= a@.skip(i + 1));
        assert(b@.skip(i as int).skip(1) =~= b@.skip(i + 1));
        if x[i] != y[i] {
            return x[i] < y[i];
        }
        i += 1;
    }
    i < y.len()
}

/// `n` times a character.
pub open spec fn repeated(c: char, n: int) -> Seq<char> {
    Seq::new(
        if n > 0 {
            n as nat
        } else {
            0
        },
        |i: int| c,
    )
}

/// A text filled up with spaces to a width.
pub open spec fn padded_to(s: Seq<char>, width: int) -> Seq<char> {
    s + repeated(' ', width - s.len())
}

/// Fills a text up with spaces to a width; longer ones stay as they are.
pub fn padded(s: &str, width: usize) -> (r: String)
    ensures
        r@ == padded_to(s@, width as int),
{
    let mut out = s.to_owned();
    let mut n: usize = s.unicode_len();
    assert(out@ =~= s@ + repeated(' ', 0));
    while n < width
        invariant
            n >= s@.len(),
            s@.len() < width ==> n <= width,
            out@ == s@ + repeated(' ', n - s@.len()),
            s@.len() >= width ==> n == s@.len(),
        decreases width - n,
    {
        out.push(' ');
        assert(repeated(' ', n + 1 - s@.len()) =~= repeated(' ', n - s@.len()).push(' '));
        assert(out@ =~= s@ + repeated(' ', n + 1 - s@.len()));
        n += 1;
    }
    assert(out@ =~= padded_to(s@, width as int));
    out
}

/// A name below a directory; an absolute name stands for itself.
pub open spec fn path_join(dir: Seq<char>, name: Seq<char>) -> Seq<char> {
    if name.len() > 0 && name[0] == '/' {
        name
    } else if dir.len() == 0 || dir.last() == '/' {
        dir + name
    } else {
        dir + "/"@ + name
    }
}

/// Joins a name to a directory.
pub fn join_path(dir: &str, name: &str) -> (r: String)
    ensures
        r@ == path_join(dir@, name@),
{
    if name.unicode_len() > 0 && name.get_char(0) == '/' {
        return name.to_owned();
    }
    let n: usize = dir.unicode_len();
    if n == 0 || dir.get_char(n - 1) == '/' {
        cat(dir, name)
    } else {
        cat3(dir, "/", name)
    }
}

/// A path that begins at the current directory by name.
pub open spec fn dotted(path: Seq<char>) -> bool {
    path == "."@ || "./"@.is_prefix_of(path)
}

/// The two texts name one path, component by component.
pub open spec fn one_path(a: Seq<char>, b: Seq<char>) -> bool {
    rooted(a) == rooted(b) && dotted(a) == dotted(b) && path_parts(a) == path_parts(b)
}

fn is_dotted(path: &str) -> (r: bool)
    ensures
        r == dotted(path@),
{
    same(path, ".") || starts_with(path, "./")
}

/// Whether two lists hold the same texts.
pub fn same_list(a: &Vec<String>, b: &Vec<String>) -> (r: bool)
    ensures
        r == (texts(a@) == texts(b@)),
{
    if a.len() != b.len() {
        assert(texts(a@).len() != texts(b@).len());
        return false;
    }
    let mut i: usize = 0;
    while i < a.len()
        invariant
            a@.len() == b@.len(),
            i <= a@.len(),
            forall|k: int| 0 <= k < i ==> texts(a@)[k] == texts(b@)[k],
        decreases a@.len() - i,
    {
        if !same(a[i].as_str(), b[i].as_str()) {
            assert(texts(a@)[i as int] != texts(b@)[i as int]);
            return false;
        }
        i += 1;
    }
    assert(texts(a@) =~= texts(b@));
    true
}

/// Whether two texts name one path.
pub fn same_path(a: &str, b: &str) -> (r: bool)
    ensures
        r == one_path(a@, b@),
{
    is_rooted(a) == is_rooted(b) && is_dotted(a) == is_dotted(b) && same_list(
        &parts_of(a),
        &parts_of(b),
    )
}

/// A signed number in decimal.
pub open spec fn signed(n: int) -> Seq<char> {
    if n < 0 {
        "-"@ + decimal((-n) as nat)
    } else {
        decimal(n as nat)
    }
}

pub fn signed_text(n: i32) -> (r: String)
    ensures
        r@ == signed(n as int),
{
    if n < 0 {
        let size: i64 = -(n as i64);
        cat("-", decimal_text(size as u64).as_str())
    } else {
        decimal_text(n as u64)
    }
}

/// Calls `String::from_utf8`: bytes that are UTF-8 become the text they encode,
/// and no others do.
#[verifier::external_body]
pub(crate) fn utf8_text(bytes: &[u8]) -> (r: Option<String>)
    ensures
        match r {
            Some(s) => vstd::utf8::valid_utf8(bytes@) && vstd::utf8::encode_utf8(s@) == bytes@,
            None => !vstd::utf8::valid_utf8(bytes@),
        },
{
    String::from_utf8(bytes.to_vec()).ok()
}

} // verus!
