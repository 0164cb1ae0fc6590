//! One key-name table shared by the key handler and `pane send-keys`.
//!
//! The names follow tmux (`Enter`, `Escape`, `C-c`, `M-x`, `F5`), and both call
//! sites emit the same bytes for the same key.

use vstd::prelude::*;

use crate::event::KeyCode;
use crate::text;

verus! {

/// Named keys and the bytes a terminal sends for them. Aliases share a value.
pub open spec fn named_bytes(name: Seq<char>) -> Option<Seq<u8>> {
    if name == "Enter"@ {
        Some(seq![13u8])
    } else if name == "Return"@ {
        Some(seq![13u8])
    } else if name == "C-m"@ {
        Some(seq![13u8])
    } else if name == "Tab"@ {
        Some(seq![9u8])
    } else if name == "BTab"@ {
        Some(seq![27u8, 91u8, 90u8])
    } else if name == "Space"@ {
        Some(seq![32u8])
    } else if name == "Escape"@ {
        Some(seq![27u8])
    } else if name == "Esc"@ {
        Some(seq![27u8])
    } else if name == "BSpace"@ {
        Some(seq![127u8])
    } else if name == "BackSpace"@ {
        Some(seq![127u8])
    } else if name == "Up"@ {
        Some(seq![27u8, 91u8, 65u8])
    } else if name == "Down"@ {
        Some(seq![27u8, 91u8, 66u8])
    } else if name == "Right"@ {
        Some(seq![27u8, 91u8, 67u8])
    } else if name == "Left"@ {
        Some(seq![27u8, 91u8, 68u8])
    } else if name == "Home"@ {
        Some(seq![27u8, 91u8, 72u8])
    } else if name == "End"@ {
        Some(seq![27u8, 91u8, 70u8])
    } else if name == "PageUp"@ {
        Some(seq![27u8, 91u8, 53u8, 126u8])
    } else if name == "PgUp"@ {
        Some(seq![27u8, 91u8, 53u8, 126u8])
    } else if name == "PageDown"@ {
        Some(seq![27u8, 91u8, 54u8, 126u8])
    } else if name == "PgDn"@ {
        Some(seq![27u8, 91u8, 54u8, 126u8])
    } else if name == "Insert"@ {
        Some(seq![27u8, 91u8, 50u8, 126u8])
    } else if name == "IC"@ {
        Some(seq![27u8, 91u8, 50u8, 126u8])
    } else if name == "Delete"@ {
        Some(seq![27u8, 91u8, 51u8, 126u8])
    } else if name == "DC"@ {
        Some(seq![27u8, 91u8, 51u8, 126u8])
    } else if name == "F1"@ {
        Some(seq![27u8, 79u8, 80u8])
    } else if name == "F2"@ {
        Some(seq![27u8, 79u8, 81u8])
    } else if name == "F3"@ {
        Some(seq![27u8, 79u8, 82u8])
    } else if name == "F4"@ {
        Some(seq![27u8, 79u8, 83u8])
    } else if name == "F5"@ {
        Some(seq![27u8, 91u8, 49u8, 53u8, 126u8])
    } else if name == "F6"@ {
        Some(seq![27u8, 91u8, 49u8, 55u8, 126u8])
    } else if name == "F7"@ {
        Some(seq![27u8, 91u8, 49u8, 56u8, 126u8])
    } else if name == "F8"@ {
        Some(seq![27u8, 91u8, 49u8, 57u8, 126u8])
    } else if name == "F9"@ {
        Some(seq![27u8, 91u8, 50u8, 48u8, 126u8])
    } else if name == "F10"@ {
        Some(seq![27u8, 91u8, 50u8, 49u8, 126u8])
    } else if name == "F11"@ {
        Some(seq![27u8, 91u8, 50u8, 51u8, 126u8])
    } else if name == "F12"@ {
        Some(seq![27u8, 91u8, 50u8, 52u8, 126u8])
    } else {
        None
    }
}

pub open spec fn option_bytes(v: Option<Vec<u8>>) -> Option<Seq<u8>> {
    match v {
        Some(b) => Some(b@),
        None => None,
    }
}

/// Bytes for a named key, or `None` when the name is unknown.
pub fn named(name: &str) -> (r: Option<Vec<u8>>)
    ensures
        option_bytes(r) == named_bytes(name@),
{
    if text::same(name, "Enter") {
        return Some(vec![13u8]);
    }
    if text::same(name, "Return") {
        return Some(vec![13u8]);
    }
    if text::same(name, "C-m") {
        return Some(vec![13u8]);
    }
    if text::same(name, "Tab") {
        return Some(vec![9u8]);
    }
    if text::same(name, "BTab") {
        return Some(vec![27u8, 91u8, 90u8]);
    }
    if text::same(name, "Space") {
        return Some(vec![32u8]);
    }
    if text::same(name, "Escape") {
        return Some(vec![27u8]);
    }
    if text::same(name, "Esc") {
        return Some(vec![27u8]);
    }
    if text::same(name, "BSpace") {
        return Some(vec![127u8]);
    }
    if text::same(name, "BackSpace") {
        return Some(vec![127u8]);
    }
    if text::same(name, "Up") {
        return Some(vec![27u8, 91u8, 65u8]);
    }
    if text::same(name, "Down") {
        return Some(vec![27u8, 91u8, 66u8]);
    }
    if text::same(name, "Right") {
        return Some(vec![27u8, 91u8, 67u8]);
    }
    if text::same(name, "Left") {
        return Some(vec![27u8, 91u8, 68u8]);
    }
    if text::same(name, "Home") {
        return Some(vec![27u8, 91u8, 72u8]);
    }
    if text::same(name, "End") {
        return Some(vec![27u8, 91u8, 70u8]);
    }
    if text::same(name, "PageUp") {
        return Some(vec![27u8, 91u8, 53u8, 126u8]);
    }
    if text::same(name, "PgUp") {
        return Some(vec![27u8, 91u8, 53u8, 126u8]);
    }
    if text::same(name, "PageDown") {
        return Some(vec![27u8, 91u8, 54u8, 126u8]);
    }
    if text::same(name, "PgDn") {
        return Some(vec![27u8, 91u8, 54u8, 126u8]);
    }
    if text::same(name, "Insert") {
        return Some(vec![27u8, 91u8, 50u8, 126u8]);
    }
    if text::same(name, "IC") {
        return Some(vec![27u8, 91u8, 50u8, 126u8]);
    }
    if text::same(name, "Delete") {
        return Some(vec![27u8, 91u8, 51u8, 126u8]);
    }
    if text::same(name, "DC") {
        return Some(vec![27u8, 91u8, 51u8, 126u8]);
    }
    if text::same(name, "F1") {
        return Some(vec![27u8, 79u8, 80u8]);
    }
    if text::same(name, "F2") {
        return Some(vec![27u8, 79u8, 81u8]);
    }
    if text::same(name, "F3") {
        return Some(vec![27u8, 79u8, 82u8]);
    }
    if text::same(name, "F4") {
        return Some(vec![27u8, 79u8, 83u8]);
    }
    if text::same(name, "F5") {
        return Some(vec![27u8, 91u8, 49u8, 53u8, 126u8]);
    }
    if text::same(name, "F6") {
        return Some(vec![27u8, 91u8, 49u8, 55u8, 126u8]);
    }
    if text::same(name, "F7") {
        return Some(vec![27u8, 91u8, 49u8, 56u8, 126u8]);
    }
    if text::same(name, "F8") {
        return Some(vec![27u8, 91u8, 49u8, 57u8, 126u8]);
    }
    if text::same(name, "F9") {
        return Some(vec![27u8, 91u8, 50u8, 48u8, 126u8]);
    }
    if text::same(name, "F10") {
        return Some(vec![27u8, 91u8, 50u8, 49u8, 126u8]);
    }
    if text::same(name, "F11") {
        return Some(vec![27u8, 91u8, 50u8, 51u8, 126u8]);
    }
    if text::same(name, "F12") {
        return Some(vec![27u8, 91u8, 50u8, 52u8, 126u8]);
    }
    None
}

/// The table name of a key code that is not a plain character.
pub open spec fn code_name(code: KeyCode) -> Option<Seq<char>> {
    match code {
        KeyCode::Enter => Some("Enter"@),
        KeyCode::Backspace => Some("BSpace"@),
        KeyCode::Tab => Some("Tab"@),
        KeyCode::BackTab => Some("BTab"@),
        KeyCode::Esc => Some("Escape"@),
        KeyCode::Up => Some("Up"@),
        KeyCode::Down => Some("Down"@),
        KeyCode::Right => Some("Right"@),
        KeyCode::Left => Some("Left"@),
        KeyCode::Home => Some("Home"@),
        KeyCode::End => Some("End"@),
        KeyCode::PageUp => Some("PageUp"@),
        KeyCode::PageDown => Some("PageDown"@),
        KeyCode::Insert => Some("Insert"@),
        KeyCode::Delete => Some("Delete"@),
        KeyCode::F(n) => if 1 <= n <= 12 {
            Some("F"@ + text::decimal(n as nat))
        } else {
            None
        },
        _ => None,
    }
}

/// Bytes for a key code that is not a plain character.
pub open spec fn code_bytes(code: KeyCode) -> Option<Seq<u8>> {
    match code_name(code) {
        Some(name) => named_bytes(name),
        None => None,
    }
}

/// Bytes for a key code that is not a plain character.
pub fn from_code(code: KeyCode) -> (r: Option<Vec<u8>>)
    ensures
        option_bytes(r) == code_bytes(code),
{
    let name = match code {
        KeyCode::Enter => "Enter",
        KeyCode::Backspace => "BSpace",
        KeyCode::Tab => "Tab",
        KeyCode::BackTab => "BTab",
        KeyCode::Esc => "Escape",
        KeyCode::Up => "Up",
        KeyCode::Down => "Down",
        KeyCode::Right => "Right",
        KeyCode::Left => "Left",
        KeyCode::Home => "Home",
        KeyCode::End => "End",
        KeyCode::PageUp => "PageUp",
        KeyCode::PageDown => "PageDown",
        KeyCode::Insert => "Insert",
        KeyCode::Delete => "Delete",
        KeyCode::F(n) => {
            if n < 1 || n > 12 {
                return None;
            }
            let numbered = text::cat("F", text::decimal_text(n as u64).as_str());
            return named(numbered.as_str());
        },
        _ => return None,
    };
    named(name)
}

/// The control code of a chord character: `@` to `_`, letters in either case.
pub open spec fn control_code(c: char) -> Option<u8> {
    if text::ascii_lower(c) {
        Some(((c as int) - 96) as u8)
    } else if '@' <= c <= '_' {
        Some(((c as int) - 64) as u8)
    } else {
        None
    }
}

/// A single capitalized word: the shape of the names in the table.
pub open spec fn key_name_shape(s: Seq<char>) -> bool {
    &&& s.len() > 1
    &&& text::ascii_upper(s[0])
    &&& forall|i: int| 1 <= i < s.len() ==> text::ascii_alnum(#[trigger] s[i])
}

/// What one argument types, or the message for one that is no key.
pub open spec fn key_input(token: Seq<char>) -> Result<Seq<u8>, Seq<char>>
    decreases token.len(),
{
    if named_bytes(token) is Some {
        Ok(named_bytes(token)->0)
    } else if token.len() >= 2 && token[0] == 'M' && token[1] == '-' {
        match key_input(token.skip(2)) {
            Ok(bytes) => Ok(seq![0x1bu8] + bytes),
            Err(message) => Err(message),
        }
    } else if token.len() >= 2 && token[0] == 'C' && token[1] == '-' {
        if token.len() == 3 && control_code(token[2]) is Some {
            Ok(seq![control_code(token[2])->0])
        } else {
            Err("unknown key '"@ + token + "' (control chords are one character: C-c)"@)
        }
    } else if key_name_shape(token) {
        Err("unknown key '"@ + token + "' (use --literal to send it as text)"@)
    } else {
        Ok(vstd::utf8::encode_utf8(token))
    }
}

pub open spec fn bytes_result(r: Result<Vec<u8>, String>) -> Result<Seq<u8>, Seq<char>> {
    match r {
        Ok(bytes) => Ok(bytes@),
        Err(message) => Err(message@),
    }
}

fn chord_code(c: char) -> (r: Option<u8>)
    ensures
        r == control_code(c),
{
    if text::is_ascii_lower(c) {
        Some((c as u8) - 96)
    } else if '@' <= c && c <= '_' {
        Some((c as u8) - 64)
    } else {
        None
    }
}

/// Whether a token looks like a key name. Text with spaces or a lower-case
/// start is literal input.
pub fn looks_like_key_name(token: &str) -> (r: bool)
    ensures
        r == key_name_shape(token@),
{
    let chars = text::chars_of(token);
    if chars.len() <= 1 || !text::is_ascii_upper(chars[0]) {
        return false;
    }
    let mut i: usize = 1;
    while i < chars.len()
        invariant
            chars@ == token@,
            1 <= i <= chars@.len(),
            forall|k: int| 1 <= k < i ==> text::ascii_alnum(#[trigger] token@[k]),
        decreases chars@.len() - i,
    {
        if !text::is_ascii_alnum(chars[i]) {
            assert(!text::ascii_alnum(token@[i as int]));
            return false;
        }
        i += 1;
    }
    true
}

/// Bytes for one argument: a key name, a `C-x` or `M-x` chord, or literal text.
/// A token that looks like a key name but is not one is an error rather than
/// silently typed.
pub fn parse(token: &str) -> (r: Result<Vec<u8>, String>)
    ensures
        bytes_result(r) == key_input(token@),
    decreases token@.len(),
{
    if let Some(bytes) = named(token) {
        return Ok(bytes);
    }
    let chars = text::chars_of(token);
    if chars.len() >= 2 && chars[0] == 'M' && chars[1] == '-' {
        // Escape then the key, so it composes with the rest of the table.
        let rest = token.substring_char(2, chars.len());
        assert(rest@ =~= token@.skip(2));
        return match parse(rest) {
            Ok(tail) => {
                let mut bytes: Vec<u8> = vec![0x1bu8];
                let mut tail = tail;
                let ghost rest_bytes = tail@;
                bytes.append(&mut tail);
                assert(bytes@ =~= seq![0x1bu8] + rest_bytes);
                Ok(bytes)
            },
            Err(message) => Err(message),
        };
    }
    if chars.len() >= 2 && chars[0] == 'C' && chars[1] == '-' {
        if chars.len() == 3 {
            if let Some(code) = chord_code(chars[2]) {
                let bytes: Vec<u8> = vec![code];
                assert(bytes@ =~= seq![code]);
                return Ok(bytes);
            }
        }
        return Err(
            text::cat3(
                "unknown key '",
                token,
                "' (control chords are one character: C-c)",
            ),
        );
    }
    if looks_like_key_name(token) {
        return Err(
            text::cat3("unknown key '", token, "' (use --literal to send it as text)"),
        );
    }
    Ok(token.as_bytes_vec())
}

/// What all arguments type, in order, or the message of the first that is no
/// key.
pub open spec fn keys_input(tokens: Seq<Seq<char>>) -> Result<Seq<u8>, Seq<char>>
    decreases tokens.len(),
{
    if tokens.len() == 0 {
        Ok(Seq::empty())
    } else {
        match keys_input(tokens.drop_last()) {
            Err(message) => Err(message),
            Ok(bytes) => match key_input(tokens.last()) {
                Err(message) => Err(message),
                Ok(more) => Ok(bytes + more),
            },
        }
    }
}

proof fn lemma_keys_error(tokens: Seq<Seq<char>>, k: int)
    requires
        0 <= k <= tokens.len(),
        keys_input(tokens.take(k)) is Err,
    ensures
        keys_input(tokens) == keys_input(tokens.take(k)),
    decreases tokens.len() - k,
{
    if k < tokens.len() {
        assert(tokens.take(k + 1).drop_last() =~= tokens.take(k));
        lemma_keys_error(tokens, k + 1);
    } else {
        assert(tokens.take(k) =~= tokens);
    }
}

/// Every argument in order, concatenated into one write.
pub fn parse_all(tokens: &[String]) -> (r: Result<Vec<u8>, String>)
    ensures
        bytes_result(r) == keys_input(text::texts(tokens@)),
{
    let mut bytes: Vec<u8> = Vec::new();
    let mut i: usize = 0;
    let ghost all = text::texts(tokens@);
    assert(all.take(0) =~= Seq::<Seq<char>>::empty());
    while i < tokens.len()
        invariant
            all == text::texts(tokens@),
            i <= tokens@.len(),
            keys_input(all.take(i as int)) == Ok::<Seq<u8>, Seq<char>>(bytes@),
        decreases tokens@.len() - i,
    {
        assert(all.take(i + 1).drop_last() =~= all.take(i as int));
        assert(all.take(i + 1).last() == tokens@[i as int]@);
        match parse(tokens[i].as_str()) {
            Ok(more) => {
                let mut more = more;
                let ghost before = bytes@;
                let ghost tail = more@;
                bytes.append(&mut more);
                assert(bytes@ =~= before + tail);
            },
            Err(message) => {
                proof {
                    lemma_keys_error(all, i + 1);
                }
                return Err(message);
            },
        }
        i += 1;
    }
    assert(all.take(i as int) =~= all);
    Ok(bytes)
}

/// Every argument as it is, joined by spaces like the shell wrote it.
pub fn literal(tokens: &Vec<String>) -> (r: Vec<u8>)
    ensures
        r@ == vstd::utf8::encode_utf8(text::joined(text::texts(tokens@), " "@)),
{
    text::join(tokens, " ").as_str().as_bytes_vec()
}

/// A key code and its table name type the same bytes.
pub proof fn law_codes_and_names_agree(code: KeyCode)
    requires
        code_bytes(code) is Some,
    ensures
        key_input(code_name(code)->0) == Ok::<Seq<u8>, Seq<char>>(code_bytes(code)->0),
{
}

/// `M-` before a key types Escape and then that key.
pub proof fn law_meta_is_escape_then_key(key: Seq<char>)
    requires
        key_input(key) is Ok,
    ensures
        key_input("M-"@ + key) == Ok::<Seq<u8>, Seq<char>>(seq![0x1bu8] + key_input(key)->Ok_0),
{
    reveal_strlit("M-");
    let token = "M-"@ + key;
    assert(token.skip(2) =~= key);
    assert(token[0] == 'M' && token[1] == '-');
    lemma_table_names(token);
}

/// No name in the table starts with `M-`.
proof fn lemma_table_names(token: Seq<char>)
    requires
        token.len() >= 2,
        token[0] == 'M',
    ensures
        named_bytes(token) is None,
{
    reveal_strlit("Enter");
    reveal_strlit("Return");
    reveal_strlit("C-m");
    reveal_strlit("Tab");
    reveal_strlit("BTab");
    reveal_strlit("Space");
    reveal_strlit("Escape");
    reveal_strlit("Esc");
    reveal_strlit("BSpace");
    reveal_strlit("BackSpace");
    reveal_strlit("Up");
    reveal_strlit("Down");
    reveal_strlit("Right");
    reveal_strlit("Left");
    reveal_strlit("Home");
    reveal_strlit("End");
    reveal_strlit("PageUp");
    reveal_strlit("PgUp");
    reveal_strlit("PageDown");
    reveal_strlit("PgDn");
    reveal_strlit("Insert");
    reveal_strlit("IC");
    reveal_strlit("Delete");
    reveal_strlit("DC");
    reveal_strlit("F1");
    reveal_strlit("F2");
    reveal_strlit("F3");
    reveal_strlit("F4");
    reveal_strlit("F5");
    reveal_strlit("F6");
    reveal_strlit("F7");
    reveal_strlit("F8");
    reveal_strlit("F9");
    reveal_strlit("F10");
    reveal_strlit("F11");
    reveal_strlit("F12");
}

} // verus!
