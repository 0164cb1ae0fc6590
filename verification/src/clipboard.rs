//! Bounded clipboard writes of the attached client.

use vstd::prelude::*;

use crate::mode;
use crate::text;

verus! {

/// Milliseconds a native clipboard program may take.
pub const CLIPBOARD_TIMEOUT_MILLIS: u64 = 2000;

/// Where the client runs.
#[derive(Debug, Clone, Copy, PartialEq, Eq, Structural)]
pub enum Platform {
    MacOs,
    Windows,
    Wayland,
    X11,
}

/// The platform of this client.
pub fn platform(macos: bool, windows: bool, wayland: bool) -> (r: Platform)
    ensures
        r == (if macos {
            Platform::MacOs
        } else if windows {
            Platform::Windows
        } else if wayland {
            Platform::Wayland
        } else {
            Platform::X11
        }),
{
    if macos {
        Platform::MacOs
    } else if windows {
        Platform::Windows
    } else if wayland {
        Platform::Wayland
    } else {
        Platform::X11
    }
}

/// A native clipboard is used only where the client is local to it.
pub fn use_native(remote: bool, ssh_connection: bool, ssh_tty: bool) -> (r: bool)
    ensures
        r == (!remote && !ssh_connection && !ssh_tty),
{
    !remote && !ssh_connection && !ssh_tty
}

/// The bytes of a text that fit a clipboard, up to the end of a character.
pub open spec fn kept_bytes(s: Seq<char>) -> Seq<u8> {
    mode::limited(vstd::utf8::encode_utf8(s), mode::OSC52_LIMIT as int)
}

/// The part of a text that fits a clipboard, and whether something was left out.
pub fn limit(s: &str) -> (r: (&str, bool))
    ensures
        vstd::utf8::encode_utf8(r.0@) == kept_bytes(s@),
        r.1 == (vstd::utf8::encode_utf8(s@).len() > mode::OSC52_LIMIT),
{
    mode::limit(s)
}

/// The program that takes text for the clipboard, and its arguments.
pub open spec fn copy_words(platform: Platform) -> Seq<Seq<char>> {
    match platform {
        Platform::MacOs => seq!["pbcopy"@],
        Platform::Windows => seq!["clip.exe"@],
        Platform::Wayland => seq!["wl-copy"@, "--type"@, "text/plain;charset=utf-8"@],
        Platform::X11 => seq!["xclip"@, "-selection"@, "clipboard"@, "-in"@],
    }
}

pub fn command(platform: Platform) -> (r: Vec<&'static str>)
    ensures
        text::strs(r@) == copy_words(platform),
{
    let words: Vec<&'static str> = match platform {
        Platform::MacOs => vec!["pbcopy"],
        Platform::Windows => vec!["clip.exe"],
        Platform::Wayland => vec!["wl-copy", "--type", "text/plain;charset=utf-8"],
        Platform::X11 => vec!["xclip", "-selection", "clipboard", "-in"],
    };
    assert(text::strs(words@) =~= copy_words(platform));
    words
}

/// The program that prints an image from the clipboard, and its arguments.
pub open spec fn image_words(platform: Platform) -> Seq<Seq<char>> {
    match platform {
        Platform::MacOs => seq!["pngpaste"@, "-"@],
        Platform::Wayland => seq!["wl-paste"@, "--type"@, "image/png"@, "--no-newline"@],
        _ => seq!["xclip"@, "-selection"@, "clipboard"@, "-t"@, "image/png"@, "-o"@],
    }
}

pub fn image_command(platform: Platform) -> (r: Vec<&'static str>)
    ensures
        text::strs(r@) == image_words(platform),
{
    let words: Vec<&'static str> = match platform {
        Platform::MacOs => vec!["pngpaste", "-"],
        Platform::Wayland => vec!["wl-paste", "--type", "image/png", "--no-newline"],
        _ => vec!["xclip", "-selection", "clipboard", "-t", "image/png", "-o"],
    };
    assert(text::strs(words@) =~= image_words(platform));
    words
}

/// The UTF-16 code units of a character, each with its low byte first.
pub open spec fn utf16_bytes(c: char) -> Seq<u8> {
    let n = c as nat;
    if n < 0x10000 {
        unit_bytes(n)
    } else {
        unit_bytes(0xd800 + (n - 0x10000) as nat / 0x400) + unit_bytes(
            0xdc00 + (n - 0x10000) as nat % 0x400,
        )
    }
}

pub open spec fn unit_bytes(unit: nat) -> Seq<u8> {
    seq![(unit % 256) as u8, (unit / 256) as u8]
}

pub open spec fn utf16_text(s: Seq<char>) -> Seq<u8>
    decreases s.len(),
{
    if s.len() == 0 {
        Seq::empty()
    } else {
        utf16_text(s.drop_last()) + utf16_bytes(s.last())
    }
}

fn code_point(c: char) -> (r: u32)
    ensures
        r == c as nat,
        r <= 0x10ffff,
{
    proof {
        vstd::utf8::char_is_scalar(c);
    }
    c as u32
}

fn push_unit(out: &mut Vec<u8>, unit: u32)
    requires
        unit < 0x10000,
    ensures
        final(out)@ == old(out)@ + unit_bytes(unit as nat),
{
    out.push((unit % 256) as u8);
    out.push((unit / 256) as u8);
    assert(out@ =~= old(out)@ + unit_bytes(unit as nat));
}

/// The bytes that a native clipboard program reads. The one on Windows is told
/// their encoding by a mark at the start.
pub fn native_payload(s: &str, windows: bool) -> (r: Vec<u8>)
    ensures
        r@ == (if windows {
            seq![0xffu8, 0xfeu8] + utf16_text(s@)
        } else {
            vstd::utf8::encode_utf8(s@)
        }),
{
    if !windows {
        return s.as_bytes_vec();
    }
    let chars = text::chars_of(s);
    let mut out: Vec<u8> = vec![0xff, 0xfe];
    let ghost mark = seq![0xffu8, 0xfeu8];
    let mut i: usize = 0;
    assert(chars@.take(0) =~= Seq::empty());
    assert(out@ =~= mark + utf16_text(chars@.take(0)));
    while i < chars.len()
        invariant
            i <= chars@.len(),
            out@ == mark + utf16_text(chars@.take(i as int)),
        decreases chars@.len() - i,
    {
        assert(chars@.take(i + 1).drop_last() =~= chars@.take(i as int));
        assert(chars@.take(i + 1).last() == chars@[i as int]);
        let n: u32 = code_point(chars[i]);
        if n < 0x10000 {
            push_unit(&mut out, n);
        } else {
            let rest: u32 = n - 0x10000;
            push_unit(&mut out, 0xd800 + rest / 0x400);
            push_unit(&mut out, 0xdc00 + rest % 0x400);
        }
        assert(out@ =~= mark + utf16_text(chars@.take(i + 1)));
        i += 1;
    }
    assert(chars@.take(i as int) =~= chars@);
    assert(chars@ == s@);
    out
}

/// How a text reaches the clipboard.
#[derive(Debug, Clone, PartialEq, Eq)]
pub enum CopyPlan {
    /// Through a native program; should that fail, through the terminal.
    Native { bytes: Vec<u8>, fallback: String },
    /// Through the terminal.
    Terminal(String),
}

/// How a text is copied: held to the limit, natively where the clipboard is on
/// this host, else by an escape sequence.
pub fn copy(s: &str, native: bool, windows: bool) -> (r: CopyPlan)
    ensures
        ({
            let kept = kept_bytes(s@);
            let sequence = "\x1b]52;c;"@ + mode::base64_text(
                mode::limited(kept, mode::OSC52_LIMIT as int),
            ) + "\x07"@;
            match r {
                CopyPlan::Native { bytes, fallback } => native && fallback@ == sequence && (!windows
                    ==> bytes@ == kept) && (windows ==> exists|part: Seq<char>|
                    #[trigger] vstd::utf8::encode_utf8(part) == kept && bytes@ == seq![
                        0xffu8,
                        0xfeu8,
                    ] + utf16_text(part)),
                CopyPlan::Terminal(line) => !native && line@ == sequence,
            }
        }),
{
    let (part, _) = limit(s);
    let (sequence, _) = mode::osc52(part);
    if native {
        CopyPlan::Native { bytes: native_payload(part, windows), fallback: sequence }
    } else {
        CopyPlan::Terminal(sequence)
    }
}

/// The UTF-16 code units of a character.
pub open spec fn utf16_of(c: char) -> Seq<u16> {
    let n = c as nat;
    if n < 0x10000 {
        seq![n as u16]
    } else {
        seq![
            (0xd800 + (n - 0x10000) as nat / 0x400) as u16,
            (0xdc00 + (n - 0x10000) as nat % 0x400) as u16,
        ]
    }
}

pub open spec fn utf16_units(s: Seq<char>) -> Seq<u16>
    decreases s.len(),
{
    if s.len() == 0 {
        Seq::empty()
    } else {
        utf16_units(s.drop_last()) + utf16_of(s.last())
    }
}

/// The text as the clipboard of Windows holds it: UTF-16 code units up to a zero.
/// A text that holds a zero itself has no such form.
pub fn windows_text(s: &str) -> (r: Result<Vec<u16>, String>)
    ensures
        s@.contains('\0') ==> text::fault(r) == Some("clipboard text contains a null character"@),
        !s@.contains('\0') ==> (r matches Ok(units) && units@ == utf16_units(s@).push(0)),
{
    if text::contains_char(s, '\0') {
        return Err("clipboard text contains a null character".to_owned());
    }
    let chars = text::chars_of(s);
    let mut units: Vec<u16> = Vec::new();
    let mut i: usize = 0;
    assert(chars@.take(0) =~= Seq::empty());
    while i < chars.len()
        invariant
            i <= chars@.len(),
            units@ == utf16_units(chars@.take(i as int)),
        decreases chars@.len() - i,
    {
        assert(chars@.take(i + 1).drop_last() =~= chars@.take(i as int));
        assert(chars@.take(i + 1).last() == chars@[i as int]);
        let n: u32 = code_point(chars[i]);
        if n < 0x10000 {
            units.push(n as u16);
        } else {
            let rest: u32 = n - 0x10000;
            units.push((0xd800 + rest / 0x400) as u16);
            units.push((0xdc00 + rest % 0x400) as u16);
        }
        assert(units@ =~= utf16_units(chars@.take(i + 1)));
        i += 1;
    }
    assert(chars@.take(i as int) =~= chars@);
    assert(chars@ == s@);
    units.push(0);
    Ok(units)
}

} // verus!
