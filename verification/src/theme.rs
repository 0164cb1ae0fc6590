//! Themes: color notation, the theme schema with its fallbacks, and which theme
//! a configuration asks for.

use vstd::prelude::*;

use crate::config::{Config, ThemeChoice};
use crate::text;

verus! {

/// A color as the terminal is told.
#[derive(Debug, Clone, Copy, PartialEq, Eq, Structural)]
pub enum Color {
    /// The terminal's own default.
    Reset,
    Indexed(u8),
    Rgb(u8, u8, u8),
}

// ------------------------------------------------------------------ color notation

pub open spec fn hex_digit(c: char) -> Option<nat> {
    if text::ascii_digit(c) {
        Some(((c as int) - ('0' as int)) as nat)
    } else if 'a' <= c <= 'f' {
        Some(((c as int) - ('a' as int) + 10) as nat)
    } else if 'A' <= c <= 'F' {
        Some(((c as int) - ('A' as int) + 10) as nat)
    } else {
        None
    }
}

/// The value of hexadecimal digits; nothing where one is none or there is none.
pub open spec fn hex_value(s: Seq<char>) -> Option<nat>
    decreases s.len(),
{
    if s.len() == 0 {
        None
    } else if s.len() == 1 {
        hex_digit(s[0])
    } else {
        match (hex_value(s.drop_last()), hex_digit(s.last())) {
            (Some(high), Some(low)) => Some(high * 16 + low),
            _ => None,
        }
    }
}

/// A hexadecimal number: digits, with an optional `+` before them.
pub open spec fn hex_number(s: Seq<char>) -> Option<nat> {
    if s.len() > 0 && s[0] == '+' {
        hex_value(s.skip(1))
    } else {
        hex_value(s)
    }
}

/// The color that `#rrggbb` names, or what is wrong with a text that is none.
pub open spec fn hex_color(s: Seq<char>) -> Result<Color, Seq<char>> {
    let v = s.skip(1);
    if s.len() == 0 || s[0] != '#' {
        Err("color must begin with #"@)
    } else if vstd::utf8::encode_utf8(v).len() != 6 {
        Err("color must have six hex digits"@)
    } else if v.len() != 6 {
        Err("invalid hex color"@)
    } else {
        match (
            hex_number(v.subrange(0, 2)),
            hex_number(v.subrange(2, 4)),
            hex_number(v.subrange(4, 6)),
        ) {
            (Some(r), Some(g), Some(b)) => Ok(Color::Rgb(r as u8, g as u8, b as u8)),
            _ => Err("invalid hex color"@),
        }
    }
}

pub open spec fn color_result(r: Result<Color, String>) -> Result<Color, Seq<char>> {
    match r {
        Ok(color) => Ok(color),
        Err(message) => Err(message@),
    }
}

fn digit_value(c: char) -> (r: Option<u32>)
    ensures
        match hex_digit(c) {
            Some(n) => r == Some(n as u32) && n < 16,
            None => r is None,
        },
{
    if text::is_ascii_digit(c) {
        Some((c as u32) - 48)
    } else if 'a' <= c && c <= 'f' {
        Some((c as u32) - 87)
    } else if 'A' <= c && c <= 'F' {
        Some((c as u32) - 55)
    } else {
        None
    }
}

proof fn lemma_hex_value_none(s: Seq<char>, k: int)
    requires
        0 < k <= s.len(),
        hex_value(s.take(k)) is None,
    ensures
        hex_value(s) is None,
    decreases s.len() - k,
{
    if k < s.len() {
        assert(s.take(k + 1).drop_last() =~= s.take(k));
        lemma_hex_value_none(s, k + 1);
    } else {
        assert(s.take(k) =~= s);
    }
}

proof fn lemma_hex_value_grows(s: Seq<char>, k: int)
    requires
        0 < k <= s.len(),
        hex_value(s) is Some,
    ensures
        hex_value(s.take(k)) is Some,
        hex_value(s.take(k))->0 <= hex_value(s)->0,
    decreases s.len() - k,
{
    if hex_value(s.take(k)) is None {
        lemma_hex_value_none(s, k);
    }
    if k < s.len() {
        lemma_hex_value_grows(s, k + 1);
        assert(s.take(k + 1).drop_last() =~= s.take(k));
    } else {
        assert(s.take(k) =~= s);
    }
}

/// The hexadecimal number in `chars[from..to]`, where it is at most `limit`.
fn parse_hex(chars: &Vec<char>, from: usize, to: usize, limit: u32) -> (r: Option<u32>)
    requires
        from <= to <= chars@.len(),
        limit <= 65535,
    ensures
        match hex_number(chars@.subrange(from as int, to as int)) {
            Some(n) => if n <= limit {
                r == Some(n as u32)
            } else {
                r is None
            },
            None => r is None,
        },
{
    let ghost whole = chars@.subrange(from as int, to as int);
    let mut i: usize = from;
    if from < to && chars[from] == '+' {
        i = from + 1;
    }
    let start: usize = i;
    let ghost body = chars@.subrange(start as int, to as int);
    assert(start > from ==> whole.skip(1) =~= body);
    assert(start == from ==> whole =~= body);
    assert(whole.len() > 0 ==> whole[0] == chars@[from as int]);
    if i >= to {
        return None;
    }
    let mut value: u32 = 0;
    while i < to
        invariant
            start <= i <= to <= chars@.len(),
            start < to,
            limit <= 65535,
            body == chars@.subrange(start as int, to as int),
            hex_number(whole) == hex_value(body),
            whole == chars@.subrange(from as int, to as int),
            value <= limit,
            i == start ==> value == 0,
            i > start ==> hex_value(body.take(i - start)) == Some(value as nat),
        decreases to - i,
    {
        let ghost next = body.take(i - start + 1);
        assert(next.drop_last() =~= body.take(i - start));
        assert(next.last() == chars@[i as int]);
        assert(i == start ==> next.len() == 1);
        match digit_value(chars[i]) {
            None => {
                proof {
                    lemma_hex_value_none(body, i - start + 1);
                }
                return None;
            },
            Some(d) => {
                let grown: u32 = value * 16 + d;
                assert(hex_value(next) == Some(grown as nat));
                if grown > limit {
                    proof {
                        if hex_value(body) is Some {
                            lemma_hex_value_grows(body, i - start + 1);
                        }
                    }
                    return None;
                }
                value = grown;
            },
        }
        i += 1;
    }
    assert(body.take(i - start) =~= body);
    Some(value)
}

/// Two hexadecimal digits, or one after a sign, never exceed a byte.
proof fn lemma_pair(s: Seq<char>)
    requires
        s.len() == 2,
    ensures
        hex_number(s) matches Some(n) ==> n <= 255,
{
    reveal_with_fuel(hex_value, 2);
    assert(s.drop_last().len() == 1);
    assert(s.skip(1).len() == 1);
}

/// Parses a `#rrggbb` color.
pub fn parse_hex_color(value: &str) -> (r: Result<Color, String>)
    ensures
        color_result(r) == hex_color(value@),
{
    let all = text::chars_of(value);
    if all.len() == 0 || all[0] != '#' {
        return Err("color must begin with #".to_owned());
    }
    let rest = value.substring_char(1, all.len());
    assert(rest@ =~= value@.skip(1));
    if rest.as_bytes().len() != 6 {
        return Err("color must have six hex digits".to_owned());
    }
    let chars = text::chars_of(rest);
    if chars.len() != 6 {
        return Err("invalid hex color".to_owned());
    }
    proof {
        lemma_pair(chars@.subrange(0, 2));
        lemma_pair(chars@.subrange(2, 4));
        lemma_pair(chars@.subrange(4, 6));
    }
    match (parse_hex(&chars, 0, 2, 255), parse_hex(&chars, 2, 4, 255), parse_hex(&chars, 4, 6, 255)) {
        (Some(r), Some(g), Some(b)) => Ok(Color::Rgb(r as u8, g as u8, b as u8)),
        _ => Err("invalid hex color".to_owned()),
    }
}

/// A sixteen-bit channel as eight bits.
pub open spec fn scaled(n: nat) -> u8 {
    ((n * 255) / 65535) as u8
}

/// The channels of a terminal's reply: three hexadecimal numbers of up to
/// sixteen bits, with `/` between them.
pub open spec fn reply_color(s: Seq<char>) -> Option<(u8, u8, u8)> {
    let parts = text::split_on(s, '/');
    if parts.len() == 3 && channel(parts[0]) is Some && channel(parts[1]) is Some && channel(
        parts[2],
    ) is Some {
        Some(
            (
                scaled(channel(parts[0])->0),
                scaled(channel(parts[1])->0),
                scaled(channel(parts[2])->0),
            ),
        )
    } else {
        None
    }
}

pub open spec fn channel(s: Seq<char>) -> Option<nat> {
    match hex_number(s) {
        Some(n) => if n <= 65535 {
            Some(n)
        } else {
            None
        },
        None => None,
    }
}

fn parse_channel(part: &str) -> (r: Option<u8>)
    ensures
        match channel(part@) {
            Some(n) => r == Some(scaled(n)),
            None => r is None,
        },
{
    let chars = text::chars_of(part);
    assert(chars@.subrange(0, chars@.len() as int) =~= part@);
    match parse_hex(&chars, 0, chars.len(), 65535) {
        Some(n) => {
            assert((n * 255) / 65535 <= 255) by (nonlinear_arith)
                requires
                    n <= 65535,
            ;
            Some(((n * 255) / 65535) as u8)
        },
        None => None,
    }
}

/// Parses a terminal's color reply.
pub fn parse_rgb_color(value: &str) -> (r: Result<Color, String>)
    ensures
        match reply_color(value@) {
            Some((red, green, blue)) => r == Ok::<Color, String>(Color::Rgb(red, green, blue)),
            None => text::fault(r) == Some("invalid terminal color response"@),
        },
{
    let parts = text::split(value, '/');
    let ghost all = text::split_on(value@, '/');
    assert(parts@.len() == all.len());
    if parts.len() == 3 {
        assert(all[0] == parts@[0]@ && all[1] == parts@[1]@ && all[2] == parts@[2]@);
        if let Some(red) = parse_channel(parts[0].as_str()) {
            if let Some(green) = parse_channel(parts[1].as_str()) {
                if let Some(blue) = parse_channel(parts[2].as_str()) {
                    return Ok(Color::Rgb(red, green, blue));
                }
            }
        }
    }
    Err("invalid terminal color response".to_owned())
}

/// The text before the first ESC; all of it where there is none.
pub open spec fn before_escape(s: Seq<char>, from: int) -> Seq<char>
    decreases s.len() - from,
{
    if from < 0 || from >= s.len() {
        s
    } else if s[from] == '\x1b' {
        s.take(from)
    } else {
        before_escape(s, from + 1)
    }
}

/// Without BEL and backslash at the end.
pub open spec fn unterminated(s: Seq<char>) -> Seq<char>
    decreases s.len(),
{
    if s.len() > 0 && (s.last() == '\x07' || s.last() == '\\') {
        unterminated(s.drop_last())
    } else {
        s
    }
}

/// The color text in a terminal's answer to a background query.
pub fn background_reply(response: &str) -> (r: Option<String>)
    ensures
        text::option_text(r) == (if "\x1b]11;rgb:"@.is_prefix_of(response@) {
            Some(
                before_escape(unterminated(response@.skip("\x1b]11;rgb:"@.len() as int)), 0),
            )
        } else {
            None
        }),
{
    let rest = match text::strip_prefix(response, "\x1b]11;rgb:") {
        Some(rest) => rest,
        None => return None,
    };
    let chars = text::chars_of(rest);
    let mut end: usize = chars.len();
    assert(chars@.take(end as int) =~= chars@);
    while end > 0 && (chars[end - 1] == '\x07' || chars[end - 1] == '\\')
        invariant
            end <= chars@.len(),
            unterminated(chars@) == unterminated(chars@.take(end as int)),
        decreases end,
    {
        assert(chars@.take(end as int).last() == chars@[end - 1]);
        assert(chars@.take(end as int).drop_last() =~= chars@.take(end - 1));
        end -= 1;
    }
    let ghost kept = chars@.take(end as int);
    assert(unterminated(chars@) == kept) by {
        if end > 0 {
            assert(kept.last() == chars@[end - 1]);
        }
    }
    let mut i: usize = 0;
    while i < end && chars[i] != '\x1b'
        invariant
            i <= end <= chars@.len(),
            kept == chars@.take(end as int),
            before_escape(kept, 0) == before_escape(kept, i as int),
        decreases end - i,
    {
        assert(kept[i as int] == chars@[i as int]);
        i += 1;
    }
    assert(before_escape(kept, 0) =~= chars@.subrange(0, i as int)) by {
        if i < end {
            assert(kept[i as int] == chars@[i as int]);
            assert(kept.take(i as int) =~= chars@.subrange(0, i as int));
        } else {
            assert(kept =~= chars@.subrange(0, i as int));
        }
    }
    Some(text::text_of(chars.as_slice(), 0, i))
}

// ------------------------------------------------------------------- theme choice

/// Where a theme comes from.
#[derive(Debug, Clone, PartialEq, Eq)]
pub enum ThemeSource {
    /// One of the themes that come with the client.
    BuiltIn(&'static str),
    /// A theme of that name in the user's directory.
    User(String),
}

/// Whether a background is light: the sum of its channels is above half.
pub open spec fn is_light(background: Seq<char>) -> bool {
    match reply_color(background) {
        Some((red, green, blue)) => red + green + blue > 382,
        None => false,
    }
}

/// The built-in theme for a terminal background.
pub fn theme_for_background(background: &str) -> (r: &'static str)
    ensures
        r@ == (if is_light(background@) {
            "kodade-light"@
        } else {
            "kodade-dark"@
        }),
{
    match parse_rgb_color(background) {
        Ok(Color::Rgb(red, green, blue)) => if red as u16 + green as u16 + blue as u16 > 382 {
            "kodade-light"
        } else {
            "kodade-dark"
        },
        _ => "kodade-dark",
    }
}

pub open spec fn is_built_in(name: Seq<char>) -> bool {
    name == "kodade-dark"@ || name == "kodade-light"@ || name == "tokyo-night"@
}

/// One of the built-in theme names.
pub fn builtin_theme(name: &str) -> (r: Option<&'static str>)
    ensures
        r is Some == is_built_in(name@),
        r matches Some(found) ==> found@ == name@,
{
    if text::same(name, "kodade-dark") {
        Some("kodade-dark")
    } else if text::same(name, "kodade-light") {
        Some("kodade-light")
    } else if text::same(name, "tokyo-night") {
        Some("tokyo-night")
    } else {
        None
    }
}

impl Config {
    /// Only the automatic choice asks the terminal for its background.
    pub fn queries_background(&self) -> (r: bool)
        ensures
            r == (self.theme == ThemeChoice::Auto),
    {
        self.theme == ThemeChoice::Auto
    }

    /// Where the chosen theme comes from: its name, and whether it is built in.
    pub open spec fn draws_on(self, background: Option<String>, name: Seq<char>, own: bool) -> bool {
        match self.theme {
            ThemeChoice::Dark => own && name == "kodade-dark"@,
            ThemeChoice::Light => own && name == "kodade-light"@,
            ThemeChoice::Auto => own && name == (if background is Some && is_light(
                background->0@,
            ) {
                "kodade-light"@
            } else {
                "kodade-dark"@
            }),
            ThemeChoice::Named => match self.named_theme {
                Some(named) => name == named@ && own == is_built_in(named@),
                None => own && name == "kodade-dark"@,
            },
        }
    }

    /// The theme that the configuration asks for, given the terminal's answer
    /// about its background. Built-in names come before the user's directory.
    pub fn theme_source(&self, background: &Option<String>) -> (r: ThemeSource)
        ensures
            match r {
                ThemeSource::BuiltIn(name) => self.draws_on(*background, name@, true),
                ThemeSource::User(name) => self.draws_on(*background, name@, false),
            },
            match self.theme {
                ThemeChoice::Dark => r matches ThemeSource::BuiltIn(name) && name@
                    == "kodade-dark"@,
                ThemeChoice::Light => r matches ThemeSource::BuiltIn(name) && name@
                    == "kodade-light"@,
                ThemeChoice::Auto => r matches ThemeSource::BuiltIn(name) && name@ == (
                match background {
                    Some(answer) => if is_light(answer@) {
                        "kodade-light"@
                    } else {
                        "kodade-dark"@
                    },
                    None => "kodade-dark"@,
                }),
                ThemeChoice::Named => match self.named_theme {
                    None => r matches ThemeSource::BuiltIn(name) && name@ == "kodade-dark"@,
                    Some(named) => if is_built_in(named@) {
                        r matches ThemeSource::BuiltIn(name) && name@ == named@
                    } else {
                        r matches ThemeSource::User(name) && name@ == named@
                    },
                },
            },
    {
        match self.theme {
            ThemeChoice::Dark => ThemeSource::BuiltIn("kodade-dark"),
            ThemeChoice::Light => ThemeSource::BuiltIn("kodade-light"),
            ThemeChoice::Auto => match background {
                Some(answer) => ThemeSource::BuiltIn(theme_for_background(answer.as_str())),
                None => ThemeSource::BuiltIn("kodade-dark"),
            },
            ThemeChoice::Named => match &self.named_theme {
                Some(name) => match builtin_theme(name.as_str()) {
                    Some(found) => ThemeSource::BuiltIn(found),
                    None => ThemeSource::User(name.clone()),
                },
                None => ThemeSource::BuiltIn("kodade-dark"),
            },
        }
    }
}

// ------------------------------------------------------------------- theme schema

/// A theme as its file says it. The optional colors fall back to others.
#[derive(Debug, Clone, PartialEq, Eq)]
pub struct ThemeFile {
    pub name: String,
    pub accent: String,
    pub border: String,
    pub text: String,
    pub dim: String,
    pub blocked: String,
    pub working: String,
    pub done: String,
    pub idle: String,
    pub tabbar_bg: String,
    pub status_bg: String,
    pub bg: Option<String>,
    pub surface: Option<String>,
    pub selection: Option<String>,
    pub cursor: Option<String>,
    pub menu_bg: Option<String>,
    pub menu_fg: Option<String>,
    pub tab_active_fg: Option<String>,
    pub tab_active_bg: Option<String>,
    pub sidebar_bg: Option<String>,
    /// The palette, black to white, then the bright ones; empty where the file
    /// has no table.
    pub ansi: Vec<Option<String>>,
}

#[derive(Debug, Clone, PartialEq, Eq)]
pub struct Theme {
    pub name: String,
    pub accent: Color,
    pub border: Color,
    pub text: Color,
    pub dim: Color,
    pub blocked: Color,
    pub working: Color,
    pub done: Color,
    pub idle: Color,
    pub tabbar_bg: Color,
    pub status_bg: Color,
    pub bg: Color,
    pub surface: Color,
    pub selection: Color,
    pub cursor: Color,
    pub menu_bg: Color,
    pub menu_fg: Color,
    pub tab_active_fg: Color,
    pub tab_active_bg: Color,
    pub sidebar_bg: Color,
    /// Indexed palette: black to white, then the bright ones.
    pub ansi: Vec<Color>,
}

/// The standard palette, used for what a theme leaves out.
pub open spec fn xterm(i: int) -> Color {
    if i == 7 {
        Color::Rgb(0xc0, 0xc0, 0xc0)
    } else if i == 8 {
        Color::Rgb(0x80, 0x80, 0x80)
    } else {
        let level: u8 = if i < 8 {
            0x80
        } else {
            0xff
        };
        Color::Rgb(
            if i % 2 == 1 {
                level
            } else {
                0
            },
            if i / 2 % 2 == 1 {
                level
            } else {
                0
            },
            if i / 4 % 2 == 1 {
                level
            } else {
                0
            },
        )
    }
}

fn xterm_color(i: usize) -> (r: Color)
    ensures
        r == xterm(i as int),
{
    if i == 7 {
        Color::Rgb(0xc0, 0xc0, 0xc0)
    } else if i == 8 {
        Color::Rgb(0x80, 0x80, 0x80)
    } else {
        let level: u8 = if i < 8 {
            0x80
        } else {
            0xff
        };
        Color::Rgb(
            if i % 2 == 1 {
                level
            } else {
                0
            },
            if i / 2 % 2 == 1 {
                level
            } else {
                0
            },
            if i / 4 % 2 == 1 {
                level
            } else {
                0
            },
        )
    }
}

/// The color that a valid text names.
pub open spec fn color_of(s: Seq<char>) -> Color {
    match hex_color(s) {
        Ok(color) => color,
        Err(_) => Color::Reset,
    }
}

pub open spec fn color_or(value: Option<String>, fallback: Color) -> Color {
    match value {
        Some(s) => color_of(s@),
        None => fallback,
    }
}

/// The texts that are there, in order.
pub open spec fn present(values: Seq<Option<String>>) -> Seq<Seq<char>>
    decreases values.len(),
{
    if values.len() == 0 {
        Seq::empty()
    } else {
        match values.last() {
            Some(s) => present(values.drop_last()).push(s@),
            None => present(values.drop_last()),
        }
    }
}

/// The colors of a theme file in the order they are read.
pub open spec fn colors_read(raw: ThemeFile) -> Seq<Seq<char>> {
    seq![
        raw.accent@,
        raw.border@,
        raw.text@,
        raw.tabbar_bg@,
        raw.status_bg@,
        raw.dim@,
        raw.blocked@,
        raw.working@,
        raw.done@,
        raw.idle@,
    ] + present(
        seq![
            raw.bg,
            raw.surface,
            raw.selection,
            raw.cursor,
            raw.menu_bg,
            raw.menu_fg,
            raw.tab_active_fg,
            raw.tab_active_bg,
            raw.sidebar_bg,
        ],
    ) + present(raw.ansi@)
}

/// What is wrong with the first text that is no color.
pub open spec fn first_fault(colors: Seq<Seq<char>>) -> Option<Seq<char>>
    decreases colors.len(),
{
    if colors.len() == 0 {
        None
    } else {
        match hex_color(colors[0]) {
            Err(message) => Some(message),
            Ok(_) => first_fault(colors.skip(1)),
        }
    }
}

pub open spec fn optional_strs(v: Seq<&Option<String>>) -> Seq<Option<String>> {
    v.map_values(|s: &Option<String>| *s)
}

fn push_present<'a>(list: &mut Vec<&'a str>, value: &'a Option<String>)
    ensures
        text::strs(final(list)@) == (match value {
            Some(s) => text::strs(old(list)@).push(s@),
            None => text::strs(old(list)@),
        }),
{
    let ghost before = text::strs(list@);
    if let Some(s) = value {
        list.push(s.as_str());
        assert(text::strs(list@) =~= before.push(s@));
    }
}

fn all_colors(raw: &ThemeFile) -> (r: Vec<&str>)
    ensures
        text::strs(r@) == colors_read(*raw),
{
    let mut list: Vec<&str> = vec![
        raw.accent.as_str(),
        raw.border.as_str(),
        raw.text.as_str(),
        raw.tabbar_bg.as_str(),
        raw.status_bg.as_str(),
        raw.dim.as_str(),
        raw.blocked.as_str(),
        raw.working.as_str(),
        raw.done.as_str(),
        raw.idle.as_str(),
    ];
    let ghost head = seq![
        raw.accent@,
        raw.border@,
        raw.text@,
        raw.tabbar_bg@,
        raw.status_bg@,
        raw.dim@,
        raw.blocked@,
        raw.working@,
        raw.done@,
        raw.idle@,
    ];
    assert(text::strs(list@) =~= head);
    let ghost optional = seq![
        raw.bg,
        raw.surface,
        raw.selection,
        raw.cursor,
        raw.menu_bg,
        raw.menu_fg,
        raw.tab_active_fg,
        raw.tab_active_bg,
        raw.sidebar_bg,
    ];
    let refs: Vec<&Option<String>> = vec![
        &raw.bg,
        &raw.surface,
        &raw.selection,
        &raw.cursor,
        &raw.menu_bg,
        &raw.menu_fg,
        &raw.tab_active_fg,
        &raw.tab_active_bg,
        &raw.sidebar_bg,
    ];
    assert(optional_strs(refs@) =~= optional);
    let mut i: usize = 0;
    assert(optional.take(0) =~= Seq::empty());
    assert(head + present(optional.take(0)) =~= head);
    while i < refs.len()
        invariant
            optional_strs(refs@) == optional,
            i <= refs@.len(),
            text::strs(list@) == head + present(optional.take(i as int)),
        decreases refs@.len() - i,
    {
        assert(optional.take(i + 1).drop_last() =~= optional.take(i as int));
        assert(optional.take(i + 1).last() == *refs@[i as int]);
        let ghost before = text::strs(list@);
        push_present(&mut list, refs[i]);
        assert(text::strs(list@) =~= head + present(optional.take(i + 1)));
        i += 1;
    }
    assert(optional_strs(refs@).len() == optional.len());
    assert(optional.take(i as int) =~= optional);
    let ghost middle = head + present(optional);
    let mut k: usize = 0;
    assert(raw.ansi@.take(0) =~= Seq::empty());
    assert(middle + present(raw.ansi@.take(0)) =~= middle);
    while k < raw.ansi.len()
        invariant
            k <= raw.ansi@.len(),
            text::strs(list@) == middle + present(raw.ansi@.take(k as int)),
        decreases raw.ansi@.len() - k,
    {
        assert(raw.ansi@.take(k + 1).drop_last() =~= raw.ansi@.take(k as int));
        assert(raw.ansi@.take(k + 1).last() == raw.ansi@[k as int]);
        push_present(&mut list, &raw.ansi[k]);
        assert(text::strs(list@) =~= middle + present(raw.ansi@.take(k + 1)));
        k += 1;
    }
    assert(raw.ansi@.take(k as int) =~= raw.ansi@);
    list
}

fn read(value: &str) -> (r: Color)
    ensures
        r == color_of(value@),
{
    match parse_hex_color(value) {
        Ok(color) => color,
        Err(_) => Color::Reset,
    }
}

fn read_or(value: &Option<String>, fallback: Color) -> (r: Color)
    ensures
        r == color_or(*value, fallback),
{
    match value {
        Some(hex) => read(hex.as_str()),
        None => fallback,
    }
}

/// The palette of a theme: its own colors, the standard ones for the rest.
pub open spec fn palette(ansi: Seq<Option<String>>) -> Seq<Color> {
    Seq::new(
        16,
        |i: int|
            if i < ansi.len() {
                color_or(ansi[i], xterm(i))
            } else {
                xterm(i)
            },
    )
}

fn parse_ansi(ansi: &Vec<Option<String>>) -> (r: Vec<Color>)
    ensures
        r@ == palette(ansi@),
{
    let mut out: Vec<Color> = Vec::new();
    let mut i: usize = 0;
    while i < 16
        invariant
            i <= 16,
            out@ == palette(ansi@).take(i as int),
        decreases 16 - i,
    {
        let color = if i < ansi.len() {
            read_or(&ansi[i], xterm_color(i))
        } else {
            xterm_color(i)
        };
        out.push(color);
        assert(out@ =~= palette(ansi@).take(i + 1));
        i += 1;
    }
    assert(palette(ansi@).take(16) =~= palette(ansi@));
    out
}

impl Theme {
    /// The theme has the colors of a file, with the fallbacks for those it
    /// leaves out.
    pub open spec fn reads(self, raw: ThemeFile) -> bool {
        &&& self.name@ == raw.name@
        &&& self.accent == color_of(raw.accent@)
        &&& self.border == color_of(raw.border@)
        &&& self.text == color_of(raw.text@)
        &&& self.dim == color_of(raw.dim@)
        &&& self.blocked == color_of(raw.blocked@)
        &&& self.working == color_of(raw.working@)
        &&& self.done == color_of(raw.done@)
        &&& self.idle == color_of(raw.idle@)
        &&& self.tabbar_bg == color_of(raw.tabbar_bg@)
        &&& self.status_bg == color_of(raw.status_bg@)
        &&& self.bg == color_or(raw.bg, self.tabbar_bg)
        &&& self.surface == color_or(raw.surface, self.status_bg)
        &&& self.selection == color_or(raw.selection, self.border)
        &&& self.cursor == color_or(raw.cursor, self.accent)
        &&& self.menu_bg == color_or(raw.menu_bg, self.status_bg)
        &&& self.menu_fg == color_or(raw.menu_fg, self.text)
        &&& self.tab_active_fg == color_or(raw.tab_active_fg, self.accent)
        &&& self.tab_active_bg == color_or(raw.tab_active_bg, self.tabbar_bg)
        &&& self.sidebar_bg == color_or(raw.sidebar_bg, self.tabbar_bg)
        &&& self.ansi@ == palette(raw.ansi@)
    }

    /// Reads a theme file. The first text that is no color is reported.
    pub fn from_file(raw: &ThemeFile) -> (r: Result<Self, String>)
        ensures
            text::fault(r) == first_fault(colors_read(*raw)),
            r matches Ok(theme) ==> theme.reads(*raw),
    {
        let list = all_colors(raw);
        let ghost all = colors_read(*raw);
        assert(list@.len() == all.len());
        let mut i: usize = 0;
        assert(all.skip(0) =~= all);
        while i < list.len()
            invariant
                text::strs(list@) == all,
                list@.len() == all.len(),
                all == colors_read(*raw),
                i <= list@.len(),
                first_fault(all) == first_fault(all.skip(i as int)),
            decreases list@.len() - i,
        {
            assert(all.skip(i as int)[0] == list@[i as int]@);
            assert(all.skip(i as int).skip(1) =~= all.skip(i + 1));
            if let Err(message) = parse_hex_color(list[i]) {
                return Err(message);
            }
            i += 1;
        }
        let accent = read(raw.accent.as_str());
        let border = read(raw.border.as_str());
        let text = read(raw.text.as_str());
        let tabbar_bg = read(raw.tabbar_bg.as_str());
        let status_bg = read(raw.status_bg.as_str());
        Ok(
            Theme {
                name: raw.name.clone(),
                accent,
                border,
                text,
                dim: read(raw.dim.as_str()),
                blocked: read(raw.blocked.as_str()),
                working: read(raw.working.as_str()),
                done: read(raw.done.as_str()),
                idle: read(raw.idle.as_str()),
                tabbar_bg,
                status_bg,
                bg: read_or(&raw.bg, tabbar_bg),
                surface: read_or(&raw.surface, status_bg),
                selection: read_or(&raw.selection, border),
                cursor: read_or(&raw.cursor, accent),
                menu_bg: read_or(&raw.menu_bg, status_bg),
                menu_fg: read_or(&raw.menu_fg, text),
                tab_active_fg: read_or(&raw.tab_active_fg, accent),
                tab_active_bg: read_or(&raw.tab_active_bg, tabbar_bg),
                sidebar_bg: read_or(&raw.sidebar_bg, tabbar_bg),
                ansi: parse_ansi(&raw.ansi),
            },
        )
    }
}

} // verus!
