//! Colors as they are written, and boxes of rows over the screen.

use vstd::prelude::*;

use crate::event::{KeyCode, KeyEvent};
use crate::geometry::Rect;
use crate::overlay::{self, OverlayEvent, OverlayStep};
use crate::text;
use crate::theme::{self, Color, Theme, ThemeFile};

verus! {

// ------------------------------------------------------------------------------- colors

/// The hexadecimal digits, small and large.
pub open spec fn digit(n: int, large: bool) -> char {
    if n < 10 {
        (48 + n) as char
    } else if large {
        (55 + n) as char
    } else {
        (87 + n) as char
    }
}

/// Each digit has its value, small or large, and nothing else is one.
pub proof fn law_hexadecimal_digits(c: char, n: int, large: bool)
    ensures
        0 <= n < 16 ==> theme::hex_digit(digit(n, large)) == Some(n as nat),
        theme::hex_digit(c) matches Some(value) ==> value < 16 && (c == digit(value as int, false)
            || c == digit(value as int, true)),
{
}

/// A color is read from its three channels, red first, each of two digits, the higher
/// first.
pub proof fn law_colors_are_read(red: u8, green: u8, blue: u8, large: bool)
    ensures
        theme::hex_color(
            seq![
                '#',
                digit(red as int / 16, large),
                digit(red as int % 16, large),
                digit(green as int / 16, large),
                digit(green as int % 16, large),
                digit(blue as int / 16, large),
                digit(blue as int % 16, large),
            ],
        ) == Ok::<Color, Seq<char>>(Color::Rgb(red, green, blue)),
{
    let s = seq![
        '#',
        digit(red as int / 16, large),
        digit(red as int % 16, large),
        digit(green as int / 16, large),
        digit(green as int % 16, large),
        digit(blue as int / 16, large),
        digit(blue as int % 16, large),
    ];
    let v = s.skip(1);
    lemma_pair(red, large);
    lemma_pair(green, large);
    lemma_pair(blue, large);
    assert(v.subrange(0, 2) =~= seq![digit(red as int / 16, large), digit(red as int % 16, large)]);
    assert(v.subrange(2, 4) =~= seq![digit(green as int / 16, large), digit(green as int % 16, large)]);
    assert(v.subrange(4, 6) =~= seq![digit(blue as int / 16, large), digit(blue as int % 16, large)]);
    lemma_plain_length(v);
}

proof fn lemma_pair(n: u8, large: bool)
    ensures
        theme::hex_number(seq![digit(n as int / 16, large), digit(n as int % 16, large)]) == Some(n as nat),
{
    let s = seq![digit(n as int / 16, large), digit(n as int % 16, large)];
    assert(s[0] != '+');
    assert(s.drop_last() =~= seq![digit(n as int / 16, large)]);
    assert(theme::hex_value(seq![digit(n as int / 16, large)]) == Some((n / 16) as nat));
    assert(s.last() == digit(n as int % 16, large));
    assert(theme::hex_digit(digit(n as int % 16, large)) == Some((n % 16) as nat));
    assert((n / 16) * 16 + n % 16 == n);
}

proof fn lemma_plain_length(s: Seq<char>)
    requires
        forall|i: int| 0 <= i < s.len() ==> (#[trigger] s[i]) as u32 <= 0x7f,
    ensures
        vstd::utf8::encode_utf8(s).len() == s.len(),
    decreases s.len(),
{
    if s.len() > 0 {
        lemma_plain_length(s.drop_first());
        assert(s[0] as u32 <= 0x7f);
        reveal_with_fuel(vstd::utf8::encode_utf8, 2);
    }
}

/// A text without a sign in front is no color.
pub proof fn law_colors_start_with_a_sign(s: Seq<char>)
    requires
        s.len() == 0 || s[0] != '#',
    ensures
        theme::hex_color(s) is Err,
{
}

/// A color that the terminal tells has sixteen bits a channel; of each, what is kept is
/// the same part of eight bits.
pub proof fn law_told_colors_are_scaled(n: nat)
    requires
        n <= 65535,
    ensures
        theme::scaled(n) * 65535 <= n * 255 < (theme::scaled(n) + 1) * 65535,
        theme::scaled(0) == 0,
        theme::scaled(65535) == 255,
{
}

/// A background is light when its channels are brighter than half on average, and one that
/// cannot be read is dark.
pub proof fn law_light_backgrounds(background: Seq<char>)
    ensures
        theme::is_light(background) <==> (theme::reply_color(background) matches Some(channels) && 2
            * (channels.0 + channels.1 + channels.2) > 3 * 255),
{
}

/// Every color of a theme is the one that its file gives to it. One that may be left out
/// is that of its nearest relative.
pub proof fn law_themes_read_their_own_colors(theme: Theme, raw: ThemeFile)
    requires
        theme.reads(raw),
    ensures
        theme::hex_color(raw.accent@) == Ok::<Color, Seq<char>>(theme.accent)
            || theme::hex_color(raw.accent@) is Err,
        theme::hex_color(raw.blocked@) == Ok::<Color, Seq<char>>(theme.blocked)
            || theme::hex_color(raw.blocked@) is Err,
        theme::hex_color(raw.working@) == Ok::<Color, Seq<char>>(theme.working)
            || theme::hex_color(raw.working@) is Err,
        theme::hex_color(raw.done@) == Ok::<Color, Seq<char>>(theme.done)
            || theme::hex_color(raw.done@) is Err,
        theme::hex_color(raw.idle@) == Ok::<Color, Seq<char>>(theme.idle)
            || theme::hex_color(raw.idle@) is Err,
        theme::hex_color(raw.text@) == Ok::<Color, Seq<char>>(theme.text)
            || theme::hex_color(raw.text@) is Err,
        theme::hex_color(raw.dim@) == Ok::<Color, Seq<char>>(theme.dim)
            || theme::hex_color(raw.dim@) is Err,
        theme::hex_color(raw.border@) == Ok::<Color, Seq<char>>(theme.border)
            || theme::hex_color(raw.border@) is Err,
        theme::hex_color(raw.tabbar_bg@) == Ok::<Color, Seq<char>>(theme.tabbar_bg)
            || theme::hex_color(raw.tabbar_bg@) is Err,
        theme::hex_color(raw.status_bg@) == Ok::<Color, Seq<char>>(theme.status_bg)
            || theme::hex_color(raw.status_bg@) is Err,
        raw.bg is None ==> theme.bg == theme.tabbar_bg,
        raw.surface is None ==> theme.surface == theme.status_bg,
        raw.selection is None ==> theme.selection == theme.border,
        raw.cursor is None ==> theme.cursor == theme.accent,
        raw.menu_bg is None ==> theme.menu_bg == theme.status_bg,
        raw.menu_fg is None ==> theme.menu_fg == theme.text,
        raw.tab_active_fg is None ==> theme.tab_active_fg == theme.accent,
        raw.tab_active_bg is None ==> theme.tab_active_bg == theme.tabbar_bg,
        raw.sidebar_bg is None ==> theme.sidebar_bg == theme.tabbar_bg,
        raw.menu_bg matches Some(s) ==> theme.menu_bg == theme::color_of(s@),
        raw.menu_fg matches Some(s) ==> theme.menu_fg == theme::color_of(s@),
        raw.selection matches Some(s) ==> theme.selection == theme::color_of(s@),
        raw.cursor matches Some(s) ==> theme.cursor == theme::color_of(s@),
        raw.bg matches Some(s) ==> theme.bg == theme::color_of(s@),
        raw.surface matches Some(s) ==> theme.surface == theme::color_of(s@),
        raw.tab_active_fg matches Some(s) ==> theme.tab_active_fg == theme::color_of(s@),
        raw.tab_active_bg matches Some(s) ==> theme.tab_active_bg == theme::color_of(s@),
        raw.sidebar_bg matches Some(s) ==> theme.sidebar_bg == theme::color_of(s@),
        theme.name@ == raw.name@,
        theme.ansi@.len() == 16,
        forall|i: int|
            0 <= i < 16 && i < raw.ansi@.len() && (#[trigger] raw.ansi@[i]) is Some ==> theme.ansi@[i]
                == theme::color_of(raw.ansi@[i]->0@),
{
}

/// The first color that cannot be read is what is wrong with a theme, and with none there
/// is nothing wrong.
pub proof fn law_the_first_fault_is_told(colors: Seq<Seq<char>>)
    ensures
        match theme::first_fault(colors) {
            Some(message) => exists|i: int|
                0 <= i < colors.len() && theme::hex_color(#[trigger] colors[i]) == Err::<
                    Color,
                    Seq<char>,
                >(message) && (forall|j: int|
                    0 <= j < i ==> theme::hex_color(#[trigger] colors[j]) is Ok),
            None => forall|i: int| 0 <= i < colors.len() ==> theme::hex_color(
                #[trigger] colors[i],
            ) is Ok,
        },
    decreases colors.len(),
{
    if colors.len() > 0 && theme::hex_color(colors[0]) is Ok {
        let rest = colors.skip(1);
        law_the_first_fault_is_told(rest);
        if let Some(message) = theme::first_fault(rest) {
            let k = choose|i: int|
                0 <= i < rest.len() && theme::hex_color(#[trigger] rest[i]) == Err::<
                    Color,
                    Seq<char>,
                >(message) && (forall|j: int|
                    0 <= j < i ==> theme::hex_color(#[trigger] rest[j]) is Ok);
            assert(colors[k + 1] == rest[k]);
            assert forall|j: int| 0 <= j < k + 1 implies theme::hex_color(
                #[trigger] colors[j],
            ) is Ok by {
                if j > 0 {
                    assert(rest[j - 1] == colors[j]);
                }
            }
        } else {
            assert forall|i: int| 0 <= i < colors.len() implies theme::hex_color(
                #[trigger] colors[i],
            ) is Ok by {
                if i > 0 {
                    assert(rest[i - 1] == colors[i]);
                }
            }
        }
    } else if colors.len() > 0 {
        assert(theme::hex_color(colors[0]) is Err);
    }
}

/// The standard palette: the bits of an index are red, green and blue, and from the eighth
/// on the colors are bright.
pub proof fn law_the_standard_palette()
    ensures
        theme::xterm(0) == Color::Rgb(0, 0, 0),
        theme::xterm(1) == Color::Rgb(128, 0, 0),
        theme::xterm(2) == Color::Rgb(0, 128, 0),
        theme::xterm(3) == Color::Rgb(128, 128, 0),
        theme::xterm(4) == Color::Rgb(0, 0, 128),
        theme::xterm(5) == Color::Rgb(128, 0, 128),
        theme::xterm(6) == Color::Rgb(0, 128, 128),
        theme::xterm(7) == Color::Rgb(192, 192, 192),
        theme::xterm(8) == Color::Rgb(128, 128, 128),
        theme::xterm(9) == Color::Rgb(255, 0, 0),
        theme::xterm(10) == Color::Rgb(0, 255, 0),
        theme::xterm(11) == Color::Rgb(255, 255, 0),
        theme::xterm(12) == Color::Rgb(0, 0, 255),
        theme::xterm(13) == Color::Rgb(255, 0, 255),
        theme::xterm(14) == Color::Rgb(0, 255, 255),
        theme::xterm(15) == Color::Rgb(255, 255, 255),
{
}

// -------------------------------------------------------------------------------- boxes

/// The selection moves by what is asked for, and stops at the first and the last row.
pub proof fn law_selections_stop_at_the_ends(selected: int, rows: int, delta: int)
    requires
        0 <= selected < rows,
    ensures
        ({
            let moved = overlay::moved_selection(selected, rows, delta);
            &&& 0 <= moved < rows
            &&& 0 <= selected + delta < rows ==> moved == selected + delta
            &&& selected + delta < 0 ==> moved == 0
            &&& selected + delta >= rows ==> moved == rows - 1
        }),
{
}

/// The keys of a box: the arrows move, return selects and escape leaves. In a box without
/// a filter the letters of the home row move too; in one with a filter they are typed.
pub proof fn law_boxes_follow_the_keys(key: KeyEvent, filtering: bool)
    ensures
        key.code == KeyCode::Up ==> overlay::step_of(filtering, key) == OverlayStep::Up,
        key.code == KeyCode::Down ==> overlay::step_of(filtering, key) == OverlayStep::Down,
        key.code == KeyCode::Enter ==> overlay::step_of(filtering, key) == OverlayStep::Select,
        key.code == KeyCode::Esc ==> overlay::step_of(filtering, key) == OverlayStep::Cancel,
        key.code == KeyCode::Char('k') && !filtering ==> overlay::step_of(filtering, key)
            == OverlayStep::Up,
        key.code == KeyCode::Char('j') && !filtering ==> overlay::step_of(filtering, key)
            == OverlayStep::Down,
        key.code == KeyCode::Char('p') && key.modifiers.control ==> overlay::step_of(filtering, key)
            == OverlayStep::Up,
        key.code == KeyCode::Char('n') && key.modifiers.control ==> overlay::step_of(filtering, key)
            == OverlayStep::Down,
        key.code is Char && filtering && !key.modifiers.control && !key.modifiers.alt
            ==> overlay::step_of(filtering, key) == OverlayStep::Type(key.code->Char_0),
        overlay::step_of(filtering, key) is Type ==> filtering && !key.modifiers.control
            && !key.modifiers.alt,
        overlay::step_of(filtering, key) == OverlayStep::Erase <==> filtering && key.code
            == KeyCode::Backspace,
        overlay::event_of(overlay::step_of(filtering, key)) == OverlayEvent::Select <==> key.code
            == KeyCode::Enter,
{
}

/// What is typed into a filter is appended, and what is erased is the last that was typed.
pub proof fn law_filters_can_be_taken_back(filter: Seq<char>, c: char, step: OverlayStep)
    ensures
        overlay::filter_after(
            overlay::filter_after(Some(filter), OverlayStep::Type(c)),
            OverlayStep::Erase,
        ) == Some(filter),
        overlay::filter_after(Some(filter), OverlayStep::Type(c)) == Some(filter + seq![c]),
        !(step is Type) && !(step is Erase) ==> overlay::filter_after(Some(filter), step) == Some(
            filter,
        ),
        overlay::filter_after(None, step) is None,
{
    assert(filter.push(c).drop_last() =~= filter);
    assert(filter.push(c) =~= filter + seq![c]);
}

/// A box stands in the middle of the area, one cell off at most, and has room for all its
/// rows where the area has.
pub proof fn law_boxes_stand_in_the_middle(area: Rect, rows: int, filtering: bool)
    requires
        overlay::placeable(area),
        0 <= rows <= 0xffff,
        area.width >= 12,
        area.height >= 5,
    ensures
        ({
            let rect = overlay::box_in(area, rows, filtering);
            let left = rect.x - area.x;
            let right = area.width - rect.width - left;
            let above = rect.y - area.y;
            let below = area.height - rect.height - above;
            &&& 0 <= left <= right <= left + 1
            &&& 0 <= above <= below <= above + 1
            &&& rect.width == (if area.width <= 76 {
                area.width - 4
            } else {
                72
            })
            &&& rows + (if filtering {
                4int
            } else {
                3
            }) <= area.height - 2 ==> overlay::list_in(rect, filtering).height >= rows
        }),
{
}

/// The rows that are seen hold the selected one, and start at the first where they can.
pub proof fn law_the_selected_row_is_seen(selected: int, height: int)
    requires
        0 <= selected,
        0 < height,
    ensures
        ({
            let first = overlay::first_visible(selected, height);
            &&& 0 <= first <= selected < first + height
            &&& selected < height ==> first == 0
            &&& selected >= height ==> selected == first + height - 1
        }),
{
}

/// The row under the pointer is the one that is drawn there.
pub proof fn law_clicks_take_the_row_that_is_drawn(
    area: Rect,
    rows: int,
    filtering: bool,
    selected: int,
    column: int,
    row: int,
)
    requires
        0 <= selected < rows <= 0xffff,
    ensures
        ({
            let rect = overlay::box_in(area, rows, filtering);
            let list = overlay::list_in(rect, filtering);
            let first = overlay::first_visible(selected, list.height as int);
            match overlay::row_under(area, rows, filtering, selected, column, row) {
                Some(index) => row == list.y + (index - first) && first <= index < rows && index
                    < first + list.height && rect.has_cell(column, row),
                None => !rect.has_cell(column, row) || row < list.y || row >= list.y + list.height
                    || first + (row - list.y) >= rows,
            }
        }),
{
}

proof fn lemma_cells_front(c: char, s: Seq<char>)
    ensures
        overlay::cells(seq![c] + s) == text::cells_of(c) + overlay::cells(s),
    decreases s.len(),
{
    let all = seq![c] + s;
    if s.len() == 0 {
        assert(all.drop_last() =~= Seq::empty());
        assert(all.last() == c);
        assert(overlay::cells(all.drop_last()) == 0);
    } else {
        assert(all.last() == s.last());
        assert(all.drop_last() =~= seq![c] + s.drop_last());
        lemma_cells_front(c, s.drop_last());
    }
}

/// What fits of a text is its longest beginning that takes no more cells than there is
/// room for.
pub proof fn law_as_much_is_shown_as_fits(s: Seq<char>, i: int, room: int)
    requires
        0 <= i <= s.len(),
        0 <= room,
    ensures
        ({
            let shown = overlay::fitting(s, i, room);
            &&& shown.is_prefix_of(s.skip(i))
            &&& overlay::cells(shown) <= room
            &&& i + shown.len() < s.len() ==> overlay::cells(shown) + text::cells_of(
                s[i + shown.len()],
            ) > room
        }),
    decreases s.len() - i,
{
    let shown = overlay::fitting(s, i, room);
    if i < s.len() && text::cells_of(s[i]) <= room {
        law_as_much_is_shown_as_fits(s, i + 1, room - text::cells_of(s[i]));
        let rest = overlay::fitting(s, i + 1, room - text::cells_of(s[i]));
        lemma_cells_front(s[i], rest);
        assert(s.skip(i) =~= seq![s[i]] + s.skip(i + 1));
        assert(rest.len() <= s.skip(i + 1).len());
        assert forall|k: int| 0 <= k < shown.len() implies shown[k] == s.skip(i)[k] by {
            if k > 0 {
                assert(rest[k - 1] == s.skip(i + 1)[k - 1]);
            }
        }
        assert(shown =~= s.skip(i).subrange(0, shown.len() as int));
    } else {
        assert(shown =~= s.skip(i).subrange(0, 0));
    }
}

/// The selected row stands out by the accent behind it.
pub proof fn law_the_selected_row_stands_out(theme: Theme)
    ensures
        overlay::row_style(true, theme).bg == Some(theme.accent),
        overlay::row_style(false, theme).bg == Some(theme.menu_bg),
        overlay::row_style(false, theme).fg == Some(theme.menu_fg),
{
}

/// A color that the terminal tells is read from three channels in hexadecimal, none of them
/// larger than sixteen bits can hold.
pub proof fn law_told_colors_are_read(a: Seq<char>, b: Seq<char>, c: Seq<char>)
    requires
        !a.contains('/'),
        !b.contains('/'),
        !c.contains('/'),
    ensures
        match (theme::hex_number(a), theme::hex_number(b), theme::hex_number(c)) {
            (Some(red), Some(green), Some(blue)) => theme::reply_color(
                a + seq!['/'] + b + seq!['/'] + c,
            ) == (if red <= 0xffff && green <= 0xffff && blue <= 0xffff {
                Some((theme::scaled(red), theme::scaled(green), theme::scaled(blue)))
            } else {
                None
            }),
            _ => theme::reply_color(a + seq!['/'] + b + seq!['/'] + c) is None,
        },
{
    let parts = seq![a, b, c];
    crate::laws::wording::law_joined_texts_split_again(parts, '/');
    let sep = seq!['/'];
    let whole = a + seq!['/'] + b + seq!['/'] + c;
    assert(parts.drop_last() =~= seq![a, b]);
    assert(seq![a, b].drop_last() =~= seq![a]);
    assert(text::joined(seq![a], sep) == a);
    assert(text::joined(seq![a, b], sep) =~= a + sep + b);
    assert(text::joined(parts, sep) =~= whole);
    assert(text::split_on(whole, '/') == parts);
}

/// What a theme leaves out of the palette is the standard color.
pub proof fn law_left_out_colors_are_standard(ansi: Seq<Option<String>>, i: int)
    requires
        0 <= i < 16,
    ensures
        i >= ansi.len() || ansi[i] is None ==> theme::palette(ansi)[i] == theme::xterm(i),
        theme::palette(ansi).len() == 16,
{
}

/// The rows of a box stand inside its border, below the filter where there is one.
pub proof fn law_rows_stand_inside_the_box(rect: Rect, filtering: bool)
    requires
        rect.fits(),
        rect.width >= 2,
        rect.height >= 4,
    ensures
        ({
            let list = overlay::list_in(rect, filtering);
            &&& list.x == rect.x + 1
            &&& list.width == rect.width - 2
            &&& list.y == rect.y + (if filtering {
                2int
            } else {
                1
            })
            &&& list.y + list.height == rect.y + rect.height - 1
        }),
{
}

/// The theme that is drawn with is the one that was chosen. Without a choice the background
/// decides: a light one has the light theme, and any other the dark one.
pub proof fn law_chosen_themes_are_drawn_with(
    config: crate::config::Config,
    background: Option<String>,
    name: Seq<char>,
    own: bool,
)
    requires
        config.draws_on(background, name, own),
    ensures
        config.theme == crate::config::ThemeChoice::Dark ==> name == "kodade-dark"@ && own,
        config.theme == crate::config::ThemeChoice::Light ==> name == "kodade-light"@ && own,
        config.theme == crate::config::ThemeChoice::Auto ==> own && (name == "kodade-light"@ || name
            == "kodade-dark"@),
        config.theme == crate::config::ThemeChoice::Auto ==> (background matches Some(answer)
            ==> theme::is_light(answer@) ==> name == "kodade-light"@),
        config.theme == crate::config::ThemeChoice::Auto && (background is None
            || !theme::is_light(background->0@)) ==> name == "kodade-dark"@,
        config.theme == crate::config::ThemeChoice::Named ==> (
        config.named_theme matches Some(named) ==> name == named@ && (own <==> theme::is_built_in(
            name,
        ))),
{
}

} // verus!
