//! Key bindings: what keys do from the start, and what a configuration makes of them.

use vstd::prelude::*;

use crate::app;
use crate::config::{self, Action, KeyState, ThemeChoice};
use crate::event::{KeyCode, KeyEvent, KeyModifiers};
use crate::keys;
use crate::text;

verus! {

/// A key without modifiers.
pub open spec fn bare(code: KeyCode) -> KeyEvent {
    KeyEvent { code, modifiers: KeyModifiers { shift: false, control: false, alt: false } }
}

/// What a key does after the prefix, before anything is configured.
pub open spec fn at_first(code: KeyCode) -> Option<Action> {
    config::bound(config::default_bindings(), bare(code))
}

proof fn lemma_first(n: int)
    requires
        0 <= n < config::default_bindings().len(),
    ensures
        config::bound(config::default_bindings(), config::default_bindings()[n].0) == Some(
            config::default_bindings()[n].1,
        ),
{
    lemma_first_within(n, config::default_bindings().len() as int);
    assert(config::default_bindings().take(config::default_bindings().len() as int)
        =~= config::default_bindings());
}

proof fn lemma_first_within(n: int, count: int)
    requires
        0 <= n < count <= config::default_bindings().len(),
    ensures
        config::bound(config::default_bindings().take(count), config::default_bindings()[n].0)
            == Some(config::default_bindings()[n].1),
    decreases count,
{
    let all = config::default_bindings();
    assert(all.take(count).last() == all[count - 1]);
    assert(all.take(count).drop_last() =~= all.take(count - 1));
    if n < count - 1 {
        assert(all[n].0 != all[count - 1].0);
        lemma_first_within(n, count - 1);
    }
}

/// From the start the arrows move the focus their way and the letters of the home row do
/// the same; in capitals the letters move borders that way.
pub proof fn law_directions_from_the_start()
    ensures
        at_first(KeyCode::Left) == Some(Action::FocusLeft),
        at_first(KeyCode::Right) == Some(Action::FocusRight),
        at_first(KeyCode::Up) == Some(Action::FocusUp),
        at_first(KeyCode::Down) == Some(Action::FocusDown),
        at_first(KeyCode::Char('h')) == at_first(KeyCode::Left),
        at_first(KeyCode::Char('l')) == at_first(KeyCode::Right),
        at_first(KeyCode::Char('k')) == at_first(KeyCode::Up),
        at_first(KeyCode::Char('j')) == at_first(KeyCode::Down),
        at_first(KeyCode::Char('H')) == Some(Action::ResizeLeft),
        at_first(KeyCode::Char('L')) == Some(Action::ResizeRight),
        at_first(KeyCode::Char('K')) == Some(Action::ResizeUp),
        at_first(KeyCode::Char('J')) == Some(Action::ResizeDown),
{
    assert forall|n: int| 0 <= n < config::default_bindings().len() implies config::bound(
        config::default_bindings(),
        (#[trigger] config::default_bindings()[n]).0,
    ) == Some(config::default_bindings()[n].1) by {
        lemma_first(n);
    }
    let all = config::default_bindings();
    assert(all[15].0 == bare(KeyCode::Up) && all[16].0 == bare(KeyCode::Down) && all[17].0 == bare(
        KeyCode::Left,
    ) && all[18].0 == bare(KeyCode::Right));
    assert(all[19].0 == bare(KeyCode::Char('k')) && all[20].0 == bare(KeyCode::Char('j'))
        && all[21].0 == bare(KeyCode::Char('h')) && all[22].0 == bare(KeyCode::Char('l')));
    assert(all[23].0 == bare(KeyCode::Char('K')) && all[24].0 == bare(KeyCode::Char('J'))
        && all[25].0 == bare(KeyCode::Char('H')) && all[26].0 == bare(KeyCode::Char('L')));
}

/// From the start every action has a key: the signs that a split looks like, the first
/// letters, and what other multiplexers use.
pub proof fn law_actions_have_keys_from_the_start()
    ensures
        at_first(KeyCode::Char('%')) == Some(Action::SplitRight),
        at_first(KeyCode::Char('"')) == Some(Action::SplitDown),
        at_first(KeyCode::Char('x')) == Some(Action::ClosePane),
        at_first(KeyCode::Char('c')) == Some(Action::NewTab),
        at_first(KeyCode::Char('n')) == Some(Action::Navigate),
        at_first(KeyCode::Tab) == Some(Action::NextTab),
        at_first(KeyCode::Char('p')) == Some(Action::PrevTab),
        at_first(KeyCode::Char('z')) == Some(Action::Zoom),
        at_first(KeyCode::Char('d')) == Some(Action::Detach),
        at_first(KeyCode::Char('r')) == Some(Action::Rename),
        at_first(KeyCode::Char('w')) == Some(Action::WorkspaceNext),
        at_first(KeyCode::Char('W')) == Some(Action::NewWorkspace),
        at_first(KeyCode::Char('b')) == Some(Action::SidebarToggle),
        at_first(KeyCode::Char('[')) == Some(Action::CopyMode),
        at_first(KeyCode::Char('?')) == Some(Action::Help),
        config::default_prefix() == (KeyEvent {
            code: KeyCode::Char('b'),
            modifiers: KeyModifiers { shift: false, control: true, alt: false },
        }),
{
    assert forall|n: int| 0 <= n < config::default_bindings().len() implies config::bound(
        config::default_bindings(),
        (#[trigger] config::default_bindings()[n]).0,
    ) == Some(config::default_bindings()[n].1) by {
        lemma_first(n);
    }
    let all = config::default_bindings();
    assert(all[0].0 == bare(KeyCode::Char('%')) && all[1].0 == bare(KeyCode::Char('"'))
        && all[2].0 == bare(KeyCode::Char('x')) && all[3].0 == bare(KeyCode::Char('c')));
    assert(all[4].0 == bare(KeyCode::Char('n')) && all[5].0 == bare(KeyCode::Tab) && all[6].0
        == bare(KeyCode::Char('p')) && all[7].0 == bare(KeyCode::Char('z')));
    assert(all[8].0 == bare(KeyCode::Char('d')) && all[9].0 == bare(KeyCode::Char('r'))
        && all[10].0 == bare(KeyCode::Char('w')) && all[11].0 == bare(KeyCode::Char('W')));
    assert(all[12].0 == bare(KeyCode::Char('b')) && all[13].0 == bare(KeyCode::Char('['))
        && all[14].0 == bare(KeyCode::Char('?')));
}

// ----------------------------------------------------------------------------- chords

/// The keys that chords name.
pub proof fn law_chords_name_keys(c: char)
    ensures
        config::chord_code("up"@) == Some(KeyCode::Up),
        config::chord_code("down"@) == Some(KeyCode::Down),
        config::chord_code("left"@) == Some(KeyCode::Left),
        config::chord_code("right"@) == Some(KeyCode::Right),
        config::chord_code("tab"@) == Some(KeyCode::Tab),
        config::chord_code("space"@) == Some(KeyCode::Char(' ')),
        config::chord_code(seq![c]) == Some(KeyCode::Char(c)),
        '0' <= c <= '9' ==> config::chord_code(seq!['F', c]) == Some(
            KeyCode::F((c as int - 48) as u8),
        ),
        config::chord_code(Seq::empty()) is None,
{
    reveal_strlit("up");
    reveal_strlit("down");
    reveal_strlit("left");
    reveal_strlit("right");
    reveal_strlit("tab");
    reveal_strlit("space");
    assert("up"@[0] == 'u');
    assert("down"@.len() == 4 && "left"@.len() == 4 && "down"@[0] == 'd' && "left"@[0] == 'l');
    assert("right"@.len() == 5 && "space"@.len() == 5 && "right"@[0] == 'r' && "space"@[0] == 's');
    assert(seq!['F', c][0] == 'F');
    assert(seq!['F', c] != "up"@);
}

proof fn lemma_untrimmed(s: Seq<char>)
    requires
        s.len() > 0,
        !text::white_space(s[0]),
        !text::white_space(s.last()),
    ensures
        text::trim(s) == s,
{
}

/// A modifier in front of a chord is held with the key and changes nothing else: control
/// first, then alt. Shift is never asked for.
pub proof fn law_modifiers_are_held(key: Seq<char>)
    requires
        key.len() > 0,
        !text::white_space(key[0]),
        !text::white_space(key.last()),
        config::chord(key) is Some,
        !config::chord(key)->0.modifiers.control,
        !config::chord(key)->0.modifiers.alt,
    ensures
        ({
            let code = config::chord(key)->0.code;
            &&& config::chord("ctrl+"@ + key) == Some(
                KeyEvent {
                    code,
                    modifiers: KeyModifiers { shift: false, control: true, alt: false },
                },
            )
            &&& config::chord("alt+"@ + key) == Some(
                KeyEvent {
                    code,
                    modifiers: KeyModifiers { shift: false, control: false, alt: true },
                },
            )
            &&& config::chord("ctrl+alt+"@ + key) == Some(
                KeyEvent {
                    code,
                    modifiers: KeyModifiers { shift: false, control: true, alt: true },
                },
            )
            &&& !config::chord(key)->0.modifiers.shift
        }),
{
    reveal_strlit("ctrl+");
    reveal_strlit("alt+");
    reveal_strlit("ctrl+alt+");
    lemma_untrimmed(key);
    let a = "ctrl+"@ + key;
    let b = "alt+"@ + key;
    let c = "ctrl+alt+"@ + key;
    assert(a[0] == 'c' && b[0] == 'a' && c[0] == 'c');
    assert(a.last() == key.last() && b.last() == key.last() && c.last() == key.last());
    lemma_untrimmed(a);
    lemma_untrimmed(b);
    lemma_untrimmed(c);
    assert(a.subrange(0, 5) =~= "ctrl+"@);
    assert(a.skip(5) =~= key);
    assert(b.subrange(0, 4) =~= "alt+"@);
    assert(b.skip(4) =~= key);
    assert(!"ctrl+"@.is_prefix_of(b)) by {
        if "ctrl+"@.is_prefix_of(b) {
            assert(b.subrange(0, 5)[0] == 'c');
        }
    }
    assert(c.subrange(0, 5) =~= "ctrl+"@);
    assert(c.skip(5) =~= b);
}

/// A chord with a modifier works on its own, unless it asks for the prefix; any other
/// follows the prefix.
pub proof fn law_chords_ask_for_the_prefix(value: Seq<char>)
    requires
        value.len() > 0,
        !text::white_space(value[0]),
        !text::white_space(value.last()),
        config::chord(value) is Some,
        !"prefix+"@.is_prefix_of(value),
    ensures
        config::binding_of(value) == Some(
            (
                config::chord(value)->0.modifiers.control || config::chord(value)->0.modifiers.alt,
                config::chord(value)->0,
            ),
        ),
        config::binding_of("prefix+"@ + value) == Some((false, config::chord(value)->0)),
{
    reveal_strlit("prefix+");
    lemma_untrimmed(value);
    let v = "prefix+"@ + value;
    assert(v[0] == 'p' && v.last() == value.last());
    lemma_untrimmed(v);
    assert(v.subrange(0, 7) =~= "prefix+"@);
    assert(v.skip(7) =~= value);
}

// ------------------------------------------------------------------------------ lookup

/// A key does what the list says of it: the last entry counts, and without an entry it
/// does nothing.
pub proof fn law_the_last_binding_counts(
    bindings: Seq<(KeyEvent, Action)>,
    key: KeyEvent,
    action: Action,
    other: KeyEvent,
)
    ensures
        config::bound(bindings.push((key, action)), key) == Some(action),
        other != key ==> config::bound(bindings.push((key, action)), other) == config::bound(
            bindings,
            other,
        ),
        config::bound(Seq::empty(), key) is None,
{
    assert(bindings.push((key, action)).drop_last() =~= bindings);
}

/// A chord that is configured does its action: on its own where it needs no prefix, else
/// behind it. The first chord of an action takes it from every key that had it; what other
/// keys do for other actions stays.
pub proof fn law_configured_chords_work(
    state: KeyState,
    action: Action,
    first: bool,
    value: Seq<char>,
    other: KeyEvent,
)
    requires
        config::one_action_per_key(state.bindings),
        config::one_action_per_key(state.globals),
        config::binding_of(value) is Some,
    ensures
        ({
            let (global, key) = config::binding_of(value)->0;
            let after = config::with_chord(state, action, first, value);
            let before_it = if global {
                state.globals
            } else {
                state.bindings
            };
            let after_it = if global {
                after.globals
            } else {
                after.bindings
            };
            &&& config::bound(after_it, key) == Some(action)
            &&& other != key && config::bound(before_it, other) != Some(action) ==> config::bound(
                after_it,
                other,
            ) == config::bound(before_it, other)
            &&& first && other != key ==> config::bound(after.globals, other) != Some(action)
                && config::bound(after.bindings, other) != Some(action)
            &&& !first && other != key ==> config::bound(after_it, other) == config::bound(
                before_it,
                other,
            )
            &&& after.prefix == state.prefix
            &&& after.warnings == state.warnings
        }),
{
    let (global, key) = config::binding_of(value)->0;
    config::law_rebinding_replaces(state.globals, key, action, other);
    config::law_rebinding_replaces(state.bindings, key, action, other);
    lemma_kept(state.globals, Some(key), None, other);
    lemma_kept(state.bindings, Some(key), None, other);
    lemma_kept(state.globals, None, Some(action), other);
    lemma_kept(state.bindings, None, Some(action), other);
    lemma_kept(state.globals, None, Some(action), key);
    lemma_kept(state.bindings, None, Some(action), key);
    law_the_last_binding_counts(config::kept(state.globals, Some(key), None), key, action, other);
    law_the_last_binding_counts(config::kept(state.bindings, Some(key), None), key, action, other);
}

proof fn lemma_kept(
    bindings: Seq<(KeyEvent, Action)>,
    key: Option<KeyEvent>,
    action: Option<Action>,
    other: KeyEvent,
)
    requires
        config::one_action_per_key(bindings),
    ensures
        Some(other) != key ==> config::bound(config::kept(bindings, key, action), other) == (
        match config::bound(bindings, other) {
            Some(a) => if Some(a) == action {
                None
            } else {
                Some(a)
            },
            None => None,
        }),
        action is Some ==> config::bound(config::kept(bindings, key, action), other) != action,
    decreases bindings.len(),
{
    if bindings.len() > 0 {
        let front = bindings.drop_last();
        assert forall|i: int, j: int| 0 <= i < j < front.len() implies (#[trigger] front[i]).0 != (
        #[trigger] front[j]).0 by {
            assert(front[i] == bindings[i] && front[j] == bindings[j]);
        }
        lemma_kept(front, key, action, other);
        let rest = config::kept(front, key, action);
        assert(rest.push(bindings.last()).drop_last() =~= rest);
        if bindings.last().0 == other {
            lemma_unbound(front, other, bindings);
            lemma_kept_unbound(front, key, action, other);
        }
    }
}

proof fn lemma_unbound(
    front: Seq<(KeyEvent, Action)>,
    other: KeyEvent,
    bindings: Seq<(KeyEvent, Action)>,
)
    requires
        config::one_action_per_key(bindings),
        bindings.len() > 0,
        front == bindings.drop_last(),
        bindings.last().0 == other,
    ensures
        forall|i: int| 0 <= i < front.len() ==> (#[trigger] front[i]).0 != other,
{
    assert forall|i: int| 0 <= i < front.len() implies (#[trigger] front[i]).0 != other by {
        assert(bindings[i].0 != bindings[bindings.len() - 1].0);
    }
}

proof fn lemma_kept_unbound(
    bindings: Seq<(KeyEvent, Action)>,
    key: Option<KeyEvent>,
    action: Option<Action>,
    other: KeyEvent,
)
    requires
        forall|i: int| 0 <= i < bindings.len() ==> (#[trigger] bindings[i]).0 != other,
    ensures
        config::bound(config::kept(bindings, key, action), other) is None,
    decreases bindings.len(),
{
    if bindings.len() > 0 {
        let front = bindings.drop_last();
        assert forall|i: int| 0 <= i < front.len() implies (#[trigger] front[i]).0 != other by {
            assert(front[i] == bindings[i]);
        }
        lemma_kept_unbound(front, key, action, other);
        let rest = config::kept(front, key, action);
        assert(rest.push(bindings.last()).drop_last() =~= rest);
        assert(bindings[bindings.len() - 1].0 != other);
    }
}

/// The prefix is the chord that was configured last; one that cannot be read leaves it
/// and says so.
pub proof fn law_the_prefix_is_configured(state: KeyState, values: Seq<String>, count: int)
    requires
        0 < count <= values.len(),
    ensures
        ({
            let before = config::with_prefix(state, values, count - 1);
            let after = config::with_prefix(state, values, count);
            match config::chord(values[count - 1]@) {
                Some(key) => after.prefix == key && after.warnings == before.warnings,
                None => after.prefix == before.prefix && after.warnings.len()
                    == before.warnings.len() + 1,
            }
        }),
        config::with_prefix(state, values, count).bindings == state.bindings,
        config::with_prefix(state, values, count).globals == state.globals,
    decreases count,
{
    if count > 1 {
        law_the_prefix_is_configured(state, values, count - 1);
    }
}

/// The names of the themes that are built in.
pub proof fn law_themes_are_chosen_by_name(name: Seq<char>)
    ensures
        config::choice_of(name) == ThemeChoice::Dark <==> name == seq!['d', 'a', 'r', 'k'],
        config::choice_of(name) == ThemeChoice::Light <==> name == seq!['l', 'i', 'g', 'h', 't'],
        config::choice_of(name) == ThemeChoice::Auto <==> name == seq!['a', 'u', 't', 'o'],
{
    reveal_strlit("dark");
    reveal_strlit("light");
    reveal_strlit("auto");
    assert("dark"@ =~= seq!['d', 'a', 'r', 'k']);
    assert("light"@ =~= seq!['l', 'i', 'g', 'h', 't']);
    assert("auto"@ =~= seq!['a', 'u', 't', 'o']);
    assert("dark"@[0] == 'd' && "auto"@[0] == 'a');
}

// --------------------------------------------------------------------------- key names

/// A key that is sent by name is sent as if it were pressed.
pub proof fn law_named_keys_are_pressed_keys(code: KeyCode)
    requires
        app::plain_bytes(code, false) is Some,
        !(code is Char),
    ensures
        keys::code_bytes(code) == app::plain_bytes(code, false),
{
    match code {
        KeyCode::F(n) => {
            lemma_function_names(n);
        },
        _ => {
            law_key_names();
        },
    }
}

/// The names of keys, with their other names, and what each types.
pub proof fn law_key_names()
    ensures
        keys::named_bytes("Enter"@) == Some(seq![13u8]),
        keys::named_bytes("Return"@) == Some(seq![13u8]),
        keys::named_bytes("C-m"@) == Some(seq![13u8]),
        keys::named_bytes("Tab"@) == Some(seq![9u8]),
        keys::named_bytes("Escape"@) == Some(seq![27u8]),
        keys::named_bytes("Esc"@) == Some(seq![27u8]),
        keys::named_bytes("BSpace"@) == Some(seq![127u8]),
        keys::named_bytes("BackSpace"@) == Some(seq![127u8]),
        keys::named_bytes("Up"@) == Some(seq![27u8, 91u8, 65u8]),
        keys::named_bytes("Down"@) == Some(seq![27u8, 91u8, 66u8]),
        keys::named_bytes("Right"@) == Some(seq![27u8, 91u8, 67u8]),
        keys::named_bytes("Left"@) == Some(seq![27u8, 91u8, 68u8]),
        keys::named_bytes("Home"@) == Some(seq![27u8, 91u8, 72u8]),
        keys::named_bytes("End"@) == Some(seq![27u8, 91u8, 70u8]),
        keys::named_bytes("PageUp"@) == Some(seq![27u8, 91u8, 53u8, 126u8]),
        keys::named_bytes("PgUp"@) == Some(seq![27u8, 91u8, 53u8, 126u8]),
        keys::named_bytes("PageDown"@) == Some(seq![27u8, 91u8, 54u8, 126u8]),
        keys::named_bytes("PgDn"@) == Some(seq![27u8, 91u8, 54u8, 126u8]),
        keys::named_bytes("Insert"@) == Some(seq![27u8, 91u8, 50u8, 126u8]),
        keys::named_bytes("IC"@) == Some(seq![27u8, 91u8, 50u8, 126u8]),
        keys::named_bytes("Delete"@) == Some(seq![27u8, 91u8, 51u8, 126u8]),
        keys::named_bytes("DC"@) == Some(seq![27u8, 91u8, 51u8, 126u8]),
{
    lemma_name_enter();
    lemma_name_return();
    lemma_name_c_m();
    lemma_name_tab();
    lemma_name_escape();
    lemma_name_esc();
    lemma_name_bspace();
    lemma_name_backspace();
    lemma_name_up();
    lemma_name_down();
    lemma_name_right();
    lemma_name_left();
    lemma_name_home();
    lemma_name_end();
    lemma_name_pageup();
    lemma_name_pgup();
    lemma_name_pagedown();
    lemma_name_pgdn();
    lemma_name_insert();
    lemma_name_ic();
    lemma_name_delete();
    lemma_name_dc();
}

proof fn lemma_name_enter()
    ensures
        keys::named_bytes("Enter"@) == Some(seq![13u8]),
{
    reveal_strlit("Enter");
}

proof fn lemma_name_return()
    ensures
        keys::named_bytes("Return"@) == Some(seq![13u8]),
{
    reveal_strlit("Return");
    assert("Return"@ != "Enter"@) by {
        reveal_strlit("Enter");
        assert("Return"@.len() == 6 && "Enter"@.len() == 5);
    }
}

proof fn lemma_name_c_m()
    ensures
        keys::named_bytes("C-m"@) == Some(seq![13u8]),
{
    reveal_strlit("C-m");
    assert("C-m"@ != "Enter"@) by {
        reveal_strlit("Enter");
        assert("C-m"@.len() == 3 && "Enter"@.len() == 5);
    }
    assert("C-m"@ != "Return"@) by {
        reveal_strlit("Return");
        assert("C-m"@.len() == 3 && "Return"@.len() == 6);
    }
}

proof fn lemma_name_tab()
    ensures
        keys::named_bytes("Tab"@) == Some(seq![9u8]),
{
    reveal_strlit("Tab");
    assert("Tab"@ != "Enter"@) by {
        reveal_strlit("Enter");
        assert("Tab"@.len() == 3 && "Enter"@.len() == 5);
    }
    assert("Tab"@ != "Return"@) by {
        reveal_strlit("Return");
        assert("Tab"@.len() == 3 && "Return"@.len() == 6);
    }
    assert("Tab"@ != "C-m"@) by {
        reveal_strlit("C-m");
        assert("Tab"@[0] == 'T' && "C-m"@[0] == 'C');
    }
}

proof fn lemma_name_escape()
    ensures
        keys::named_bytes("Escape"@) == Some(seq![27u8]),
{
    reveal_strlit("Escape");
    assert("Escape"@ != "Enter"@) by {
        reveal_strlit("Enter");
        assert("Escape"@.len() == 6 && "Enter"@.len() == 5);
    }
    assert("Escape"@ != "Return"@) by {
        reveal_strlit("Return");
        assert("Escape"@[0] == 'E' && "Return"@[0] == 'R');
    }
    assert("Escape"@ != "C-m"@) by {
        reveal_strlit("C-m");
        assert("Escape"@.len() == 6 && "C-m"@.len() == 3);
    }
    assert("Escape"@ != "Tab"@) by {
        reveal_strlit("Tab");
        assert("Escape"@.len() == 6 && "Tab"@.len() == 3);
    }
    assert("Escape"@ != "BTab"@) by {
        reveal_strlit("BTab");
        assert("Escape"@.len() == 6 && "BTab"@.len() == 4);
    }
    assert("Escape"@ != "Space"@) by {
        reveal_strlit("Space");
        assert("Escape"@.len() == 6 && "Space"@.len() == 5);
    }
}

proof fn lemma_name_esc()
    ensures
        keys::named_bytes("Esc"@) == Some(seq![27u8]),
{
    reveal_strlit("Esc");
    assert("Esc"@ != "Enter"@) by {
        reveal_strlit("Enter");
        assert("Esc"@.len() == 3 && "Enter"@.len() == 5);
    }
    assert("Esc"@ != "Return"@) by {
        reveal_strlit("Return");
        assert("Esc"@.len() == 3 && "Return"@.len() == 6);
    }
    assert("Esc"@ != "C-m"@) by {
        reveal_strlit("C-m");
        assert("Esc"@[0] == 'E' && "C-m"@[0] == 'C');
    }
    assert("Esc"@ != "Tab"@) by {
        reveal_strlit("Tab");
        assert("Esc"@[0] == 'E' && "Tab"@[0] == 'T');
    }
    assert("Esc"@ != "BTab"@) by {
        reveal_strlit("BTab");
        assert("Esc"@.len() == 3 && "BTab"@.len() == 4);
    }
    assert("Esc"@ != "Space"@) by {
        reveal_strlit("Space");
        assert("Esc"@.len() == 3 && "Space"@.len() == 5);
    }
    assert("Esc"@ != "Escape"@) by {
        reveal_strlit("Escape");
        assert("Esc"@.len() == 3 && "Escape"@.len() == 6);
    }
}

proof fn lemma_name_bspace()
    ensures
        keys::named_bytes("BSpace"@) == Some(seq![127u8]),
{
    reveal_strlit("BSpace");
    assert("BSpace"@ != "Enter"@) by {
        reveal_strlit("Enter");
        assert("BSpace"@.len() == 6 && "Enter"@.len() == 5);
    }
    assert("BSpace"@ != "Return"@) by {
        reveal_strlit("Return");
        assert("BSpace"@[0] == 'B' && "Return"@[0] == 'R');
    }
    assert("BSpace"@ != "C-m"@) by {
        reveal_strlit("C-m");
        assert("BSpace"@.len() == 6 && "C-m"@.len() == 3);
    }
    assert("BSpace"@ != "Tab"@) by {
        reveal_strlit("Tab");
        assert("BSpace"@.len() == 6 && "Tab"@.len() == 3);
    }
    assert("BSpace"@ != "BTab"@) by {
        reveal_strlit("BTab");
        assert("BSpace"@.len() == 6 && "BTab"@.len() == 4);
    }
    assert("BSpace"@ != "Space"@) by {
        reveal_strlit("Space");
        assert("BSpace"@.len() == 6 && "Space"@.len() == 5);
    }
    assert("BSpace"@ != "Escape"@) by {
        reveal_strlit("Escape");
        assert("BSpace"@[0] == 'B' && "Escape"@[0] == 'E');
    }
    assert("BSpace"@ != "Esc"@) by {
        reveal_strlit("Esc");
        assert("BSpace"@.len() == 6 && "Esc"@.len() == 3);
    }
}

proof fn lemma_name_backspace()
    ensures
        keys::named_bytes("BackSpace"@) == Some(seq![127u8]),
{
    reveal_strlit("BackSpace");
    assert("BackSpace"@ != "Enter"@) by {
        reveal_strlit("Enter");
        assert("BackSpace"@.len() == 9 && "Enter"@.len() == 5);
    }
    assert("BackSpace"@ != "Return"@) by {
        reveal_strlit("Return");
        assert("BackSpace"@.len() == 9 && "Return"@.len() == 6);
    }
    assert("BackSpace"@ != "C-m"@) by {
        reveal_strlit("C-m");
        assert("BackSpace"@.len() == 9 && "C-m"@.len() == 3);
    }
    assert("BackSpace"@ != "Tab"@) by {
        reveal_strlit("Tab");
        assert("BackSpace"@.len() == 9 && "Tab"@.len() == 3);
    }
    assert("BackSpace"@ != "BTab"@) by {
        reveal_strlit("BTab");
        assert("BackSpace"@.len() == 9 && "BTab"@.len() == 4);
    }
    assert("BackSpace"@ != "Space"@) by {
        reveal_strlit("Space");
        assert("BackSpace"@.len() == 9 && "Space"@.len() == 5);
    }
    assert("BackSpace"@ != "Escape"@) by {
        reveal_strlit("Escape");
        assert("BackSpace"@.len() == 9 && "Escape"@.len() == 6);
    }
    assert("BackSpace"@ != "Esc"@) by {
        reveal_strlit("Esc");
        assert("BackSpace"@.len() == 9 && "Esc"@.len() == 3);
    }
    assert("BackSpace"@ != "BSpace"@) by {
        reveal_strlit("BSpace");
        assert("BackSpace"@.len() == 9 && "BSpace"@.len() == 6);
    }
}

proof fn lemma_name_up()
    ensures
        keys::named_bytes("Up"@) == Some(seq![27u8, 91u8, 65u8]),
{
    reveal_strlit("Up");
    assert("Up"@ != "Enter"@) by {
        reveal_strlit("Enter");
        assert("Up"@.len() == 2 && "Enter"@.len() == 5);
    }
    assert("Up"@ != "Return"@) by {
        reveal_strlit("Return");
        assert("Up"@.len() == 2 && "Return"@.len() == 6);
    }
    assert("Up"@ != "C-m"@) by {
        reveal_strlit("C-m");
        assert("Up"@.len() == 2 && "C-m"@.len() == 3);
    }
    assert("Up"@ != "Tab"@) by {
        reveal_strlit("Tab");
        assert("Up"@.len() == 2 && "Tab"@.len() == 3);
    }
    assert("Up"@ != "BTab"@) by {
        reveal_strlit("BTab");
        assert("Up"@.len() == 2 && "BTab"@.len() == 4);
    }
    assert("Up"@ != "Space"@) by {
        reveal_strlit("Space");
        assert("Up"@.len() == 2 && "Space"@.len() == 5);
    }
    assert("Up"@ != "Escape"@) by {
        reveal_strlit("Escape");
        assert("Up"@.len() == 2 && "Escape"@.len() == 6);
    }
    assert("Up"@ != "Esc"@) by {
        reveal_strlit("Esc");
        assert("Up"@.len() == 2 && "Esc"@.len() == 3);
    }
    assert("Up"@ != "BSpace"@) by {
        reveal_strlit("BSpace");
        assert("Up"@.len() == 2 && "BSpace"@.len() == 6);
    }
    assert("Up"@ != "BackSpace"@) by {
        reveal_strlit("BackSpace");
        assert("Up"@.len() == 2 && "BackSpace"@.len() == 9);
    }
}

proof fn lemma_name_down()
    ensures
        keys::named_bytes("Down"@) == Some(seq![27u8, 91u8, 66u8]),
{
    reveal_strlit("Down");
    assert("Down"@ != "Enter"@) by {
        reveal_strlit("Enter");
        assert("Down"@.len() == 4 && "Enter"@.len() == 5);
    }
    assert("Down"@ != "Return"@) by {
        reveal_strlit("Return");
        assert("Down"@.len() == 4 && "Return"@.len() == 6);
    }
    assert("Down"@ != "C-m"@) by {
        reveal_strlit("C-m");
        assert("Down"@.len() == 4 && "C-m"@.len() == 3);
    }
    assert("Down"@ != "Tab"@) by {
        reveal_strlit("Tab");
        assert("Down"@.len() == 4 && "Tab"@.len() == 3);
    }
    assert("Down"@ != "BTab"@) by {
        reveal_strlit("BTab");
        assert("Down"@[0] == 'D' && "BTab"@[0] == 'B');
    }
    assert("Down"@ != "Space"@) by {
        reveal_strlit("Space");
        assert("Down"@.len() == 4 && "Space"@.len() == 5);
    }
    assert("Down"@ != "Escape"@) by {
        reveal_strlit("Escape");
        assert("Down"@.len() == 4 && "Escape"@.len() == 6);
    }
    assert("Down"@ != "Esc"@) by {
        reveal_strlit("Esc");
        assert("Down"@.len() == 4 && "Esc"@.len() == 3);
    }
    assert("Down"@ != "BSpace"@) by {
        reveal_strlit("BSpace");
        assert("Down"@.len() == 4 && "BSpace"@.len() == 6);
    }
    assert("Down"@ != "BackSpace"@) by {
        reveal_strlit("BackSpace");
        assert("Down"@.len() == 4 && "BackSpace"@.len() == 9);
    }
    assert("Down"@ != "Up"@) by {
        reveal_strlit("Up");
        assert("Down"@.len() == 4 && "Up"@.len() == 2);
    }
}

proof fn lemma_name_right()
    ensures
        keys::named_bytes("Right"@) == Some(seq![27u8, 91u8, 67u8]),
{
    reveal_strlit("Right");
    assert("Right"@ != "Enter"@) by {
        reveal_strlit("Enter");
        assert("Right"@[0] == 'R' && "Enter"@[0] == 'E');
    }
    assert("Right"@ != "Return"@) by {
        reveal_strlit("Return");
        assert("Right"@.len() == 5 && "Return"@.len() == 6);
    }
    assert("Right"@ != "C-m"@) by {
        reveal_strlit("C-m");
        assert("Right"@.len() == 5 && "C-m"@.len() == 3);
    }
    assert("Right"@ != "Tab"@) by {
        reveal_strlit("Tab");
        assert("Right"@.len() == 5 && "Tab"@.len() == 3);
    }
    assert("Right"@ != "BTab"@) by {
        reveal_strlit("BTab");
        assert("Right"@.len() == 5 && "BTab"@.len() == 4);
    }
    assert("Right"@ != "Space"@) by {
        reveal_strlit("Space");
        assert("Right"@[0] == 'R' && "Space"@[0] == 'S');
    }
    assert("Right"@ != "Escape"@) by {
        reveal_strlit("Escape");
        assert("Right"@.len() == 5 && "Escape"@.len() == 6);
    }
    assert("Right"@ != "Esc"@) by {
        reveal_strlit("Esc");
        assert("Right"@.len() == 5 && "Esc"@.len() == 3);
    }
    assert("Right"@ != "BSpace"@) by {
        reveal_strlit("BSpace");
        assert("Right"@.len() == 5 && "BSpace"@.len() == 6);
    }
    assert("Right"@ != "BackSpace"@) by {
        reveal_strlit("BackSpace");
        assert("Right"@.len() == 5 && "BackSpace"@.len() == 9);
    }
    assert("Right"@ != "Up"@) by {
        reveal_strlit("Up");
        assert("Right"@.len() == 5 && "Up"@.len() == 2);
    }
    assert("Right"@ != "Down"@) by {
        reveal_strlit("Down");
        assert("Right"@.len() == 5 && "Down"@.len() == 4);
    }
}

proof fn lemma_name_left()
    ensures
        keys::named_bytes("Left"@) == Some(seq![27u8, 91u8, 68u8]),
{
    reveal_strlit("Left");
    assert("Left"@ != "Enter"@) by {
        reveal_strlit("Enter");
        assert("Left"@.len() == 4 && "Enter"@.len() == 5);
    }
    assert("Left"@ != "Return"@) by {
        reveal_strlit("Return");
        assert("Left"@.len() == 4 && "Return"@.len() == 6);
    }
    assert("Left"@ != "C-m"@) by {
        reveal_strlit("C-m");
        assert("Left"@.len() == 4 && "C-m"@.len() == 3);
    }
    assert("Left"@ != "Tab"@) by {
        reveal_strlit("Tab");
        assert("Left"@.len() == 4 && "Tab"@.len() == 3);
    }
    assert("Left"@ != "BTab"@) by {
        reveal_strlit("BTab");
        assert("Left"@[0] == 'L' && "BTab"@[0] == 'B');
    }
    assert("Left"@ != "Space"@) by {
        reveal_strlit("Space");
        assert("Left"@.len() == 4 && "Space"@.len() == 5);
    }
    assert("Left"@ != "Escape"@) by {
        reveal_strlit("Escape");
        assert("Left"@.len() == 4 && "Escape"@.len() == 6);
    }
    assert("Left"@ != "Esc"@) by {
        reveal_strlit("Esc");
        assert("Left"@.len() == 4 && "Esc"@.len() == 3);
    }
    assert("Left"@ != "BSpace"@) by {
        reveal_strlit("BSpace");
        assert("Left"@.len() == 4 && "BSpace"@.len() == 6);
    }
    assert("Left"@ != "BackSpace"@) by {
        reveal_strlit("BackSpace");
        assert("Left"@.len() == 4 && "BackSpace"@.len() == 9);
    }
    assert("Left"@ != "Up"@) by {
        reveal_strlit("Up");
        assert("Left"@.len() == 4 && "Up"@.len() == 2);
    }
    assert("Left"@ != "Down"@) by {
        reveal_strlit("Down");
        assert("Left"@[0] == 'L' && "Down"@[0] == 'D');
    }
    assert("Left"@ != "Right"@) by {
        reveal_strlit("Right");
        assert("Left"@.len() == 4 && "Right"@.len() == 5);
    }
}

proof fn lemma_name_home()
    ensures
        keys::named_bytes("Home"@) == Some(seq![27u8, 91u8, 72u8]),
{
    reveal_strlit("Home");
    assert("Home"@ != "Enter"@) by {
        reveal_strlit("Enter");
        assert("Home"@.len() == 4 && "Enter"@.len() == 5);
    }
    assert("Home"@ != "Return"@) by {
        reveal_strlit("Return");
        assert("Home"@.len() == 4 && "Return"@.len() == 6);
    }
    assert("Home"@ != "C-m"@) by {
        reveal_strlit("C-m");
        assert("Home"@.len() == 4 && "C-m"@.len() == 3);
    }
    assert("Home"@ != "Tab"@) by {
        reveal_strlit("Tab");
        assert("Home"@.len() == 4 && "Tab"@.len() == 3);
    }
    assert("Home"@ != "BTab"@) by {
        reveal_strlit("BTab");
        assert("Home"@[0] == 'H' && "BTab"@[0] == 'B');
    }
    assert("Home"@ != "Space"@) by {
        reveal_strlit("Space");
        assert("Home"@.len() == 4 && "Space"@.len() == 5);
    }
    assert("Home"@ != "Escape"@) by {
        reveal_strlit("Escape");
        assert("Home"@.len() == 4 && "Escape"@.len() == 6);
    }
    assert("Home"@ != "Esc"@) by {
        reveal_strlit("Esc");
        assert("Home"@.len() == 4 && "Esc"@.len() == 3);
    }
    assert("Home"@ != "BSpace"@) by {
        reveal_strlit("BSpace");
        assert("Home"@.len() == 4 && "BSpace"@.len() == 6);
    }
    assert("Home"@ != "BackSpace"@) by {
        reveal_strlit("BackSpace");
        assert("Home"@.len() == 4 && "BackSpace"@.len() == 9);
    }
    assert("Home"@ != "Up"@) by {
        reveal_strlit("Up");
        assert("Home"@.len() == 4 && "Up"@.len() == 2);
    }
    assert("Home"@ != "Down"@) by {
        reveal_strlit("Down");
        assert("Home"@[0] == 'H' && "Down"@[0] == 'D');
    }
    assert("Home"@ != "Right"@) by {
        reveal_strlit("Right");
        assert("Home"@.len() == 4 && "Right"@.len() == 5);
    }
    assert("Home"@ != "Left"@) by {
        reveal_strlit("Left");
        assert("Home"@[0] == 'H' && "Left"@[0] == 'L');
    }
}

proof fn lemma_name_end()
    ensures
        keys::named_bytes("End"@) == Some(seq![27u8, 91u8, 70u8]),
{
    reveal_strlit("End");
    assert("End"@ != "Enter"@) by {
        reveal_strlit("Enter");
        assert("End"@.len() == 3 && "Enter"@.len() == 5);
    }
    assert("End"@ != "Return"@) by {
        reveal_strlit("Return");
        assert("End"@.len() == 3 && "Return"@.len() == 6);
    }
    assert("End"@ != "C-m"@) by {
        reveal_strlit("C-m");
        assert("End"@[0] == 'E' && "C-m"@[0] == 'C');
    }
    assert("End"@ != "Tab"@) by {
        reveal_strlit("Tab");
        assert("End"@[0] == 'E' && "Tab"@[0] == 'T');
    }
    assert("End"@ != "BTab"@) by {
        reveal_strlit("BTab");
        assert("End"@.len() == 3 && "BTab"@.len() == 4);
    }
    assert("End"@ != "Space"@) by {
        reveal_strlit("Space");
        assert("End"@.len() == 3 && "Space"@.len() == 5);
    }
    assert("End"@ != "Escape"@) by {
        reveal_strlit("Escape");
        assert("End"@.len() == 3 && "Escape"@.len() == 6);
    }
    assert("End"@ != "Esc"@) by {
        reveal_strlit("Esc");
        assert("End"@[1] == 'n' && "Esc"@[1] == 's');
    }
    assert("End"@ != "BSpace"@) by {
        reveal_strlit("BSpace");
        assert("End"@.len() == 3 && "BSpace"@.len() == 6);
    }
    assert("End"@ != "BackSpace"@) by {
        reveal_strlit("BackSpace");
        assert("End"@.len() == 3 && "BackSpace"@.len() == 9);
    }
    assert("End"@ != "Up"@) by {
        reveal_strlit("Up");
        assert("End"@.len() == 3 && "Up"@.len() == 2);
    }
    assert("End"@ != "Down"@) by {
        reveal_strlit("Down");
        assert("End"@.len() == 3 && "Down"@.len() == 4);
    }
    assert("End"@ != "Right"@) by {
        reveal_strlit("Right");
        assert("End"@.len() == 3 && "Right"@.len() == 5);
    }
    assert("End"@ != "Left"@) by {
        reveal_strlit("Left");
        assert("End"@.len() == 3 && "Left"@.len() == 4);
    }
    assert("End"@ != "Home"@) by {
        reveal_strlit("Home");
        assert("End"@.len() == 3 && "Home"@.len() == 4);
    }
}

proof fn lemma_name_pageup()
    ensures
        keys::named_bytes("PageUp"@) == Some(seq![27u8, 91u8, 53u8, 126u8]),
{
    reveal_strlit("PageUp");
    assert("PageUp"@ != "Enter"@) by {
        reveal_strlit("Enter");
        assert("PageUp"@.len() == 6 && "Enter"@.len() == 5);
    }
    assert("PageUp"@ != "Return"@) by {
        reveal_strlit("Return");
        assert("PageUp"@[0] == 'P' && "Return"@[0] == 'R');
    }
    assert("PageUp"@ != "C-m"@) by {
        reveal_strlit("C-m");
        assert("PageUp"@.len() == 6 && "C-m"@.len() == 3);
    }
    assert("PageUp"@ != "Tab"@) by {
        reveal_strlit("Tab");
        assert("PageUp"@.len() == 6 && "Tab"@.len() == 3);
    }
    assert("PageUp"@ != "BTab"@) by {
        reveal_strlit("BTab");
        assert("PageUp"@.len() == 6 && "BTab"@.len() == 4);
    }
    assert("PageUp"@ != "Space"@) by {
        reveal_strlit("Space");
        assert("PageUp"@.len() == 6 && "Space"@.len() == 5);
    }
    assert("PageUp"@ != "Escape"@) by {
        reveal_strlit("Escape");
        assert("PageUp"@[0] == 'P' && "Escape"@[0] == 'E');
    }
    assert("PageUp"@ != "Esc"@) by {
        reveal_strlit("Esc");
        assert("PageUp"@.len() == 6 && "Esc"@.len() == 3);
    }
    assert("PageUp"@ != "BSpace"@) by {
        reveal_strlit("BSpace");
        assert("PageUp"@[0] == 'P' && "BSpace"@[0] == 'B');
    }
    assert("PageUp"@ != "BackSpace"@) by {
        reveal_strlit("BackSpace");
        assert("PageUp"@.len() == 6 && "BackSpace"@.len() == 9);
    }
    assert("PageUp"@ != "Up"@) by {
        reveal_strlit("Up");
        assert("PageUp"@.len() == 6 && "Up"@.len() == 2);
    }
    assert("PageUp"@ != "Down"@) by {
        reveal_strlit("Down");
        assert("PageUp"@.len() == 6 && "Down"@.len() == 4);
    }
    assert("PageUp"@ != "Right"@) by {
        reveal_strlit("Right");
        assert("PageUp"@.len() == 6 && "Right"@.len() == 5);
    }
    assert("PageUp"@ != "Left"@) by {
        reveal_strlit("Left");
        assert("PageUp"@.len() == 6 && "Left"@.len() == 4);
    }
    assert("PageUp"@ != "Home"@) by {
        reveal_strlit("Home");
        assert("PageUp"@.len() == 6 && "Home"@.len() == 4);
    }
    assert("PageUp"@ != "End"@) by {
        reveal_strlit("End");
        assert("PageUp"@.len() == 6 && "End"@.len() == 3);
    }
}

proof fn lemma_name_pgup()
    ensures
        keys::named_bytes("PgUp"@) == Some(seq![27u8, 91u8, 53u8, 126u8]),
{
    reveal_strlit("PgUp");
    assert("PgUp"@ != "Enter"@) by {
        reveal_strlit("Enter");
        assert("PgUp"@.len() == 4 && "Enter"@.len() == 5);
    }
    assert("PgUp"@ != "Return"@) by {
        reveal_strlit("Return");
        assert("PgUp"@.len() == 4 && "Return"@.len() == 6);
    }
    assert("PgUp"@ != "C-m"@) by {
        reveal_strlit("C-m");
        assert("PgUp"@.len() == 4 && "C-m"@.len() == 3);
    }
    assert("PgUp"@ != "Tab"@) by {
        reveal_strlit("Tab");
        assert("PgUp"@.len() == 4 && "Tab"@.len() == 3);
    }
    assert("PgUp"@ != "BTab"@) by {
        reveal_strlit("BTab");
        assert("PgUp"@[0] == 'P' && "BTab"@[0] == 'B');
    }
    assert("PgUp"@ != "Space"@) by {
        reveal_strlit("Space");
        assert("PgUp"@.len() == 4 && "Space"@.len() == 5);
    }
    assert("PgUp"@ != "Escape"@) by {
        reveal_strlit("Escape");
        assert("PgUp"@.len() == 4 && "Escape"@.len() == 6);
    }
    assert("PgUp"@ != "Esc"@) by {
        reveal_strlit("Esc");
        assert("PgUp"@.len() == 4 && "Esc"@.len() == 3);
    }
    assert("PgUp"@ != "BSpace"@) by {
        reveal_strlit("BSpace");
        assert("PgUp"@.len() == 4 && "BSpace"@.len() == 6);
    }
    assert("PgUp"@ != "BackSpace"@) by {
        reveal_strlit("BackSpace");
        assert("PgUp"@.len() == 4 && "BackSpace"@.len() == 9);
    }
    assert("PgUp"@ != "Up"@) by {
        reveal_strlit("Up");
        assert("PgUp"@.len() == 4 && "Up"@.len() == 2);
    }
    assert("PgUp"@ != "Down"@) by {
        reveal_strlit("Down");
        assert("PgUp"@[0] == 'P' && "Down"@[0] == 'D');
    }
    assert("PgUp"@ != "Right"@) by {
        reveal_strlit("Right");
        assert("PgUp"@.len() == 4 && "Right"@.len() == 5);
    }
    assert("PgUp"@ != "Left"@) by {
        reveal_strlit("Left");
        assert("PgUp"@[0] == 'P' && "Left"@[0] == 'L');
    }
    assert("PgUp"@ != "Home"@) by {
        reveal_strlit("Home");
        assert("PgUp"@[0] == 'P' && "Home"@[0] == 'H');
    }
    assert("PgUp"@ != "End"@) by {
        reveal_strlit("End");
        assert("PgUp"@.len() == 4 && "End"@.len() == 3);
    }
    assert("PgUp"@ != "PageUp"@) by {
        reveal_strlit("PageUp");
        assert("PgUp"@.len() == 4 && "PageUp"@.len() == 6);
    }
}

proof fn lemma_name_pagedown()
    ensures
        keys::named_bytes("PageDown"@) == Some(seq![27u8, 91u8, 54u8, 126u8]),
{
    reveal_strlit("PageDown");
    assert("PageDown"@ != "Enter"@) by {
        reveal_strlit("Enter");
        assert("PageDown"@.len() == 8 && "Enter"@.len() == 5);
    }
    assert("PageDown"@ != "Return"@) by {
        reveal_strlit("Return");
        assert("PageDown"@.len() == 8 && "Return"@.len() == 6);
    }
    assert("PageDown"@ != "C-m"@) by {
        reveal_strlit("C-m");
        assert("PageDown"@.len() == 8 && "C-m"@.len() == 3);
    }
    assert("PageDown"@ != "Tab"@) by {
        reveal_strlit("Tab");
        assert("PageDown"@.len() == 8 && "Tab"@.len() == 3);
    }
    assert("PageDown"@ != "BTab"@) by {
        reveal_strlit("BTab");
        assert("PageDown"@.len() == 8 && "BTab"@.len() == 4);
    }
    assert("PageDown"@ != "Space"@) by {
        reveal_strlit("Space");
        assert("PageDown"@.len() == 8 && "Space"@.len() == 5);
    }
    assert("PageDown"@ != "Escape"@) by {
        reveal_strlit("Escape");
        assert("PageDown"@.len() == 8 && "Escape"@.len() == 6);
    }
    assert("PageDown"@ != "Esc"@) by {
        reveal_strlit("Esc");
        assert("PageDown"@.len() == 8 && "Esc"@.len() == 3);
    }
    assert("PageDown"@ != "BSpace"@) by {
        reveal_strlit("BSpace");
        assert("PageDown"@.len() == 8 && "BSpace"@.len() == 6);
    }
    assert("PageDown"@ != "BackSpace"@) by {
        reveal_strlit("BackSpace");
        assert("PageDown"@.len() == 8 && "BackSpace"@.len() == 9);
    }
    assert("PageDown"@ != "Up"@) by {
        reveal_strlit("Up");
        assert("PageDown"@.len() == 8 && "Up"@.len() == 2);
    }
    assert("PageDown"@ != "Down"@) by {
        reveal_strlit("Down");
        assert("PageDown"@.len() == 8 && "Down"@.len() == 4);
    }
    assert("PageDown"@ != "Right"@) by {
        reveal_strlit("Right");
        assert("PageDown"@.len() == 8 && "Right"@.len() == 5);
    }
    assert("PageDown"@ != "Left"@) by {
        reveal_strlit("Left");
        assert("PageDown"@.len() == 8 && "Left"@.len() == 4);
    }
    assert("PageDown"@ != "Home"@) by {
        reveal_strlit("Home");
        assert("PageDown"@.len() == 8 && "Home"@.len() == 4);
    }
    assert("PageDown"@ != "End"@) by {
        reveal_strlit("End");
        assert("PageDown"@.len() == 8 && "End"@.len() == 3);
    }
    assert("PageDown"@ != "PageUp"@) by {
        reveal_strlit("PageUp");
        assert("PageDown"@.len() == 8 && "PageUp"@.len() == 6);
    }
    assert("PageDown"@ != "PgUp"@) by {
        reveal_strlit("PgUp");
        assert("PageDown"@.len() == 8 && "PgUp"@.len() == 4);
    }
}

proof fn lemma_name_pgdn()
    ensures
        keys::named_bytes("PgDn"@) == Some(seq![27u8, 91u8, 54u8, 126u8]),
{
    reveal_strlit("PgDn");
    assert("PgDn"@ != "Enter"@) by {
        reveal_strlit("Enter");
        assert("PgDn"@.len() == 4 && "Enter"@.len() == 5);
    }
    assert("PgDn"@ != "Return"@) by {
        reveal_strlit("Return");
        assert("PgDn"@.len() == 4 && "Return"@.len() == 6);
    }
    assert("PgDn"@ != "C-m"@) by {
        reveal_strlit("C-m");
        assert("PgDn"@.len() == 4 && "C-m"@.len() == 3);
    }
    assert("PgDn"@ != "Tab"@) by {
        reveal_strlit("Tab");
        assert("PgDn"@.len() == 4 && "Tab"@.len() == 3);
    }
    assert("PgDn"@ != "BTab"@) by {
        reveal_strlit("BTab");
        assert("PgDn"@[0] == 'P' && "BTab"@[0] == 'B');
    }
    assert("PgDn"@ != "Space"@) by {
        reveal_strlit("Space");
        assert("PgDn"@.len() == 4 && "Space"@.len() == 5);
    }
    assert("PgDn"@ != "Escape"@) by {
        reveal_strlit("Escape");
        assert("PgDn"@.len() == 4 && "Escape"@.len() == 6);
    }
    assert("PgDn"@ != "Esc"@) by {
        reveal_strlit("Esc");
        assert("PgDn"@.len() == 4 && "Esc"@.len() == 3);
    }
    assert("PgDn"@ != "BSpace"@) by {
        reveal_strlit("BSpace");
        assert("PgDn"@.len() == 4 && "BSpace"@.len() == 6);
    }
    assert("PgDn"@ != "BackSpace"@) by {
        reveal_strlit("BackSpace");
        assert("PgDn"@.len() == 4 && "BackSpace"@.len() == 9);
    }
    assert("PgDn"@ != "Up"@) by {
        reveal_strlit("Up");
        assert("PgDn"@.len() == 4 && "Up"@.len() == 2);
    }
    assert("PgDn"@ != "Down"@) by {
        reveal_strlit("Down");
        assert("PgDn"@[0] == 'P' && "Down"@[0] == 'D');
    }
    assert("PgDn"@ != "Right"@) by {
        reveal_strlit("Right");
        assert("PgDn"@.len() == 4 && "Right"@.len() == 5);
    }
    assert("PgDn"@ != "Left"@) by {
        reveal_strlit("Left");
        assert("PgDn"@[0] == 'P' && "Left"@[0] == 'L');
    }
    assert("PgDn"@ != "Home"@) by {
        reveal_strlit("Home");
        assert("PgDn"@[0] == 'P' && "Home"@[0] == 'H');
    }
    assert("PgDn"@ != "End"@) by {
        reveal_strlit("End");
        assert("PgDn"@.len() == 4 && "End"@.len() == 3);
    }
    assert("PgDn"@ != "PageUp"@) by {
        reveal_strlit("PageUp");
        assert("PgDn"@.len() == 4 && "PageUp"@.len() == 6);
    }
    assert("PgDn"@ != "PgUp"@) by {
        reveal_strlit("PgUp");
        assert("PgDn"@[2] == 'D' && "PgUp"@[2] == 'U');
    }
    assert("PgDn"@ != "PageDown"@) by {
        reveal_strlit("PageDown");
        assert("PgDn"@.len() == 4 && "PageDown"@.len() == 8);
    }
}

proof fn lemma_name_insert()
    ensures
        keys::named_bytes("Insert"@) == Some(seq![27u8, 91u8, 50u8, 126u8]),
{
    reveal_strlit("Insert");
    assert("Insert"@ != "Enter"@) by {
        reveal_strlit("Enter");
        assert("Insert"@.len() == 6 && "Enter"@.len() == 5);
    }
    assert("Insert"@ != "Return"@) by {
        reveal_strlit("Return");
        assert("Insert"@[0] == 'I' && "Return"@[0] == 'R');
    }
    assert("Insert"@ != "C-m"@) by {
        reveal_strlit("C-m");
        assert("Insert"@.len() == 6 && "C-m"@.len() == 3);
    }
    assert("Insert"@ != "Tab"@) by {
        reveal_strlit("Tab");
        assert("Insert"@.len() == 6 && "Tab"@.len() == 3);
    }
    assert("Insert"@ != "BTab"@) by {
        reveal_strlit("BTab");
        assert("Insert"@.len() == 6 && "BTab"@.len() == 4);
    }
    assert("Insert"@ != "Space"@) by {
        reveal_strlit("Space");
        assert("Insert"@.len() == 6 && "Space"@.len() == 5);
    }
    assert("Insert"@ != "Escape"@) by {
        reveal_strlit("Escape");
        assert("Insert"@[0] == 'I' && "Escape"@[0] == 'E');
    }
    assert("Insert"@ != "Esc"@) by {
        reveal_strlit("Esc");
        assert("Insert"@.len() == 6 && "Esc"@.len() == 3);
    }
    assert("Insert"@ != "BSpace"@) by {
        reveal_strlit("BSpace");
        assert("Insert"@[0] == 'I' && "BSpace"@[0] == 'B');
    }
    assert("Insert"@ != "BackSpace"@) by {
        reveal_strlit("BackSpace");
        assert("Insert"@.len() == 6 && "BackSpace"@.len() == 9);
    }
    assert("Insert"@ != "Up"@) by {
        reveal_strlit("Up");
        assert("Insert"@.len() == 6 && "Up"@.len() == 2);
    }
    assert("Insert"@ != "Down"@) by {
        reveal_strlit("Down");
        assert("Insert"@.len() == 6 && "Down"@.len() == 4);
    }
    assert("Insert"@ != "Right"@) by {
        reveal_strlit("Right");
        assert("Insert"@.len() == 6 && "Right"@.len() == 5);
    }
    assert("Insert"@ != "Left"@) by {
        reveal_strlit("Left");
        assert("Insert"@.len() == 6 && "Left"@.len() == 4);
    }
    assert("Insert"@ != "Home"@) by {
        reveal_strlit("Home");
        assert("Insert"@.len() == 6 && "Home"@.len() == 4);
    }
    assert("Insert"@ != "End"@) by {
        reveal_strlit("End");
        assert("Insert"@.len() == 6 && "End"@.len() == 3);
    }
    assert("Insert"@ != "PageUp"@) by {
        reveal_strlit("PageUp");
        assert("Insert"@[0] == 'I' && "PageUp"@[0] == 'P');
    }
    assert("Insert"@ != "PgUp"@) by {
        reveal_strlit("PgUp");
        assert("Insert"@.len() == 6 && "PgUp"@.len() == 4);
    }
    assert("Insert"@ != "PageDown"@) by {
        reveal_strlit("PageDown");
        assert("Insert"@.len() == 6 && "PageDown"@.len() == 8);
    }
    assert("Insert"@ != "PgDn"@) by {
        reveal_strlit("PgDn");
        assert("Insert"@.len() == 6 && "PgDn"@.len() == 4);
    }
}

proof fn lemma_name_ic()
    ensures
        keys::named_bytes("IC"@) == Some(seq![27u8, 91u8, 50u8, 126u8]),
{
    reveal_strlit("IC");
    assert("IC"@ != "Enter"@) by {
        reveal_strlit("Enter");
        assert("IC"@.len() == 2 && "Enter"@.len() == 5);
    }
    assert("IC"@ != "Return"@) by {
        reveal_strlit("Return");
        assert("IC"@.len() == 2 && "Return"@.len() == 6);
    }
    assert("IC"@ != "C-m"@) by {
        reveal_strlit("C-m");
        assert("IC"@.len() == 2 && "C-m"@.len() == 3);
    }
    assert("IC"@ != "Tab"@) by {
        reveal_strlit("Tab");
        assert("IC"@.len() == 2 && "Tab"@.len() == 3);
    }
    assert("IC"@ != "BTab"@) by {
        reveal_strlit("BTab");
        assert("IC"@.len() == 2 && "BTab"@.len() == 4);
    }
    assert("IC"@ != "Space"@) by {
        reveal_strlit("Space");
        assert("IC"@.len() == 2 && "Space"@.len() == 5);
    }
    assert("IC"@ != "Escape"@) by {
        reveal_strlit("Escape");
        assert("IC"@.len() == 2 && "Escape"@.len() == 6);
    }
    assert("IC"@ != "Esc"@) by {
        reveal_strlit("Esc");
        assert("IC"@.len() == 2 && "Esc"@.len() == 3);
    }
    assert("IC"@ != "BSpace"@) by {
        reveal_strlit("BSpace");
        assert("IC"@.len() == 2 && "BSpace"@.len() == 6);
    }
    assert("IC"@ != "BackSpace"@) by {
        reveal_strlit("BackSpace");
        assert("IC"@.len() == 2 && "BackSpace"@.len() == 9);
    }
    assert("IC"@ != "Up"@) by {
        reveal_strlit("Up");
        assert("IC"@[0] == 'I' && "Up"@[0] == 'U');
    }
    assert("IC"@ != "Down"@) by {
        reveal_strlit("Down");
        assert("IC"@.len() == 2 && "Down"@.len() == 4);
    }
    assert("IC"@ != "Right"@) by {
        reveal_strlit("Right");
        assert("IC"@.len() == 2 && "Right"@.len() == 5);
    }
    assert("IC"@ != "Left"@) by {
        reveal_strlit("Left");
        assert("IC"@.len() == 2 && "Left"@.len() == 4);
    }
    assert("IC"@ != "Home"@) by {
        reveal_strlit("Home");
        assert("IC"@.len() == 2 && "Home"@.len() == 4);
    }
    assert("IC"@ != "End"@) by {
        reveal_strlit("End");
        assert("IC"@.len() == 2 && "End"@.len() == 3);
    }
    assert("IC"@ != "PageUp"@) by {
        reveal_strlit("PageUp");
        assert("IC"@.len() == 2 && "PageUp"@.len() == 6);
    }
    assert("IC"@ != "PgUp"@) by {
        reveal_strlit("PgUp");
        assert("IC"@.len() == 2 && "PgUp"@.len() == 4);
    }
    assert("IC"@ != "PageDown"@) by {
        reveal_strlit("PageDown");
        assert("IC"@.len() == 2 && "PageDown"@.len() == 8);
    }
    assert("IC"@ != "PgDn"@) by {
        reveal_strlit("PgDn");
        assert("IC"@.len() == 2 && "PgDn"@.len() == 4);
    }
    assert("IC"@ != "Insert"@) by {
        reveal_strlit("Insert");
        assert("IC"@.len() == 2 && "Insert"@.len() == 6);
    }
}

proof fn lemma_name_delete()
    ensures
        keys::named_bytes("Delete"@) == Some(seq![27u8, 91u8, 51u8, 126u8]),
{
    reveal_strlit("Delete");
    assert("Delete"@ != "Enter"@) by {
        reveal_strlit("Enter");
        assert("Delete"@.len() == 6 && "Enter"@.len() == 5);
    }
    assert("Delete"@ != "Return"@) by {
        reveal_strlit("Return");
        assert("Delete"@[0] == 'D' && "Return"@[0] == 'R');
    }
    assert("Delete"@ != "C-m"@) by {
        reveal_strlit("C-m");
        assert("Delete"@.len() == 6 && "C-m"@.len() == 3);
    }
    assert("Delete"@ != "Tab"@) by {
        reveal_strlit("Tab");
        assert("Delete"@.len() == 6 && "Tab"@.len() == 3);
    }
    assert("Delete"@ != "BTab"@) by {
        reveal_strlit("BTab");
        assert("Delete"@.len() == 6 && "BTab"@.len() == 4);
    }
    assert("Delete"@ != "Space"@) by {
        reveal_strlit("Space");
        assert("Delete"@.len() == 6 && "Space"@.len() == 5);
    }
    assert("Delete"@ != "Escape"@) by {
        reveal_strlit("Escape");
        assert("Delete"@[0] == 'D' && "Escape"@[0] == 'E');
    }
    assert("Delete"@ != "Esc"@) by {
        reveal_strlit("Esc");
        assert("Delete"@.len() == 6 && "Esc"@.len() == 3);
    }
    assert("Delete"@ != "BSpace"@) by {
        reveal_strlit("BSpace");
        assert("Delete"@[0] == 'D' && "BSpace"@[0] == 'B');
    }
    assert("Delete"@ != "BackSpace"@) by {
        reveal_strlit("BackSpace");
        assert("Delete"@.len() == 6 && "BackSpace"@.len() == 9);
    }
    assert("Delete"@ != "Up"@) by {
        reveal_strlit("Up");
        assert("Delete"@.len() == 6 && "Up"@.len() == 2);
    }
    assert("Delete"@ != "Down"@) by {
        reveal_strlit("Down");
        assert("Delete"@.len() == 6 && "Down"@.len() == 4);
    }
    assert("Delete"@ != "Right"@) by {
        reveal_strlit("Right");
        assert("Delete"@.len() == 6 && "Right"@.len() == 5);
    }
    assert("Delete"@ != "Left"@) by {
        reveal_strlit("Left");
        assert("Delete"@.len() == 6 && "Left"@.len() == 4);
    }
    assert("Delete"@ != "Home"@) by {
        reveal_strlit("Home");
        assert("Delete"@.len() == 6 && "Home"@.len() == 4);
    }
    assert("Delete"@ != "End"@) by {
        reveal_strlit("End");
        assert("Delete"@.len() == 6 && "End"@.len() == 3);
    }
    assert("Delete"@ != "PageUp"@) by {
        reveal_strlit("PageUp");
        assert("Delete"@[0] == 'D' && "PageUp"@[0] == 'P');
    }
    assert("Delete"@ != "PgUp"@) by {
        reveal_strlit("PgUp");
        assert("Delete"@.len() == 6 && "PgUp"@.len() == 4);
    }
    assert("Delete"@ != "PageDown"@) by {
        reveal_strlit("PageDown");
        assert("Delete"@.len() == 6 && "PageDown"@.len() == 8);
    }
    assert("Delete"@ != "PgDn"@) by {
        reveal_strlit("PgDn");
        assert("Delete"@.len() == 6 && "PgDn"@.len() == 4);
    }
    assert("Delete"@ != "Insert"@) by {
        reveal_strlit("Insert");
        assert("Delete"@[0] == 'D' && "Insert"@[0] == 'I');
    }
    assert("Delete"@ != "IC"@) by {
        reveal_strlit("IC");
        assert("Delete"@.len() == 6 && "IC"@.len() == 2);
    }
}

proof fn lemma_name_dc()
    ensures
        keys::named_bytes("DC"@) == Some(seq![27u8, 91u8, 51u8, 126u8]),
{
    reveal_strlit("DC");
    assert("DC"@ != "Enter"@) by {
        reveal_strlit("Enter");
        assert("DC"@.len() == 2 && "Enter"@.len() == 5);
    }
    assert("DC"@ != "Return"@) by {
        reveal_strlit("Return");
        assert("DC"@.len() == 2 && "Return"@.len() == 6);
    }
    assert("DC"@ != "C-m"@) by {
        reveal_strlit("C-m");
        assert("DC"@.len() == 2 && "C-m"@.len() == 3);
    }
    assert("DC"@ != "Tab"@) by {
        reveal_strlit("Tab");
        assert("DC"@.len() == 2 && "Tab"@.len() == 3);
    }
    assert("DC"@ != "BTab"@) by {
        reveal_strlit("BTab");
        assert("DC"@.len() == 2 && "BTab"@.len() == 4);
    }
    assert("DC"@ != "Space"@) by {
        reveal_strlit("Space");
        assert("DC"@.len() == 2 && "Space"@.len() == 5);
    }
    assert("DC"@ != "Escape"@) by {
        reveal_strlit("Escape");
        assert("DC"@.len() == 2 && "Escape"@.len() == 6);
    }
    assert("DC"@ != "Esc"@) by {
        reveal_strlit("Esc");
        assert("DC"@.len() == 2 && "Esc"@.len() == 3);
    }
    assert("DC"@ != "BSpace"@) by {
        reveal_strlit("BSpace");
        assert("DC"@.len() == 2 && "BSpace"@.len() == 6);
    }
    assert("DC"@ != "BackSpace"@) by {
        reveal_strlit("BackSpace");
        assert("DC"@.len() == 2 && "BackSpace"@.len() == 9);
    }
    assert("DC"@ != "Up"@) by {
        reveal_strlit("Up");
        assert("DC"@[0] == 'D' && "Up"@[0] == 'U');
    }
    assert("DC"@ != "Down"@) by {
        reveal_strlit("Down");
        assert("DC"@.len() == 2 && "Down"@.len() == 4);
    }
    assert("DC"@ != "Right"@) by {
        reveal_strlit("Right");
        assert("DC"@.len() == 2 && "Right"@.len() == 5);
    }
    assert("DC"@ != "Left"@) by {
        reveal_strlit("Left");
        assert("DC"@.len() == 2 && "Left"@.len() == 4);
    }
    assert("DC"@ != "Home"@) by {
        reveal_strlit("Home");
        assert("DC"@.len() == 2 && "Home"@.len() == 4);
    }
    assert("DC"@ != "End"@) by {
        reveal_strlit("End");
        assert("DC"@.len() == 2 && "End"@.len() == 3);
    }
    assert("DC"@ != "PageUp"@) by {
        reveal_strlit("PageUp");
        assert("DC"@.len() == 2 && "PageUp"@.len() == 6);
    }
    assert("DC"@ != "PgUp"@) by {
        reveal_strlit("PgUp");
        assert("DC"@.len() == 2 && "PgUp"@.len() == 4);
    }
    assert("DC"@ != "PageDown"@) by {
        reveal_strlit("PageDown");
        assert("DC"@.len() == 2 && "PageDown"@.len() == 8);
    }
    assert("DC"@ != "PgDn"@) by {
        reveal_strlit("PgDn");
        assert("DC"@.len() == 2 && "PgDn"@.len() == 4);
    }
    assert("DC"@ != "Insert"@) by {
        reveal_strlit("Insert");
        assert("DC"@.len() == 2 && "Insert"@.len() == 6);
    }
    assert("DC"@ != "IC"@) by {
        reveal_strlit("IC");
        assert("DC"@[0] == 'D' && "IC"@[0] == 'I');
    }
    assert("DC"@ != "Delete"@) by {
        reveal_strlit("Delete");
        assert("DC"@.len() == 2 && "Delete"@.len() == 6);
    }
}

proof fn lemma_function_names(n: u8)
    requires
        1 <= n <= 12,
    ensures
        keys::code_bytes(KeyCode::F(n)) == app::plain_bytes(KeyCode::F(n), false),
{
    reveal_strlit("F");
    reveal_strlit("F1");
    reveal_strlit("F2");
    reveal_strlit("F3");
    reveal_strlit("F4");
    reveal_strlit("F5");
    reveal_strlit("F6");
    reveal_strlit("F7");
    reveal_strlit("F8");
    reveal_strlit("F9");
    reveal_strlit("F10");
    reveal_strlit("F11");
    reveal_strlit("F12");
    reveal_with_fuel(text::decimal, 3);
    let name = "F"@ + text::decimal(n as nat);
    assert(name[0] == 'F');
    if n < 10 {
        assert(name =~= seq!['F', (48 + n) as char]);
        assert(name.len() == 2 && name[1] == (48 + n) as char);
    } else {
        assert(name =~= seq!['F', '1', (38 + n) as char]);
        assert(name.len() == 3 && name[2] == (38 + n) as char);
    }
    lemma_not_other_names(name);
    assert(n == 1 ==> name =~= "F1"@);
    assert(n == 2 ==> name =~= "F2"@);
    assert(n == 3 ==> name =~= "F3"@);
    assert(n == 4 ==> name =~= "F4"@);
    assert(n == 5 ==> name =~= "F5"@);
    assert(n == 6 ==> name =~= "F6"@);
    assert(n == 7 ==> name =~= "F7"@);
    assert(n == 8 ==> name =~= "F8"@);
    assert(n == 9 ==> name =~= "F9"@);
    assert(n == 10 ==> name =~= "F10"@);
    assert(n == 11 ==> name =~= "F11"@);
    assert(n == 12 ==> name =~= "F12"@);
    assert("F1"@[1] == '1' && "F2"@[1] == '2' && "F3"@[1] == '3' && "F4"@[1] == '4' && "F5"@[1]
        == '5' && "F6"@[1] == '6' && "F7"@[1] == '7' && "F8"@[1] == '8' && "F9"@[1] == '9');
    assert("F10"@[2] == '0' && "F11"@[2] == '1' && "F12"@[2] == '2');
}

proof fn lemma_not_other_names(name: Seq<char>)
    requires
        name.len() > 0,
        name[0] == 'F',
    ensures
        name != "Enter"@ && name != "Return"@ && name != "C-m"@ && name != "Tab"@ && name
            != "BTab"@ && name != "Space"@ && name != "Escape"@ && name != "Esc"@,
        name != "BSpace"@ && name != "BackSpace"@ && name != "Up"@ && name != "Down"@ && name
            != "Right"@ && name != "Left"@ && name != "Home"@ && name != "End"@,
        name != "PageUp"@ && name != "PgUp"@ && name != "PageDown"@ && name != "PgDn"@ && name
            != "Insert"@ && name != "IC"@ && name != "Delete"@ && name != "DC"@,
{
    reveal_strlit("Enter");
    reveal_strlit("Return");
    reveal_strlit("C-m");
    reveal_strlit("Tab");
    reveal_strlit("BTab");
    reveal_strlit("Space");
    reveal_strlit("Escape");
    reveal_strlit("Esc");
    reveal_strlit("BSpace");
    reveal_strlit("BackSpace");
    reveal_strlit("Up");
    reveal_strlit("Down");
    reveal_strlit("Right");
    reveal_strlit("Left");
    reveal_strlit("Home");
    reveal_strlit("End");
    reveal_strlit("PageUp");
    reveal_strlit("PgUp");
    reveal_strlit("PageDown");
    reveal_strlit("PgDn");
    reveal_strlit("Insert");
    reveal_strlit("IC");
    reveal_strlit("Delete");
    reveal_strlit("DC");
}

/// A control chord that is sent by name is the byte that the chord types.
pub proof fn law_control_chords_are_pressed_keys(c: char)
    requires
        'a' <= c <= 'z',
    ensures
        keys::control_code(c) is Some,
        app::plain_bytes(KeyCode::Char(c), true) == Some(seq![keys::control_code(c)->0]),
        keys::control_code(c)->0 == c as int - 96,
{
    crate::laws::driving::law_letters_are_sent(c, c as int - 96);
    assert((96 + (c as int - 96)) as char == c);
}

/// Keys that are sent one after the other are the bytes of each, in order, and the first
/// that is not known stops them all.
pub proof fn law_keys_are_sent_in_order(tokens: Seq<Seq<char>>, token: Seq<char>)
    ensures
        keys::keys_input(Seq::empty()) == Ok::<Seq<u8>, Seq<char>>(Seq::empty()),
        keys::keys_input(tokens) is Err ==> keys::keys_input(tokens.push(token))
            == keys::keys_input(tokens),
        keys::keys_input(tokens) is Ok && keys::key_input(token) is Err ==> keys::keys_input(
            tokens.push(token),
        ) == keys::key_input(token),
        keys::keys_input(tokens) is Ok && keys::key_input(token) is Ok ==> keys::keys_input(
            tokens.push(token),
        ) == Ok::<Seq<u8>, Seq<char>>(keys::keys_input(tokens)->Ok_0 + keys::key_input(token)->Ok_0),
{
    assert(tokens.push(token).drop_last() =~= tokens);
}

} // verus!
