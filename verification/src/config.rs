//! Configuration: key chords, bindings, themes and colors.

use vstd::prelude::*;

use crate::event::{KeyCode, KeyEvent, KeyModifiers};
use crate::proto::{ClientMessage, Direction};
use crate::text;

verus! {

// ------------------------------------------------------------------------ actions

#[derive(Debug, Clone, Copy, PartialEq, Eq, Hash, Structural)]
pub enum Action {
    SplitRight,
    SplitDown,
    ClosePane,
    NewTab,
    NextTab,
    PrevTab,
    Zoom,
    Detach,
    Rename,
    WorkspaceNext,
    NewWorkspace,
    SidebarToggle,
    FocusUp,
    FocusDown,
    FocusLeft,
    FocusRight,
    ResizeUp,
    ResizeDown,
    ResizeLeft,
    ResizeRight,
    Navigate,
    CopyMode,
    Help,
}

/// The name of an action in the configuration.
pub open spec fn action_name(action: Action) -> Seq<char> {
    match action {
        Action::SplitRight => "split_right"@,
        Action::SplitDown => "split_down"@,
        Action::ClosePane => "close_pane"@,
        Action::NewTab => "new_tab"@,
        Action::NextTab => "next_tab"@,
        Action::PrevTab => "prev_tab"@,
        Action::Zoom => "zoom"@,
        Action::Detach => "detach"@,
        Action::Rename => "rename"@,
        Action::WorkspaceNext => "workspace_next"@,
        Action::NewWorkspace => "new_workspace"@,
        Action::SidebarToggle => "sidebar_toggle"@,
        Action::FocusUp => "focus_up"@,
        Action::FocusDown => "focus_down"@,
        Action::FocusLeft => "focus_left"@,
        Action::FocusRight => "focus_right"@,
        Action::ResizeUp => "resize_up"@,
        Action::ResizeDown => "resize_down"@,
        Action::ResizeLeft => "resize_left"@,
        Action::ResizeRight => "resize_right"@,
        Action::Navigate => "navigate"@,
        Action::CopyMode => "copy_mode"@,
        Action::Help => "help"@,
    }
}

impl Action {
    /// The name of an action in the configuration.
    pub fn name(self) -> (r: &'static str)
        ensures
            r@ == action_name(self),
    {
        match self {
            Action::SplitRight => "split_right",
            Action::SplitDown => "split_down",
            Action::ClosePane => "close_pane",
            Action::NewTab => "new_tab",
            Action::NextTab => "next_tab",
            Action::PrevTab => "prev_tab",
            Action::Zoom => "zoom",
            Action::Detach => "detach",
            Action::Rename => "rename",
            Action::WorkspaceNext => "workspace_next",
            Action::NewWorkspace => "new_workspace",
            Action::SidebarToggle => "sidebar_toggle",
            Action::FocusUp => "focus_up",
            Action::FocusDown => "focus_down",
            Action::FocusLeft => "focus_left",
            Action::FocusRight => "focus_right",
            Action::ResizeUp => "resize_up",
            Action::ResizeDown => "resize_down",
            Action::ResizeLeft => "resize_left",
            Action::ResizeRight => "resize_right",
            Action::Navigate => "navigate",
            Action::CopyMode => "copy_mode",
            Action::Help => "help",
        }
    }

    /// Every action, in the order in which they are listed.
    pub open spec fn listed() -> Seq<Action> {
        seq![
            Action::SplitRight,
            Action::SplitDown,
            Action::ClosePane,
            Action::NewTab,
            Action::NextTab,
            Action::PrevTab,
            Action::Zoom,
            Action::Detach,
            Action::Rename,
            Action::WorkspaceNext,
            Action::NewWorkspace,
            Action::SidebarToggle,
            Action::FocusUp,
            Action::FocusDown,
            Action::FocusLeft,
            Action::FocusRight,
            Action::ResizeUp,
            Action::ResizeDown,
            Action::ResizeLeft,
            Action::ResizeRight,
            Action::Navigate,
            Action::CopyMode,
            Action::Help,
        ]
    }

    /// Every action, in the order in which they are listed.
    pub fn all() -> (r: Vec<Action>)
        ensures
            r@ == Self::listed(),
    {
        let actions: Vec<Action> = vec![
            Action::SplitRight,
            Action::SplitDown,
            Action::ClosePane,
            Action::NewTab,
            Action::NextTab,
            Action::PrevTab,
            Action::Zoom,
            Action::Detach,
            Action::Rename,
            Action::WorkspaceNext,
            Action::NewWorkspace,
            Action::SidebarToggle,
            Action::FocusUp,
            Action::FocusDown,
            Action::FocusLeft,
            Action::FocusRight,
            Action::ResizeUp,
            Action::ResizeDown,
            Action::ResizeLeft,
            Action::ResizeRight,
            Action::Navigate,
            Action::CopyMode,
            Action::Help,
        ];
        assert(actions@ =~= Self::listed());
        actions
    }

    /// The action with a name.
    pub fn parse(name: &str) -> (r: Option<Self>)
        ensures
            r matches Some(action) ==> action_name(action) == name@,
            r is None ==> forall|action: Action| action_name(action) != name@,
    {
        if text::same(name, "split_right") {
            Some(Action::SplitRight)
        } else if text::same(name, "split_down") {
            Some(Action::SplitDown)
        } else if text::same(name, "close_pane") {
            Some(Action::ClosePane)
        } else if text::same(name, "new_tab") {
            Some(Action::NewTab)
        } else if text::same(name, "next_tab") {
            Some(Action::NextTab)
        } else if text::same(name, "prev_tab") {
            Some(Action::PrevTab)
        } else if text::same(name, "zoom") {
            Some(Action::Zoom)
        } else if text::same(name, "detach") {
            Some(Action::Detach)
        } else if text::same(name, "rename") {
            Some(Action::Rename)
        } else if text::same(name, "workspace_next") {
            Some(Action::WorkspaceNext)
        } else if text::same(name, "new_workspace") {
            Some(Action::NewWorkspace)
        } else if text::same(name, "sidebar_toggle") {
            Some(Action::SidebarToggle)
        } else if text::same(name, "focus_up") {
            Some(Action::FocusUp)
        } else if text::same(name, "focus_down") {
            Some(Action::FocusDown)
        } else if text::same(name, "focus_left") {
            Some(Action::FocusLeft)
        } else if text::same(name, "focus_right") {
            Some(Action::FocusRight)
        } else if text::same(name, "resize_up") {
            Some(Action::ResizeUp)
        } else if text::same(name, "resize_down") {
            Some(Action::ResizeDown)
        } else if text::same(name, "resize_left") {
            Some(Action::ResizeLeft)
        } else if text::same(name, "resize_right") {
            Some(Action::ResizeRight)
        } else if text::same(name, "navigate") {
            Some(Action::Navigate)
        } else if text::same(name, "copy_mode") {
            Some(Action::CopyMode)
        } else if text::same(name, "help") {
            Some(Action::Help)
        } else {
            None
        }
    }

    /// Whether a message is the one that an action sends.
    pub open spec fn sends(self, message: Option<ClientMessage>) -> bool {
        match self {
            Action::SplitRight => message == Some(ClientMessage::SplitRight),
            Action::SplitDown => message == Some(ClientMessage::SplitDown),
            Action::ClosePane => message == Some(ClientMessage::ClosePane),
            Action::NewTab => message == Some(ClientMessage::NewTab),
            Action::NextTab => message == Some(ClientMessage::NextTab),
            Action::PrevTab => message == Some(ClientMessage::PrevTab),
            Action::Zoom => message == Some(ClientMessage::ZoomPane),
            Action::WorkspaceNext => message == Some(
                ClientMessage::SelectWorkspaceDelta { delta: 1 },
            ),
            Action::NewWorkspace => message matches Some(
                ClientMessage::NewWorkspace { name, root },
            ) && name@ == "workspace"@ && root is None,
            Action::FocusUp => message == Some(ClientMessage::FocusPane { direction: Direction::Up }),
            Action::FocusDown => message == Some(
                ClientMessage::FocusPane { direction: Direction::Down },
            ),
            Action::FocusLeft => message == Some(
                ClientMessage::FocusPane { direction: Direction::Left },
            ),
            Action::FocusRight => message == Some(
                ClientMessage::FocusPane { direction: Direction::Right },
            ),
            Action::ResizeUp => message == Some(
                ClientMessage::ResizePane { direction: Direction::Up, cells: 2 },
            ),
            Action::ResizeDown => message == Some(
                ClientMessage::ResizePane { direction: Direction::Down, cells: 2 },
            ),
            Action::ResizeLeft => message == Some(
                ClientMessage::ResizePane { direction: Direction::Left, cells: 2 },
            ),
            Action::ResizeRight => message == Some(
                ClientMessage::ResizePane { direction: Direction::Right, cells: 2 },
            ),
            Action::Detach => message is None,
            Action::Rename => message is None,
            Action::SidebarToggle => message is None,
            Action::Navigate => message is None,
            Action::CopyMode => message is None,
            Action::Help => message is None,
        }
    }

    /// The message that an action sends, for those that send one as they are.
    pub fn message(self) -> (r: Option<ClientMessage>)
        ensures
            self.sends(r),
    {
        match self {
            Action::SplitRight => Some(ClientMessage::SplitRight),
            Action::SplitDown => Some(ClientMessage::SplitDown),
            Action::ClosePane => Some(ClientMessage::ClosePane),
            Action::NewTab => Some(ClientMessage::NewTab),
            Action::NextTab => Some(ClientMessage::NextTab),
            Action::PrevTab => Some(ClientMessage::PrevTab),
            Action::Zoom => Some(ClientMessage::ZoomPane),
            Action::WorkspaceNext => Some(ClientMessage::SelectWorkspaceDelta { delta: 1 }),
            Action::NewWorkspace => Some(
                ClientMessage::NewWorkspace { name: "workspace".to_owned(), root: None },
            ),
            Action::FocusUp => Some(ClientMessage::FocusPane { direction: Direction::Up }),
            Action::FocusDown => Some(ClientMessage::FocusPane { direction: Direction::Down }),
            Action::FocusLeft => Some(ClientMessage::FocusPane { direction: Direction::Left }),
            Action::FocusRight => Some(ClientMessage::FocusPane { direction: Direction::Right }),
            Action::ResizeUp => Some(
                ClientMessage::ResizePane { direction: Direction::Up, cells: 2 },
            ),
            Action::ResizeDown => Some(
                ClientMessage::ResizePane { direction: Direction::Down, cells: 2 },
            ),
            Action::ResizeLeft => Some(
                ClientMessage::ResizePane { direction: Direction::Left, cells: 2 },
            ),
            Action::ResizeRight => Some(
                ClientMessage::ResizePane { direction: Direction::Right, cells: 2 },
            ),
            Action::Detach
            | Action::Rename
            | Action::SidebarToggle
            | Action::Navigate
            | Action::CopyMode
            | Action::Help => None,
        }
    }
}

// --------------------------------------------------------------------- key chords

/// The key that a chord names after its modifier.
pub open spec fn chord_code(key: Seq<char>) -> Option<KeyCode> {
    if key == "up"@ {
        Some(KeyCode::Up)
    } else if key == "down"@ {
        Some(KeyCode::Down)
    } else if key == "left"@ {
        Some(KeyCode::Left)
    } else if key == "right"@ {
        Some(KeyCode::Right)
    } else if key == "tab"@ {
        Some(KeyCode::Tab)
    } else if key == "space"@ {
        Some(KeyCode::Char(' '))
    } else if key.len() == 2 && key[0] == 'F' && text::ascii_digit(key[1]) {
        Some(KeyCode::F(((key[1] as int) - ('0' as int)) as u8))
    } else if key.len() == 1 {
        Some(KeyCode::Char(key[0]))
    } else {
        None
    }
}

/// A chord without a modifier in front, and whether it had that.
pub open spec fn unmodified(v: Seq<char>, modifier: Seq<char>) -> (bool, Seq<char>) {
    if modifier.is_prefix_of(v) {
        (true, v.skip(modifier.len() as int))
    } else {
        (false, v)
    }
}

/// The key event of a chord: control, then alt, then a key.
pub open spec fn chord(value: Seq<char>) -> Option<KeyEvent> {
    let v = text::trim(value);
    let (control, rest) = unmodified(v, "ctrl+"@);
    let (alt, key) = unmodified(rest, "alt+"@);
    match chord_code(key) {
        Some(code) => Some(
            KeyEvent { code, modifiers: KeyModifiers { shift: false, control, alt } },
        ),
        None => None,
    }
}

fn without_modifier<'a>(v: &'a str, modifier: &str) -> (r: (bool, &'a str))
    ensures
        (r.0, r.1@) == unmodified(v@, modifier@),
{
    match text::strip_prefix(v, modifier) {
        Some(rest) => (true, rest),
        None => (false, v),
    }
}

fn code_of(key: &str) -> (r: Option<KeyCode>)
    ensures
        r == chord_code(key@),
{
    if text::same(key, "up") {
        return Some(KeyCode::Up);
    }
    if text::same(key, "down") {
        return Some(KeyCode::Down);
    }
    if text::same(key, "left") {
        return Some(KeyCode::Left);
    }
    if text::same(key, "right") {
        return Some(KeyCode::Right);
    }
    if text::same(key, "tab") {
        return Some(KeyCode::Tab);
    }
    if text::same(key, "space") {
        return Some(KeyCode::Char(' '));
    }
    let chars = text::chars_of(key);
    if chars.len() == 2 && chars[0] == 'F' && text::is_ascii_digit(chars[1]) {
        Some(KeyCode::F((chars[1] as u8) - 48))
    } else if chars.len() == 1 {
        Some(KeyCode::Char(chars[0]))
    } else {
        None
    }
}

pub fn parse_key_chord(value: &str) -> (r: Result<KeyEvent, String>)
    ensures
        match chord(value@) {
            Some(key) => r == Ok::<KeyEvent, String>(key),
            None => text::fault(r) == Some("unsupported key chord "@ + text::trim(value@)),
        },
{
    let value = text::trimmed(value);
    let (control, rest) = without_modifier(value, "ctrl+");
    let (alt, key) = without_modifier(rest, "alt+");
    let modifiers = KeyModifiers { shift: false, control, alt };
    match code_of(key) {
        Some(code) => Ok(KeyEvent { code, modifiers }),
        None => Err(text::cat("unsupported key chord ", value)),
    }
}

/// The chord of a binding without the words for the prefix.
pub open spec fn bare_chord(value: Seq<char>) -> Seq<char> {
    unmodified(text::trim(value), "prefix+"@).1
}

/// What a binding in the configuration names: whether it works on its own, and the
/// key. A chord with a modifier does, unless it is written after the prefix.
pub open spec fn binding_of(value: Seq<char>) -> Option<(bool, KeyEvent)> {
    match chord(bare_chord(value)) {
        Some(key) => Some(
            (
                !unmodified(text::trim(value), "prefix+"@).0 && (key.modifiers.control
                    || key.modifiers.alt),
                key,
            ),
        ),
        None => None,
    }
}

/// Reads a binding of the configuration.
pub fn parse_binding(value: &str) -> (r: Result<(bool, KeyEvent), String>)
    ensures
        match binding_of(value@) {
            Some(binding) => r == Ok::<(bool, KeyEvent), String>(binding),
            None => text::fault(r) == Some(
                "unsupported key chord "@ + text::trim(bare_chord(value@)),
            ),
        },
{
    let (prefixed, bare) = without_modifier(text::trimmed(value), "prefix+");
    match parse_key_chord(bare) {
        Ok(key) => Ok((!prefixed && (key.modifiers.control || key.modifiers.alt), key)),
        Err(error) => Err(error),
    }
}

// ------------------------------------------------------------------ configuration

#[derive(Debug, Clone, Copy, PartialEq, Eq, Structural)]
pub enum ThemeChoice {
    Dark,
    Light,
    Auto,
    Named,
}

#[derive(Debug, Clone, PartialEq, Eq)]
pub struct Config {
    pub theme: ThemeChoice,
    pub mouse: bool,
    pub sidebar: bool,
    pub prefix: KeyEvent,
    /// What each key does after the prefix; no key occurs twice.
    pub bindings: Vec<(KeyEvent, Action)>,
    /// What each key does on its own; no key occurs twice.
    pub globals: Vec<(KeyEvent, Action)>,
    pub named_theme: Option<String>,
    /// What was wrong with the file, in the order it was met.
    pub warnings: Vec<String>,
}

/// What a configuration file says.
#[derive(Debug, Clone, PartialEq, Eq)]
pub struct FileConfig {
    pub theme: Option<String>,
    pub mouse: Option<bool>,
    pub sidebar: Option<bool>,
    /// Action names and their chords, in the order they are read.
    pub keys: Option<Vec<(String, Vec<String>)>>,
}

impl Default for FileConfig {
    fn default() -> (r: Self)
        ensures
            r.theme is None,
            r.mouse is None,
            r.sidebar is None,
            r.keys is None,
    {
        FileConfig { theme: None, mouse: None, sidebar: None, keys: None }
    }
}

/// What a key is bound to.
pub open spec fn bound(bindings: Seq<(KeyEvent, Action)>, key: KeyEvent) -> Option<Action>
    decreases bindings.len(),
{
    if bindings.len() == 0 {
        None
    } else if bindings.last().0 == key {
        Some(bindings.last().1)
    } else {
        bound(bindings.drop_last(), key)
    }
}

pub open spec fn plain(code: KeyCode) -> KeyEvent {
    KeyEvent { code, modifiers: KeyModifiers::spec_none() }
}

/// The bindings that hold without a configuration file.
pub open spec fn default_bindings() -> Seq<(KeyEvent, Action)> {
    seq![
        (plain(KeyCode::Char('%')), Action::SplitRight),
        (plain(KeyCode::Char('"')), Action::SplitDown),
        (plain(KeyCode::Char('x')), Action::ClosePane),
        (plain(KeyCode::Char('c')), Action::NewTab),
        (plain(KeyCode::Char('n')), Action::Navigate),
        (plain(KeyCode::Tab), Action::NextTab),
        (plain(KeyCode::Char('p')), Action::PrevTab),
        (plain(KeyCode::Char('z')), Action::Zoom),
        (plain(KeyCode::Char('d')), Action::Detach),
        (plain(KeyCode::Char('r')), Action::Rename),
        (plain(KeyCode::Char('w')), Action::WorkspaceNext),
        (plain(KeyCode::Char('W')), Action::NewWorkspace),
        (plain(KeyCode::Char('b')), Action::SidebarToggle),
        (plain(KeyCode::Char('[')), Action::CopyMode),
        (plain(KeyCode::Char('?')), Action::Help),
        (plain(KeyCode::Up), Action::FocusUp),
        (plain(KeyCode::Down), Action::FocusDown),
        (plain(KeyCode::Left), Action::FocusLeft),
        (plain(KeyCode::Right), Action::FocusRight),
        (plain(KeyCode::Char('k')), Action::FocusUp),
        (plain(KeyCode::Char('j')), Action::FocusDown),
        (plain(KeyCode::Char('h')), Action::FocusLeft),
        (plain(KeyCode::Char('l')), Action::FocusRight),
        (plain(KeyCode::Char('K')), Action::ResizeUp),
        (plain(KeyCode::Char('J')), Action::ResizeDown),
        (plain(KeyCode::Char('H')), Action::ResizeLeft),
        (plain(KeyCode::Char('L')), Action::ResizeRight),
    ]
}

/// The prefix that holds without a configuration file.
pub open spec fn default_prefix() -> KeyEvent {
    KeyEvent {
        code: KeyCode::Char('b'),
        modifiers: KeyModifiers { shift: false, control: true, alt: false },
    }
}

fn plain_key(code: KeyCode) -> (r: KeyEvent)
    ensures
        r == plain(code),
{
    KeyEvent { code, modifiers: KeyModifiers::none() }
}

impl Default for Config {
    fn default() -> (r: Self)
        ensures
            r.theme == ThemeChoice::Auto,
            r.mouse,
            r.sidebar,
            r.prefix == default_prefix(),
            r.bindings@ == default_bindings(),
            r.globals@.len() == 0,
            r.named_theme is None,
            r.warnings@.len() == 0,
    {
        let bindings: Vec<(KeyEvent, Action)> = vec![
            (plain_key(KeyCode::Char('%')), Action::SplitRight),
            (plain_key(KeyCode::Char('"')), Action::SplitDown),
            (plain_key(KeyCode::Char('x')), Action::ClosePane),
            (plain_key(KeyCode::Char('c')), Action::NewTab),
            (plain_key(KeyCode::Char('n')), Action::Navigate),
            (plain_key(KeyCode::Tab), Action::NextTab),
            (plain_key(KeyCode::Char('p')), Action::PrevTab),
            (plain_key(KeyCode::Char('z')), Action::Zoom),
            (plain_key(KeyCode::Char('d')), Action::Detach),
            (plain_key(KeyCode::Char('r')), Action::Rename),
            (plain_key(KeyCode::Char('w')), Action::WorkspaceNext),
            (plain_key(KeyCode::Char('W')), Action::NewWorkspace),
            (plain_key(KeyCode::Char('b')), Action::SidebarToggle),
            (plain_key(KeyCode::Char('[')), Action::CopyMode),
            (plain_key(KeyCode::Char('?')), Action::Help),
            (plain_key(KeyCode::Up), Action::FocusUp),
            (plain_key(KeyCode::Down), Action::FocusDown),
            (plain_key(KeyCode::Left), Action::FocusLeft),
            (plain_key(KeyCode::Right), Action::FocusRight),
            (plain_key(KeyCode::Char('k')), Action::FocusUp),
            (plain_key(KeyCode::Char('j')), Action::FocusDown),
            (plain_key(KeyCode::Char('h')), Action::FocusLeft),
            (plain_key(KeyCode::Char('l')), Action::FocusRight),
            (plain_key(KeyCode::Char('K')), Action::ResizeUp),
            (plain_key(KeyCode::Char('J')), Action::ResizeDown),
            (plain_key(KeyCode::Char('H')), Action::ResizeLeft),
            (plain_key(KeyCode::Char('L')), Action::ResizeRight),
        ];
        assert(bindings@ =~= default_bindings());
        Config {
            theme: ThemeChoice::Auto,
            mouse: true,
            sidebar: true,
            prefix: KeyEvent {
                code: KeyCode::Char('b'),
                modifiers: KeyModifiers { shift: false, control: true, alt: false },
            },
            bindings,
            globals: Vec::new(),
            named_theme: None,
            warnings: Vec::new(),
        }
    }
}

/// The bindings after giving an action one key: the action's other keys are
/// freed, and whatever the key did before is gone.
pub open spec fn rebound(bindings: Seq<(KeyEvent, Action)>, key: KeyEvent, action: Action) -> Seq<
    (KeyEvent, Action),
> {
    kept(bindings, Some(key), Some(action)).push((key, action))
}

/// The bindings after giving an action one key more: whatever the key did before is
/// gone.
pub open spec fn added(bindings: Seq<(KeyEvent, Action)>, key: KeyEvent, action: Action) -> Seq<
    (KeyEvent, Action),
> {
    kept(bindings, Some(key), None).push((key, action))
}

/// The bindings after freeing the keys of an action.
pub open spec fn freed(bindings: Seq<(KeyEvent, Action)>, action: Action) -> Seq<
    (KeyEvent, Action),
> {
    kept(bindings, None, Some(action))
}

/// The bindings of other keys to other actions, in order.
pub open spec fn kept(
    bindings: Seq<(KeyEvent, Action)>,
    key: Option<KeyEvent>,
    action: Option<Action>,
) -> Seq<(KeyEvent, Action)>
    decreases bindings.len(),
{
    if bindings.len() == 0 {
        Seq::empty()
    } else {
        let front = kept(bindings.drop_last(), key, action);
        if Some(bindings.last().0) != key && Some(bindings.last().1) != action {
            front.push(bindings.last())
        } else {
            front
        }
    }
}

fn keep(
    bindings: &Vec<(KeyEvent, Action)>,
    key: Option<KeyEvent>,
    action: Option<Action>,
) -> (r: Vec<(KeyEvent, Action)>)
    ensures
        r@ == kept(bindings@, key, action),
{
    let mut out: Vec<(KeyEvent, Action)> = Vec::new();
    let mut i: usize = 0;
    while i < bindings.len()
        invariant
            i <= bindings@.len(),
            out@ == kept(bindings@.take(i as int), key, action),
        decreases bindings@.len() - i,
    {
        assert(bindings@.take(i + 1).drop_last() =~= bindings@.take(i as int));
        assert(bindings@.take(i + 1).last() == bindings@[i as int]);
        let (k, a) = bindings[i];
        let same_key = match key {
            Some(key) => k == key,
            None => false,
        };
        let same_action = match action {
            Some(action) => a == action,
            None => false,
        };
        if !same_key && !same_action {
            out.push((k, a));
        }
        i += 1;
    }
    assert(bindings@.take(i as int) =~= bindings@);
    out
}

/// After rebinding, the key does the action, no other key does it, and every
/// key that did something else still does.
pub proof fn law_rebinding_replaces(
    bindings: Seq<(KeyEvent, Action)>,
    key: KeyEvent,
    action: Action,
    other: KeyEvent,
)
    requires
        one_action_per_key(bindings),
    ensures
        bound(rebound(bindings, key, action), key) == Some(action),
        other != key ==> bound(rebound(bindings, key, action), other) == (match bound(
            bindings,
            other,
        ) {
            Some(a) => if a == action {
                None
            } else {
                Some(a)
            },
            None => None,
        }),
        one_action_per_key(rebound(bindings, key, action)),
{
    lemma_kept(bindings, Some(key), Some(action), other);
    lemma_kept_keys(bindings, Some(key), Some(action));
    let all = rebound(bindings, key, action);
    assert(all.drop_last() =~= kept(bindings, Some(key), Some(action)));
}

/// No key occurs twice.
pub open spec fn one_action_per_key(bindings: Seq<(KeyEvent, Action)>) -> bool {
    forall|i: int, j: int|
        0 <= i < j < bindings.len() ==> (#[trigger] bindings[i]).0 != (#[trigger] bindings[j]).0
}

proof fn lemma_bound(bindings: Seq<(KeyEvent, Action)>, key: KeyEvent)
    ensures
        bound(bindings, key) matches Some(a) ==> bindings.contains((key, a)),
        bound(bindings, key) is None ==> forall|i: int|
            0 <= i < bindings.len() ==> (#[trigger] bindings[i]).0 != key,
    decreases bindings.len(),
{
    if bindings.len() > 0 {
        let front = bindings.drop_last();
        lemma_bound(front, key);
        if bindings.last().0 == key {
            assert(bindings[bindings.len() - 1] == (key, bindings.last().1));
        } else {
            if bound(front, key) is Some {
                let k = choose|k: int|
                    0 <= k < front.len() && front[k] == (key, bound(front, key)->0);
                assert(bindings[k] == (key, bound(front, key)->0));
            } else {
                assert forall|i: int| 0 <= i < bindings.len() implies (#[trigger] bindings[i]).0
                    != key by {
                    if i < front.len() {
                        assert(front[i] == bindings[i]);
                    }
                }
            }
        }
    }
}

proof fn lemma_kept(
    bindings: Seq<(KeyEvent, Action)>,
    key: Option<KeyEvent>,
    action: Option<Action>,
    other: KeyEvent,
)
    requires
        one_action_per_key(bindings),
    ensures
        Some(other) != key ==> bound(kept(bindings, key, action), other) == (match bound(
            bindings,
            other,
        ) {
            Some(a) => if Some(a) == action {
                None
            } else {
                Some(a)
            },
            None => None,
        }),
    decreases bindings.len(),
{
    if bindings.len() > 0 {
        let front = bindings.drop_last();
        lemma_kept(front, key, action, other);
        let k = kept(bindings, key, action);
        let f = kept(front, key, action);
        if Some(bindings.last().0) != key && Some(bindings.last().1) != action {
            assert(k.drop_last() =~= f);
        }
        if Some(other) != key && bindings.last().0 == other && Some(bindings.last().1) == action {
            // The front holds no other entry for this key.
            lemma_bound(front, other);
            if bound(front, other) is Some {
                let m = choose|m: int|
                    0 <= m < front.len() && front[m] == (other, bound(front, other)->0);
                assert(bindings[m].0 != bindings[bindings.len() - 1].0);
            }
        }
    }
}

proof fn lemma_kept_keys(
    bindings: Seq<(KeyEvent, Action)>,
    key: Option<KeyEvent>,
    action: Option<Action>,
)
    requires
        one_action_per_key(bindings),
    ensures
        one_action_per_key(kept(bindings, key, action)),
        forall|i: int|
            0 <= i < kept(bindings, key, action).len() ==> Some(
                (#[trigger] kept(bindings, key, action)[i]).0,
            ) != key && bindings.contains(kept(bindings, key, action)[i]),
    decreases bindings.len(),
{
    if bindings.len() > 0 {
        let front = bindings.drop_last();
        lemma_kept_keys(front, key, action);
        let k = kept(bindings, key, action);
        let f = kept(front, key, action);
        assert forall|i: int| 0 <= i < k.len() implies Some((#[trigger] k[i]).0) != key
            && bindings.contains(k[i]) by {
            if i < f.len() {
                assert(k[i] == f[i]);
                let m = choose|m: int| 0 <= m < front.len() && front[m] == f[i];
                assert(bindings[m] == f[i]);
            } else {
                assert(bindings[bindings.len() - 1] == k[i]);
            }
        }
        assert forall|i: int, j: int| 0 <= i < j < k.len() implies (#[trigger] k[i]).0 != (
        #[trigger] k[j]).0 by {
            assert(k[i] == f[i]);
            if j < f.len() {
                assert(k[j] == f[j]);
            } else {
                let m = choose|m: int| 0 <= m < front.len() && front[m] == f[i];
                assert(bindings[m].0 != bindings[bindings.len() - 1].0);
            }
        }
    }
}

/// The key part of a configuration.
#[verifier::ext_equal]
pub struct KeyState {
    pub prefix: KeyEvent,
    pub bindings: Seq<(KeyEvent, Action)>,
    pub globals: Seq<(KeyEvent, Action)>,
    pub warnings: Seq<Seq<char>>,
}

/// What holds without a configuration file.
pub open spec fn default_keys() -> KeyState {
    KeyState {
        prefix: default_prefix(),
        bindings: default_bindings(),
        globals: Seq::empty(),
        warnings: Seq::empty(),
    }
}

/// A chord given to an action. The first one takes the place of the action's earlier
/// keys, the others are added to it.
pub open spec fn with_chord(
    state: KeyState,
    action: Action,
    first: bool,
    value: Seq<char>,
) -> KeyState {
    match binding_of(value) {
        Some((true, key)) => KeyState {
            bindings: if first {
                freed(state.bindings, action)
            } else {
                state.bindings
            },
            globals: if first {
                rebound(state.globals, key, action)
            } else {
                added(state.globals, key, action)
            },
            ..state
        },
        Some((false, key)) => KeyState {
            bindings: if first {
                rebound(state.bindings, key, action)
            } else {
                added(state.bindings, key, action)
            },
            globals: if first {
                freed(state.globals, action)
            } else {
                state.globals
            },
            ..state
        },
        None => KeyState {
            warnings: state.warnings.push(
                "kodade-cli: warning: invalid key "@ + action_name(action) + ": "@
                    + "unsupported key chord "@ + text::trim(bare_chord(value)),
            ),
            ..state
        },
    }
}

/// Whether any of the first `count` bindings can be read.
pub open spec fn any_read(values: Seq<String>, count: int) -> bool
    decreases count,
{
    count > 0 && (any_read(values, count - 1) || binding_of(values[count - 1]@) is Some)
}

/// The first `count` chords given to an action.
pub open spec fn with_chords(
    state: KeyState,
    action: Action,
    values: Seq<String>,
    count: int,
) -> KeyState
    decreases count,
{
    if count <= 0 {
        state
    } else {
        with_chord(
            with_chords(state, action, values, count - 1),
            action,
            !any_read(values, count - 1),
            values[count - 1]@,
        )
    }
}

/// The prefix set to the first `count` chords in turn.
pub open spec fn with_prefix(state: KeyState, values: Seq<String>, count: int) -> KeyState
    decreases count,
{
    if count <= 0 {
        state
    } else {
        let before = with_prefix(state, values, count - 1);
        match chord(values[count - 1]@) {
            Some(key) => KeyState { prefix: key, ..before },
            None => KeyState {
                warnings: before.warnings.push(
                    "kodade-cli: warning: invalid key prefix: "@ + "unsupported key chord "@
                        + text::trim(values[count - 1]@),
                ),
                ..before
            },
        }
    }
}

/// One entry of the key table.
pub open spec fn with_entry(state: KeyState, name: Seq<char>, values: Seq<String>) -> KeyState {
    if name == "prefix"@ {
        with_prefix(state, values, values.len() as int)
    } else {
        match action_named(name) {
            Some(action) => with_chords(state, action, values, values.len() as int),
            None => KeyState {
                warnings: state.warnings.push(
                    "kodade-cli: warning: unknown key action "@ + name,
                ),
                ..state
            },
        }
    }
}

/// The first `count` entries of the key table.
pub open spec fn keys_applied(keys: Seq<(String, Vec<String>)>, count: int) -> KeyState
    decreases count,
{
    if count <= 0 {
        default_keys()
    } else {
        with_entry(keys_applied(keys, count - 1), keys[count - 1].0@, keys[count - 1].1@)
    }
}

/// The action with a name.
pub open spec fn action_named(name: Seq<char>) -> Option<Action> {
    if exists|action: Action| action_name(action) == name {
        Some(choose|action: Action| action_name(action) == name)
    } else {
        None
    }
}

/// No two actions share a name.
pub proof fn law_action_names_are_distinct(a: Action, b: Action)
    requires
        action_name(a) == action_name(b),
    ensures
        a == b,
{
    reveal_strlit("split_right");
    reveal_strlit("split_down");
    reveal_strlit("close_pane");
    reveal_strlit("new_tab");
    reveal_strlit("next_tab");
    reveal_strlit("prev_tab");
    reveal_strlit("zoom");
    reveal_strlit("detach");
    reveal_strlit("rename");
    reveal_strlit("workspace_next");
    reveal_strlit("new_workspace");
    reveal_strlit("sidebar_toggle");
    reveal_strlit("focus_up");
    reveal_strlit("focus_down");
    reveal_strlit("focus_left");
    reveal_strlit("focus_right");
    reveal_strlit("resize_up");
    reveal_strlit("resize_down");
    reveal_strlit("resize_left");
    reveal_strlit("resize_right");
    reveal_strlit("navigate");
    reveal_strlit("copy_mode");
    reveal_strlit("help");
    let x = action_name(a);
    let y = action_name(b);
    assert(x.len() == y.len());
    assert(x[0] == y[0] && x[1] == y[1] && x[2] == y[2]);
    if x.len() > 6 {
        assert(x[4] == y[4] && x[5] == y[5] && x[6] == y[6]);
    }
    if x.len() > 7 {
        assert(x[7] == y[7]);
    }
}

/// The theme choice that a name in the file makes.
pub open spec fn choice_of(name: Seq<char>) -> ThemeChoice {
    if name == "dark"@ {
        ThemeChoice::Dark
    } else if name == "light"@ {
        ThemeChoice::Light
    } else if name == "auto"@ {
        ThemeChoice::Auto
    } else {
        ThemeChoice::Named
    }
}

impl Config {
    pub open spec fn key_state(self) -> KeyState {
        KeyState {
            prefix: self.prefix,
            bindings: self.bindings@,
            globals: self.globals@,
            warnings: text::texts(self.warnings@),
        }
    }

    /// Applies a configuration file to the defaults. What is wrong with it is
    /// left out and reported.
    pub fn from_file(file: FileConfig) -> (r: Self)
        ensures
            file.theme matches Some(name) ==> r.theme == choice_of(name@) && r.named_theme == Some(
                name,
            ),
            file.theme is None ==> r.theme == ThemeChoice::Auto && r.named_theme is None,
            r.mouse == (file.mouse != Some(false)),
            r.sidebar == (file.sidebar != Some(false)),
            ({
                let keys = match file.keys {
                    Some(keys) => keys@,
                    None => Seq::empty(),
                };
                r.key_state() == keys_applied(keys, keys.len() as int)
            }),
    {
        let mut config = Config::default();
        assert(config.key_state() =~= default_keys());
        if let Some(theme) = file.theme {
            config.theme = if text::same(theme.as_str(), "dark") {
                ThemeChoice::Dark
            } else if text::same(theme.as_str(), "light") {
                ThemeChoice::Light
            } else if text::same(theme.as_str(), "auto") {
                ThemeChoice::Auto
            } else {
                ThemeChoice::Named
            };
            config.named_theme = Some(theme);
        }
        if let Some(mouse) = file.mouse {
            config.mouse = mouse;
        }
        if let Some(sidebar) = file.sidebar {
            config.sidebar = sidebar;
        }
        if let Some(keys) = file.keys {
            let mut i: usize = 0;
            let ghost before = config;
            while i < keys.len()
                invariant
                    i <= keys@.len(),
                    config.theme == before.theme,
                    config.mouse == before.mouse,
                    config.sidebar == before.sidebar,
                    config.named_theme == before.named_theme,
                    config.key_state() == keys_applied(keys@, i as int),
                decreases keys@.len() - i,
            {
                config.apply_key(keys[i].0.as_str(), &keys[i].1);
                i += 1;
            }
        }
        config
    }

    /// Applies one entry of the key table.
    fn apply_key(&mut self, name: &str, values: &Vec<String>)
        ensures
            *final(self) == (Config {
                prefix: final(self).prefix,
                bindings: final(self).bindings,
                globals: final(self).globals,
                warnings: final(self).warnings,
                ..*old(self)
            }),
            final(self).key_state() == with_entry(old(self).key_state(), name@, values@),
    {
        let ghost start = self.key_state();
        if text::same(name, "prefix") {
            let mut i: usize = 0;
            while i < values.len()
                invariant
                    i <= values@.len(),
                    *self == (Config {
                        prefix: self.prefix,
                        warnings: self.warnings,
                        ..*old(self)
                    }),
                    self.key_state() == with_prefix(start, values@, i as int),
                decreases values@.len() - i,
            {
                match parse_key_chord(values[i].as_str()) {
                    Ok(key) => {
                        self.prefix = key;
                    },
                    Err(error) => {
                        let warning = text::cat(
                            "kodade-cli: warning: invalid key prefix: ",
                            error.as_str(),
                        );
                        assert(warning@ =~= "kodade-cli: warning: invalid key prefix: "@
                            + "unsupported key chord "@ + text::trim(values@[i as int]@));
                        self.warn(warning);
                    },
                }
                i += 1;
            }
            return ;
        }
        match Action::parse(name) {
            None => {
                self.warn(text::cat("kodade-cli: warning: unknown key action ", name));
            },
            Some(action) => {
                proof {
                    let named = choose|a: Action| action_name(a) == name@;
                    law_action_names_are_distinct(action, named);
                }
                let mut first = true;
                let mut i: usize = 0;
                while i < values.len()
                    invariant
                        i <= values@.len(),
                        first == !any_read(values@, i as int),
                        *self == (Config {
                            bindings: self.bindings,
                            globals: self.globals,
                            warnings: self.warnings,
                            ..*old(self)
                        }),
                        self.key_state() == with_chords(start, action, values@, i as int),
                    decreases values@.len() - i,
                {
                    let read = self.apply_chord(action, first, values[i].as_str());
                    first = first && !read;
                    i += 1;
                }
            },
        }
    }

    /// Gives an action one chord, and says whether it can be read.
    fn apply_chord(&mut self, action: Action, first: bool, value: &str) -> (r: bool)
        ensures
            r == binding_of(value@) is Some,
            *final(self) == (Config {
                bindings: final(self).bindings,
                globals: final(self).globals,
                warnings: final(self).warnings,
                ..*old(self)
            }),
            final(self).key_state() == with_chord(old(self).key_state(), action, first, value@),
    {
        let other = if first {
            Some(action)
        } else {
            None
        };
        match parse_binding(value) {
            Ok((on_its_own, key)) => {
                if on_its_own {
                    if first {
                        self.bindings = keep(&self.bindings, None, Some(action));
                    }
                    self.globals = keep(&self.globals, Some(key), other);
                    self.globals.push((key, action));
                } else {
                    self.bindings = keep(&self.bindings, Some(key), other);
                    self.bindings.push((key, action));
                    if first {
                        self.globals = keep(&self.globals, None, Some(action));
                    }
                }
                true
            },
            Err(error) => {
                let mut warning = text::cat3(
                    "kodade-cli: warning: invalid key ",
                    action.name(),
                    ": ",
                );
                warning.append(error.as_str());
                assert(warning@ =~= "kodade-cli: warning: invalid key "@ + action_name(action)
                    + ": "@ + "unsupported key chord "@ + text::trim(bare_chord(value@)));
                self.warn(warning);
                false
            },
        }
    }

    fn warn(&mut self, warning: String)
        ensures
            *final(self) == (Config { warnings: final(self).warnings, ..*old(self) }),
            text::texts(final(self).warnings@) == text::texts(old(self).warnings@).push(warning@),
    {
        let ghost before = text::texts(self.warnings@);
        let ghost added = warning@;
        self.warnings.push(warning);
        assert(text::texts(self.warnings@) =~= before.push(added));
    }

    /// What a key does after the prefix.
    pub fn action(&self, key: KeyEvent) -> (r: Option<Action>)
        ensures
            r == bound(self.bindings@, key),
    {
        find_bound(&self.bindings, key)
    }

    /// What a key does on its own.
    pub fn global_action(&self, key: KeyEvent) -> (r: Option<Action>)
        ensures
            r == bound(self.globals@, key),
    {
        find_bound(&self.globals, key)
    }
}

fn find_bound(bindings: &Vec<(KeyEvent, Action)>, key: KeyEvent) -> (r: Option<Action>)
    ensures
        r == bound(bindings@, key),
{
    let mut i: usize = bindings.len();
    assert(bindings@.take(i as int) =~= bindings@);
    while i > 0
        invariant
            i <= bindings@.len(),
            bound(bindings@, key) == bound(bindings@.take(i as int), key),
        decreases i,
    {
        assert(bindings@.take(i as int).last() == bindings@[i - 1]);
        assert(bindings@.take(i as int).drop_last() =~= bindings@.take(i - 1));
        let (k, a) = bindings[i - 1];
        if k == key {
            return Some(a);
        }
        i -= 1;
    }
    None
}

/// Every key that works on its own has a modifier.
pub open spec fn all_modified(bindings: Seq<(KeyEvent, Action)>) -> bool {
    forall|i: int|
        0 <= i < bindings.len() ==> (#[trigger] bindings[i]).0.modifiers.control
            || bindings[i].0.modifiers.alt
}

/// What every key table keeps to: no key is bound twice, and every key that works on
/// its own has a modifier.
pub open spec fn sound(state: KeyState) -> bool {
    one_action_per_key(state.bindings) && one_action_per_key(state.globals) && all_modified(
        state.globals,
    )
}

proof fn lemma_given_one_more(
    bindings: Seq<(KeyEvent, Action)>,
    key: KeyEvent,
    action: Option<Action>,
    given: Action,
)
    requires
        one_action_per_key(bindings),
    ensures
        one_action_per_key(kept(bindings, Some(key), action).push((key, given))),
        all_modified(bindings) && (key.modifiers.control || key.modifiers.alt) ==> all_modified(
            kept(bindings, Some(key), action).push((key, given)),
        ),
{
    lemma_kept_keys(bindings, Some(key), action);
    let rest = kept(bindings, Some(key), action);
    let all = rest.push((key, given));
    if all_modified(bindings) && (key.modifiers.control || key.modifiers.alt) {
        assert forall|i: int| 0 <= i < all.len() implies (#[trigger] all[i]).0.modifiers.control
            || all[i].0.modifiers.alt by {
            if i < rest.len() {
                assert(bindings.contains(rest[i]));
                let m = choose|m: int| 0 <= m < bindings.len() && bindings[m] == rest[i];
                assert(bindings[m].0.modifiers.control || bindings[m].0.modifiers.alt);
            }
        }
    }
}

proof fn lemma_freed(bindings: Seq<(KeyEvent, Action)>, action: Action)
    requires
        one_action_per_key(bindings),
    ensures
        one_action_per_key(freed(bindings, action)),
        all_modified(bindings) ==> all_modified(freed(bindings, action)),
{
    lemma_kept_keys(bindings, None, Some(action));
    let rest = freed(bindings, action);
    if all_modified(bindings) {
        assert forall|i: int| 0 <= i < rest.len() implies (#[trigger] rest[i]).0.modifiers.control
            || rest[i].0.modifiers.alt by {
            assert(bindings.contains(rest[i]));
            let m = choose|m: int| 0 <= m < bindings.len() && bindings[m] == rest[i];
            assert(bindings[m].0.modifiers.control || bindings[m].0.modifiers.alt);
        }
    }
}

proof fn lemma_chords_sound(state: KeyState, action: Action, values: Seq<String>, count: int)
    requires
        sound(state),
        0 <= count <= values.len(),
    ensures
        sound(with_chords(state, action, values, count)),
    decreases count,
{
    if count > 0 {
        lemma_chords_sound(state, action, values, count - 1);
        let before = with_chords(state, action, values, count - 1);
        let other = if any_read(values, count - 1) {
            None
        } else {
            Some(action)
        };
        lemma_freed(before.bindings, action);
        lemma_freed(before.globals, action);
        if let Some((on_its_own, key)) = binding_of(values[count - 1]@) {
            lemma_given_one_more(before.bindings, key, other, action);
            lemma_given_one_more(before.globals, key, other, action);
        }
    }
}

proof fn lemma_prefix_sound(state: KeyState, values: Seq<String>, count: int)
    requires
        sound(state),
        0 <= count <= values.len(),
    ensures
        sound(with_prefix(state, values, count)),
    decreases count,
{
    if count > 0 {
        lemma_prefix_sound(state, values, count - 1);
    }
}

/// A configuration never binds a key twice, and gives no key without a modifier away
/// to work on its own, whatever its file says.
pub proof fn law_configured_keys_are_distinct(keys: Seq<(String, Vec<String>)>, count: int)
    requires
        0 <= count <= keys.len(),
    ensures
        sound(keys_applied(keys, count)),
    decreases count,
{
    if count > 0 {
        law_configured_keys_are_distinct(keys, count - 1);
        let before = keys_applied(keys, count - 1);
        let values = keys[count - 1].1@;
        lemma_prefix_sound(before, values, values.len() as int);
        if let Some(action) = action_named(keys[count - 1].0@) {
            lemma_chords_sound(before, action, values, values.len() as int);
        }
    }
}

} // verus!
