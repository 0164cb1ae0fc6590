//! Keys and the mouse: what each of them asks the daemon for.

use vstd::prelude::*;

use crate::app::{self, App, CopyStep, Effect};
use crate::config::Action;
use crate::event::{KeyCode, KeyEvent, MouseButton, MouseEventKind};
use crate::geometry::Rect;
use crate::help::BoundAction;
use crate::input;
use crate::laws::finding;
use crate::mode::{self, Menu, MenuAction, MenuTarget};
use crate::proto::{AgentStateKind, ClientMessage, Direction, LayoutSnapshot, PaneId, SidebarTabInfo, WorkspaceInfo};
use crate::render::{self, SidebarTarget};
use crate::text;

verus! {

// -------------------------------------------------------------------------- actions

/// A configured action that has a message of its own sends that very message, and
/// nothing else changes. Only a new workspace is asked about first.
pub proof fn law_actions_send_their_messages(
    client: App,
    action: Action,
    message: ClientMessage,
    cols: u16,
    rows: u16,
    after: App,
    sent: Seq<ClientMessage>,
)
    requires
        action.sends(Some(message)),
        client.performed(app::as_bound(action), cols, rows, after, sent),
    ensures
        action != Action::NewWorkspace ==> sent == seq![message] && after == client,
        action == Action::NewWorkspace ==> sent.len() == 0 && after.new_workspace,
{
}

/// Where a pane, a border or a focus goes.
pub open spec fn heads(message: ClientMessage) -> Option<Direction> {
    match message {
        ClientMessage::FocusPane { direction } => Some(direction),
        ClientMessage::ResizePane { direction, .. } => Some(direction),
        ClientMessage::SwapPane { direction } => Some(direction),
        _ => None,
    }
}

/// Actions with a direction in their name go that way, focus moves the focus, resizing
/// moves a border by two cells, and swapping moves the pane.
pub proof fn law_directions_are_kept(
    client: App,
    cols: u16,
    rows: u16,
    action: BoundAction,
    after: App,
    sent: Seq<ClientMessage>,
)
    requires
        client.performed(action, cols, rows, after, sent),
    ensures
        action == BoundAction::FocusLeft || action == BoundAction::ResizeLeft || action
            == BoundAction::SwapLeft ==> sent.len() == 1 && heads(sent[0]) == Some(Direction::Left),
        action == BoundAction::FocusRight || action == BoundAction::ResizeRight || action
            == BoundAction::SwapRight ==> sent.len() == 1 && heads(sent[0]) == Some(
            Direction::Right,
        ),
        action == BoundAction::FocusUp || action == BoundAction::ResizeUp || action
            == BoundAction::SwapUp ==> sent.len() == 1 && heads(sent[0]) == Some(Direction::Up),
        action == BoundAction::FocusDown || action == BoundAction::ResizeDown || action
            == BoundAction::SwapDown ==> sent.len() == 1 && heads(sent[0]) == Some(Direction::Down),
        action == BoundAction::FocusLeft || action == BoundAction::FocusRight || action
            == BoundAction::FocusUp || action == BoundAction::FocusDown ==> sent[0] is FocusPane,
        action == BoundAction::SwapLeft || action == BoundAction::SwapRight || action
            == BoundAction::SwapUp || action == BoundAction::SwapDown ==> sent[0] is SwapPane,
        action == BoundAction::ResizeLeft || action == BoundAction::ResizeRight || action
            == BoundAction::ResizeUp || action == BoundAction::ResizeDown ==> (
        sent[0] matches ClientMessage::ResizePane { cells, .. } && cells == 2),
{
}

/// Actions that count go as far and the way that they say: on for next and right, back
/// for previous and left, to the very tab that a number names.
pub proof fn law_steps_are_kept(
    client: App,
    cols: u16,
    rows: u16,
    action: BoundAction,
    after: App,
    sent: Seq<ClientMessage>,
)
    requires
        client.performed(action, cols, rows, after, sent),
    ensures
        action == BoundAction::NextTab ==> sent == seq![ClientMessage::NextTab],
        action == BoundAction::PrevTab ==> sent == seq![ClientMessage::PrevTab],
        action == BoundAction::NewTab ==> sent == seq![ClientMessage::NewTab],
        action == BoundAction::SplitRight ==> sent == seq![ClientMessage::SplitRight],
        action == BoundAction::SplitDown ==> sent == seq![ClientMessage::SplitDown],
        action == BoundAction::ClosePane ==> sent == seq![ClientMessage::ClosePane],
        action == BoundAction::Zoom ==> sent == seq![ClientMessage::ZoomPane],
        action == BoundAction::BreakPane ==> sent == seq![ClientMessage::BreakPane],
        action == BoundAction::LayoutEven ==> sent == seq![ClientMessage::EqualizeLayout],
        action == BoundAction::MoveTabRight ==> sent.len() == 1 && (
        sent[0] matches ClientMessage::MoveTab { delta } && delta == 1),
        action == BoundAction::MoveTabLeft ==> sent.len() == 1 && (
        sent[0] matches ClientMessage::MoveTab { delta } && delta == -1),
        action == BoundAction::WorkspaceNext ==> sent.len() == 1 && (
        sent[0] matches ClientMessage::SelectWorkspaceDelta { delta } && delta == 1),
        action == BoundAction::WorkspacePrev ==> sent.len() == 1 && (
        sent[0] matches ClientMessage::SelectWorkspaceDelta { delta } && delta == -1),
        action == BoundAction::NextPane ==> sent == seq![
            ClientMessage::FocusPaneCycle { forward: true },
        ],
        action == BoundAction::PrevPane ==> sent == seq![
            ClientMessage::FocusPaneCycle { forward: false },
        ],
        action matches BoundAction::SelectTabIndex(n) ==> sent.len() == 1 && (
        sent[0] matches ClientMessage::SelectTabIndex { index } && index == n),
        action == BoundAction::LastPane ==> match client.last_pane {
            Some(id) => sent == seq![ClientMessage::FocusPaneId { id }],
            None => sent.len() == 0,
        },
        action == BoundAction::Detach || action == BoundAction::Rename || action
            == BoundAction::Navigate || action == BoundAction::CopyMode || action
            == BoundAction::ResizeMode ==> sent.len() == 0,
{
}

/// Hiding the sidebar and showing it again leaves the client as it was, and each time the
/// daemon is told the columns that are left: all but those of the sidebar, or all but one.
pub proof fn law_the_sidebar_toggles(
    client: App,
    cols: u16,
    rows: u16,
    once: App,
    first: Seq<ClientMessage>,
    twice: App,
    second: Seq<ClientMessage>,
)
    requires
        client.performed(BoundAction::SidebarToggle, cols, rows, once, first),
        once.performed(BoundAction::SidebarToggle, cols, rows, twice, second),
        cols > 24,
    ensures
        twice == client,
        once.sidebar == !client.sidebar,
        first.len() == 1 && (first[0] matches ClientMessage::Resize { cols: told, rows: high }
            && high == rows && told + (if once.sidebar {
            24int
        } else {
            1
        }) == cols),
        second.len() == 1 && (second[0] matches ClientMessage::Resize { cols: told, rows: high }
            && high == rows && told + (if client.sidebar {
            24int
        } else {
            1
        }) == cols),
{
}

/// Prompts and modes open as they are asked for, on what is active.
pub proof fn law_prompts_open(
    client: App,
    cols: u16,
    rows: u16,
    action: BoundAction,
    after: App,
    sent: Seq<ClientMessage>,
)
    requires
        client.performed(action, cols, rows, after, sent),
    ensures
        action == BoundAction::Rename ==> after.rename && after.rename_target
            == client.rename_target,
        action == BoundAction::ResizeMode ==> after.resize,
        action == BoundAction::Navigate ==> after.navigate == Some(0usize) && after.sidebar,
        action == BoundAction::RenameTab && client.tab() is Some ==> after.rename
            && after.rename_target == Some(MenuTarget::Tab(client.tab()->0.id)),
        action == BoundAction::RenameWorkspace && client.workspace() is Some ==> after.rename
            && after.rename_target == Some(MenuTarget::Workspace(client.workspace()->0.id)),
        action == BoundAction::CloseTab && client.tab() is Some ==> sent.len() <= 1 && (sent.len()
            == 1 ==> sent[0] == (ClientMessage::CloseTab { id: client.tab()->0.id })),
        action == BoundAction::CloseWorkspace && client.workspace() is Some ==> sent.len() <= 1
            && (sent.len() == 1 ==> sent[0] == (ClientMessage::CloseWorkspace {
            id: client.workspace()->0.id,
        })),
{
}

// ------------------------------------------------------------------------ questions

proof fn lemma_working(tab: SidebarTabInfo, count: int)
    requires
        0 <= count <= tab.agents@.len(),
    ensures
        app::working(tab.agents@, count) > 0 <==> exists|i: int|
            0 <= i < count && (#[trigger] tab.agents@[i]).state == AgentStateKind::Working,
    decreases count,
{
    if count > 0 {
        lemma_working(tab, count - 1);
        if app::working(tab.agents@, count - 1) > 0 {
            let i = choose|i: int|
                0 <= i < count - 1 && (#[trigger] tab.agents@[i]).state == AgentStateKind::Working;
            assert(tab.agents@[i].state == AgentStateKind::Working);
        } else if tab.agents@[count - 1].state == AgentStateKind::Working {
            assert(tab.agents@[count - 1].state == AgentStateKind::Working);
        }
    }
}

/// Closing a tab is asked about exactly when an agent in it is working.
pub proof fn law_tabs_are_asked_about(tab: SidebarTabInfo)
    ensures
        app::tab_question(tab) is Some <==> exists|i: int|
            0 <= i < tab.agents@.len() && (#[trigger] tab.agents@[i]).state
                == AgentStateKind::Working,
{
    lemma_working(tab, tab.agents@.len() as int);
}

proof fn lemma_busy(tab: SidebarTabInfo, count: int)
    requires
        0 <= count <= tab.agents@.len(),
    ensures
        app::busy(tab.agents@, count) > 0 <==> exists|i: int|
            0 <= i < count && ((#[trigger] tab.agents@[i]).state == AgentStateKind::Working
                || tab.agents@[i].state == AgentStateKind::Blocked),
    decreases count,
{
    if count > 0 {
        lemma_busy(tab, count - 1);
        if app::busy(tab.agents@, count - 1) > 0 {
            let i = choose|i: int|
                0 <= i < count - 1 && ((#[trigger] tab.agents@[i]).state == AgentStateKind::Working
                    || tab.agents@[i].state == AgentStateKind::Blocked);
            assert(tab.agents@[i] == tab.agents@[i]);
        } else {
            assert(tab.agents@[count - 1] == tab.agents@[count - 1]);
        }
    }
}

/// An agent in a workspace is working or asks something.
pub open spec fn active_at(workspace: WorkspaceInfo, t: int, a: int) -> bool {
    0 <= t < workspace.tabs@.len() && 0 <= a < workspace.tabs@[t].agents@.len() && (
    workspace.tabs@[t].agents@[a].state == AgentStateKind::Working
        || workspace.tabs@[t].agents@[a].state == AgentStateKind::Blocked)
}

proof fn lemma_busy_tabs(workspace: WorkspaceInfo, count: int)
    requires
        0 <= count <= workspace.tabs@.len(),
    ensures
        app::busy_tabs(workspace.tabs@, count) > 0 <==> exists|t: int, a: int|
            t < count && #[trigger] active_at(workspace, t, a),
    decreases count,
{
    if count > 0 {
        lemma_busy_tabs(workspace, count - 1);
        let tab = workspace.tabs@[count - 1];
        lemma_busy(tab, tab.agents@.len() as int);
        if app::busy_tabs(workspace.tabs@, count - 1) > 0 {
            let (t, a) = choose|t: int, a: int|
                t < count - 1 && #[trigger] active_at(workspace, t, a);
            assert(t < count && active_at(workspace, t, a));
        } else if app::busy(tab.agents@, tab.agents@.len() as int) > 0 {
            let a = choose|i: int|
                0 <= i < tab.agents@.len() && ((#[trigger] tab.agents@[i]).state
                    == AgentStateKind::Working || tab.agents@[i].state == AgentStateKind::Blocked);
            assert(active_at(workspace, count - 1, a));
        }
        if exists|t: int, a: int| t < count && #[trigger] active_at(workspace, t, a) {
            let (t, a) = choose|t: int, a: int| t < count && #[trigger] active_at(workspace, t, a);
            if t == count - 1 {
                assert(tab.agents@[a] == workspace.tabs@[t].agents@[a]);
            } else {
                assert(t < count - 1 && active_at(workspace, t, a));
            }
        }
    }
}

/// Closing a workspace is asked about exactly when an agent in it is working or asks
/// something.
pub proof fn law_workspaces_are_asked_about(workspace: WorkspaceInfo)
    ensures
        app::workspace_question(workspace) is Some <==> exists|t: int, a: int| #[trigger]
            active_at(workspace, t, a),
{
    lemma_busy_tabs(workspace, workspace.tabs@.len() as int);
    if exists|t: int, a: int| #[trigger] active_at(workspace, t, a) {
        let (t, a) = choose|t: int, a: int| #[trigger] active_at(workspace, t, a);
        assert(t < workspace.tabs@.len() && active_at(workspace, t, a));
    }
}

// -------------------------------------------------------------------------- prompts

/// A letter that is typed stands at the end, and taking it back leaves what was there.
pub proof fn law_typing_can_be_taken_back(name: Seq<char>, c: char)
    ensures
        app::typed(name, KeyCode::Char(c)).len() == name.len() + 1,
        app::typed(name, KeyCode::Char(c)).last() == c,
        app::typed(app::typed(name, KeyCode::Char(c)), KeyCode::Backspace) == name,
        app::typed(Seq::empty(), KeyCode::Backspace).len() == 0,
{
    assert(name.push(c).drop_last() =~= name);
}

/// Enter in the rename prompt gives what was typed to the target that it was opened for,
/// or to the pane in focus, and closes the prompt; escape closes it and sends nothing.
pub proof fn law_names_go_to_their_targets(
    client: App,
    key: KeyEvent,
    cols: u16,
    rows: u16,
    home: Option<String>,
    after: App,
    effect: Effect,
)
    requires
        client.confirm is None,
        client.rename,
        client.keyed(key, cols, rows, home, after, effect),
    ensures
        key.code == KeyCode::Enter ==> !after.rename && after.name@.len() == 0
            && effect.messages@.len() == 1 && match effect.messages@[0] {
            ClientMessage::RenamePaneId { id, name } => client.rename_target == Some(
                MenuTarget::Pane(id),
            ) && name@ == client.name@,
            ClientMessage::RenameTabId { id, name } => client.rename_target == Some(
                MenuTarget::Tab(id),
            ) && name@ == client.name@,
            ClientMessage::RenameWorkspaceId { id, name } => client.rename_target == Some(
                MenuTarget::Workspace(id),
            ) && name@ == client.name@,
            ClientMessage::RenamePane { name } => client.rename_target is None && name@
                == client.name@,
            _ => false,
        },
        key.code == KeyCode::Esc ==> !after.rename && effect.messages@.len() == 0,
        key.code matches KeyCode::Char(c) ==> after.rename && effect.messages@.len() == 0
            && after.name@ == client.name@.push(c),
{
}

/// What a workspace prompt asks for: with two words the first is the name and the second
/// the directory; a lone path is the directory; a lone name keeps the directory of the
/// pane in focus. A tilde in front stands for the home directory.
pub proof fn law_workspaces_are_made_as_typed(
    words: Seq<Seq<char>>,
    cwd: Option<Seq<char>>,
    home: Seq<char>,
    rest: Seq<char>,
)
    ensures
        words.len() >= 2 ==> app::prompted(words, cwd, Some(home)).0 == words[0],
        words.len() >= 2 && words[1] == "~/"@ + rest ==> app::prompted(words, cwd, Some(home)).1
            == Some(text::path_join(home, rest)),
        words.len() >= 2 && !"~"@.is_prefix_of(words[1]) ==> app::prompted(
            words,
            cwd,
            Some(home),
        ).1 == Some(words[1]),
        words.len() == 1 && !"~"@.is_prefix_of(words[0]) && words[0].contains('/')
            ==> app::prompted(words, cwd, Some(home)).1 == Some(words[0]),
        words.len() == 1 && !"~"@.is_prefix_of(words[0]) && !words[0].contains('/')
            ==> app::prompted(words, cwd, Some(home)) == (words[0], cwd),
        words.len() == 0 ==> app::prompted(words, cwd, Some(home)).1 == cwd,
{
    reveal_strlit("~");
    reveal_strlit("~/");
    if words.len() >= 2 {
        let token = words[1];
        if token == "~/"@ + rest {
            assert("~/"@.is_prefix_of(token)) by {
                assert(token.subrange(0, 2) =~= "~/"@);
            }
            assert(token.skip(2) =~= rest);
        }
        if !"~"@.is_prefix_of(token) {
            lemma_no_tilde(token);
        }
    }
    if words.len() == 1 && !"~"@.is_prefix_of(words[0]) {
        lemma_no_tilde(words[0]);
    }
}

proof fn lemma_no_tilde(token: Seq<char>)
    requires
        !"~"@.is_prefix_of(token),
    ensures
        !"~/"@.is_prefix_of(token),
        token != "~"@,
{
    reveal_strlit("~");
    reveal_strlit("~/");
    if token.len() > 0 && token[0] == '~' {
        assert("~"@ =~= token.subrange(0, 1));
    }
    if "~/"@.is_prefix_of(token) {
        assert(token.subrange(0, 2)[0] == "~/"@[0]);
        assert(token[0] == '~');
    }
}

// ----------------------------------------------------------------------------- keys

/// What programs are sent for letters is the letters; with control it is the number of
/// the letter in the alphabet, in capitals or not.
pub proof fn law_letters_are_sent(c: char, n: int)
    requires
        1 <= n <= 26,
    ensures
        app::plain_bytes(KeyCode::Char(c), false) == Some(vstd::utf8::encode_utf8(seq![c])),
        app::plain_bytes(KeyCode::Char((96 + n) as char), true) == Some(seq![n as u8]),
        app::plain_bytes(KeyCode::Char((64 + n) as char), true) == Some(seq![n as u8]),
{
    let low = (96 + n) as char;
    let high = (64 + n) as char;
    assert(text::ascii_lowercase(low) == low);
    assert(text::ascii_lowercase(high) == low);
    let b = (96 + n) as u8;
    assert(b & 0x1fu8 == (b - 96) as u8) by (bit_vector)
        requires
            97 <= b <= 122,
    ;
}

/// A key of the terminal, by the last byte of its code.
pub open spec fn arrow(bytes: Option<Seq<u8>>, last: u8) -> bool {
    bytes == Some(seq![27u8, 91u8, last])
}

/// Keys without a letter are sent as terminals send them.
pub proof fn law_other_keys_are_sent(control: bool)
    ensures
        arrow(app::plain_bytes(KeyCode::Up, control), 'A' as u8),
        arrow(app::plain_bytes(KeyCode::Down, control), 'B' as u8),
        arrow(app::plain_bytes(KeyCode::Right, control), 'C' as u8),
        arrow(app::plain_bytes(KeyCode::Left, control), 'D' as u8),
        arrow(app::plain_bytes(KeyCode::Home, control), 'H' as u8),
        arrow(app::plain_bytes(KeyCode::End, control), 'F' as u8),
        app::plain_bytes(KeyCode::Enter, control) == Some(seq![13u8]),
        app::plain_bytes(KeyCode::Tab, control) == Some(seq![9u8]),
        app::plain_bytes(KeyCode::Esc, control) == Some(seq![27u8]),
        app::plain_bytes(KeyCode::Backspace, control) == Some(seq![127u8]),
        app::plain_bytes(KeyCode::PageUp, control) == Some(
            seq![27u8, '[' as u8, '5' as u8, '~' as u8],
        ),
        app::plain_bytes(KeyCode::PageDown, control) == Some(
            seq![27u8, '[' as u8, '6' as u8, '~' as u8],
        ),
        app::plain_bytes(KeyCode::Delete, control) == Some(
            seq![27u8, '[' as u8, '3' as u8, '~' as u8],
        ),
{
}

/// Function keys are told apart: the first four by a letter, the others up to the
/// twelfth by a number, and no two have the same code.
pub proof fn law_function_keys_are_told_apart(m: u8, n: u8)
    requires
        1 <= m < n <= 12,
    ensures
        app::plain_bytes(KeyCode::F(m), false) is Some,
        app::plain_bytes(KeyCode::F(n), false) is Some,
        app::plain_bytes(KeyCode::F(m), false) != app::plain_bytes(KeyCode::F(n), false),
        app::plain_bytes(KeyCode::F(1), false) == Some(seq![27u8, 'O' as u8, 'P' as u8]),
        m == 5 ==> app::plain_bytes(KeyCode::F(m), false) == Some(
            seq![27u8, '[' as u8, '1' as u8, '5' as u8, '~' as u8],
        ),
        n == 12 ==> app::plain_bytes(KeyCode::F(n), false) == Some(
            seq![27u8, '[' as u8, '2' as u8, '4' as u8, '~' as u8],
        ),
{
    let a = app::plain_bytes(KeyCode::F(m), false)->0;
    let b = app::plain_bytes(KeyCode::F(n), false)->0;
    if a == b {
        assert(a.len() == b.len());
        assert(a[2] == b[2]);
        if m >= 5 {
            assert(a[3] == b[3]);
        }
    }
}

/// A key that nothing else takes goes to the pane in focus, as bytes; the prefix goes
/// nowhere the first time and to the pane the second.
pub proof fn law_keys_reach_the_pane(
    client: App,
    key: KeyEvent,
    cols: u16,
    rows: u16,
    home: Option<String>,
    after: App,
    effect: Effect,
)
    requires
        client.passes_keys(),
        client.keyed(key, cols, rows, home, after, effect),
    ensures
        !client.prefix && key == client.config.prefix ==> after.prefix && effect.messages@.len()
            == 0,
        client.prefix ==> !after.prefix,
        !client.prefix && key != client.config.prefix && crate::config::bound(
            client.config.globals@,
            key,
        ) is None ==> after == client && match app::key_bytes(key) {
            Some(bytes) => effect.messages@.len() == 1 && (
            effect.messages@[0] matches ClientMessage::Input { bytes: passed } && passed@ == bytes),
            None => effect.messages@.len() == 0,
        },
        client.prefix && key == client.config.prefix && app::key_bytes(key) is Some
            ==> effect.messages@.len() == 1 && (
        effect.messages@[0] matches ClientMessage::Input { bytes } && bytes@ == app::key_bytes(
            key,
        )->0),
        client.prefix && key != client.config.prefix ==> forall|i: int|
            0 <= i < effect.messages@.len() ==> !(#[trigger] effect.messages@[i] is Input),
{
}

/// In resize mode letters and arrows move the border their way: by one cell, in capitals
/// by five.
pub proof fn law_resizing_follows_the_keys(
    client: App,
    key: KeyEvent,
    after: App,
    sent: Seq<ClientMessage>,
)
    requires
        client.resized(key, after, sent),
    ensures
        key.code == KeyCode::Left || key.code == KeyCode::Char('h') ==> sent == seq![
            ClientMessage::ResizePane { direction: Direction::Left, cells: 1 },
        ],
        key.code == KeyCode::Right || key.code == KeyCode::Char('l') ==> sent == seq![
            ClientMessage::ResizePane { direction: Direction::Right, cells: 1 },
        ],
        key.code == KeyCode::Up || key.code == KeyCode::Char('k') ==> sent == seq![
            ClientMessage::ResizePane { direction: Direction::Up, cells: 1 },
        ],
        key.code == KeyCode::Down || key.code == KeyCode::Char('j') ==> sent == seq![
            ClientMessage::ResizePane { direction: Direction::Down, cells: 1 },
        ],
        key.code == KeyCode::Char('H') ==> sent == seq![
            ClientMessage::ResizePane { direction: Direction::Left, cells: 5 },
        ],
        key.code == KeyCode::Char('L') ==> sent == seq![
            ClientMessage::ResizePane { direction: Direction::Right, cells: 5 },
        ],
        key.code == KeyCode::Char('K') ==> sent == seq![
            ClientMessage::ResizePane { direction: Direction::Up, cells: 5 },
        ],
        key.code == KeyCode::Char('J') ==> sent == seq![
            ClientMessage::ResizePane { direction: Direction::Down, cells: 5 },
        ],
        key.code == KeyCode::Esc || key.code == KeyCode::Enter ==> !after.resize && sent.len()
            == 0,
        sent.len() > 0 ==> after == client,
{
}

/// In copy mode the cursor follows the keys by one cell where there is one, a mark is set
/// where it stands, a page scrolls the pane, and leaving sends nothing.
pub proof fn law_copy_mode_follows_the_keys(
    client: App,
    key: KeyEvent,
    after: App,
    sent: Seq<ClientMessage>,
    clipboard: Option<String>,
)
    requires
        client.copy is Some,
        client.copy->0.in_view(),
        client.copy->0.lines@.len() <= usize::MAX,
        client.copy->0.text_at(client.copy->0.cursor.row as int).len() <= usize::MAX,
        client.copy_key(key, after, sent, clipboard),
    ensures
        ({
            let copy = client.copy->0;
            let cursor = copy.cursor;
            let last = copy.lines@.len() - 1;
            let width = copy.text_at(cursor.row as int).len();
            &&& (key.code == KeyCode::Down || key.code == KeyCode::Char('j')) ==> (
            after.copy matches Some(now) && now.cursor.row == (if cursor.row < last {
                cursor.row + 1
            } else {
                last
            }))
            &&& (key.code == KeyCode::Up || key.code == KeyCode::Char('k')) ==> (
            after.copy matches Some(now) && now.cursor.row == (if cursor.row > 0 {
                cursor.row - 1
            } else {
                0
            }))
            &&& (key.code == KeyCode::Right || key.code == KeyCode::Char('l')) ==> (
            after.copy matches Some(now) && now.cursor.row == cursor.row && now.cursor.col == (
            if cursor.col < width {
                cursor.col + 1
            } else {
                width as int
            }))
            &&& (key.code == KeyCode::Left || key.code == KeyCode::Char('h')) ==> (
            after.copy matches Some(now) && now.cursor.row == cursor.row && now.cursor.col == (
            if cursor.col > 0 {
                cursor.col - 1
            } else {
                0
            }))
            &&& key.code == KeyCode::Char('v') ==> (after.copy matches Some(now) && now.anchor
                == Some(cursor) && now.cursor == cursor)
            &&& (key.code == KeyCode::Esc || key.code == KeyCode::Char('q')) ==> after.copy is None
                && sent.len() == 0 && clipboard is None
            &&& key.code == KeyCode::PageUp ==> sent.len() == 1 && (
            sent[0] matches ClientMessage::ScrollPane { id, delta } && id == copy.pane && delta
                > 0)
            &&& key.code == KeyCode::PageDown ==> sent.len() == 1 && (
            sent[0] matches ClientMessage::ScrollPane { id, delta } && id == copy.pane && delta
                < 0)
            &&& key.code == KeyCode::Char('y') && copy.anchor is Some ==> after.copy is None
                && clipboard is Some
            &&& key.code != KeyCode::Char('y') || copy.anchor is None ==> clipboard is None
        }),
{
}

// ---------------------------------------------------------------------------- menus

/// What a menu sends is about what it was opened for: a pane is focused first, a tab or a
/// workspace is named by its id.
pub proof fn law_menus_act_on_their_targets(
    client: App,
    menu: Menu,
    index: int,
    after: App,
    sent: Seq<ClientMessage>,
)
    requires
        0 <= index < mode::menu_actions(menu.target).len(),
        client.menu_run(menu, index, after, sent),
    ensures
        after.menu is None,
        menu.target matches MenuTarget::Pane(pane) ==> sent.len() >= 1 && sent[0] == (
        ClientMessage::FocusPaneId { id: pane }),
        ({
            let action = mode::menu_actions(menu.target)[index];
            &&& action == MenuAction::Close ==> sent.len() >= 1 && match menu.target {
                MenuTarget::Pane(_) => sent.last() == ClientMessage::ClosePane,
                MenuTarget::Tab(tab) => sent == seq![ClientMessage::CloseTab { id: tab }],
                MenuTarget::Workspace(space) => sent == seq![
                    ClientMessage::CloseWorkspace { id: space },
                ],
            }
            &&& action == MenuAction::Rename ==> after.rename && after.rename_target == Some(
                menu.target,
            )
            &&& action != MenuAction::Rename ==> after.rename == client.rename
            &&& action == MenuAction::SplitRight ==> sent.last() == ClientMessage::SplitRight
            &&& action == MenuAction::SplitDown ==> sent.last() == ClientMessage::SplitDown
            &&& action == MenuAction::Zoom ==> sent.last() == ClientMessage::ZoomPane
            &&& action == MenuAction::BreakToTab ==> sent.last() == ClientMessage::BreakPane
            &&& action == MenuAction::Equalize ==> sent.last() == ClientMessage::EqualizeLayout
            &&& action == MenuAction::MoveLeft ==> sent.len() == 2 && (
            menu.target matches MenuTarget::Tab(tab) && sent[0] == (ClientMessage::SelectTab {
                id: tab,
            })) && (sent[1] matches ClientMessage::MoveTab { delta } && delta == -1)
            &&& action == MenuAction::MoveRight ==> sent.len() == 2 && (
            menu.target matches MenuTarget::Tab(tab) && sent[0] == (ClientMessage::SelectTab {
                id: tab,
            })) && (sent[1] matches ClientMessage::MoveTab { delta } && delta == 1)
        }),
{
}

/// Every menu can rename and close what it is for and open the help, and has no entry
/// twice.
pub proof fn law_menus_have_their_entries(target: MenuTarget)
    ensures
        mode::menu_actions(target).contains(MenuAction::Rename),
        mode::menu_actions(target).contains(MenuAction::Close),
        mode::menu_actions(target).last() == MenuAction::Help,
        mode::menu_actions(target).no_duplicates(),
        target is Tab <==> mode::menu_actions(target).contains(MenuAction::MoveLeft),
        target is Tab <==> mode::menu_actions(target).contains(MenuAction::MoveRight),
        target is Pane <==> mode::menu_actions(target).contains(MenuAction::Zoom),
        target is Workspace <==> mode::menu_actions(target).contains(MenuAction::Color),
{
    let all = mode::menu_actions(target);
    match target {
        MenuTarget::Pane(_) => {
            assert(all[2] == MenuAction::Rename);
            assert(all[6] == MenuAction::Close);
            assert(all[3] == MenuAction::Zoom);
        },
        MenuTarget::Tab(_) => {
            assert(all[0] == MenuAction::Rename);
            assert(all[3] == MenuAction::Close);
            assert(all[1] == MenuAction::MoveLeft);
            assert(all[2] == MenuAction::MoveRight);
        },
        MenuTarget::Workspace(_) => {
            assert(all[0] == MenuAction::Rename);
            assert(all[2] == MenuAction::Close);
            assert(all[1] == MenuAction::Color);
        },
    }
}

/// A menu opens at the click where it fits, and otherwise ends there; it never leaves
/// the screen on the right where there is room on the left.
pub proof fn law_menus_stay_on_the_screen(x: int, width: int)
    requires
        0 <= x < width <= u16::MAX - 14,
    ensures
        x + 14 <= width ==> mode::menu_left(x, width) == x,
        x + 14 > width && x >= 14 ==> mode::menu_left(x, width) + 14 == x,
        14 <= width ==> 0 <= mode::menu_left(x, width) && mode::menu_left(x, width) + 14 <= width
            || x < 14,
{
}

/// While the sidebar is walked the mark moves one row, never past the ends, and enter
/// brings up what stands in the row.
pub proof fn law_walking_follows_the_keys(
    client: App,
    key: KeyEvent,
    current: usize,
    after: App,
    sent: Seq<ClientMessage>,
)
    requires
        client.layout is Some,
        current < app::row_count(client.layout->0) <= usize::MAX,
        client.navigated(key, current, after, sent),
    ensures
        key.code == KeyCode::Down ==> sent.len() == 0 && after.navigate == Some(
            if current + 1 < app::row_count(client.layout->0) {
                (current + 1) as usize
            } else {
                current
            },
        ),
        key.code == KeyCode::Up ==> sent.len() == 0 && after.navigate == Some(
            if current > 0 {
                (current - 1) as usize
            } else {
                current
            },
        ),
        key.code == KeyCode::Enter ==> after.navigate is None && sent.len() == 1
            && match app::row_target(client.layout->0, current as int) {
            SidebarTarget::Workspace(id) => sent[0] == (ClientMessage::SelectWorkspace { id }),
            SidebarTarget::Tab(id) => sent[0] == (ClientMessage::SelectTab { id }),
            SidebarTarget::Pane(id) => sent[0] == (ClientMessage::FocusPaneId { id }),
        },
        key.code == KeyCode::Esc ==> after.navigate is None && sent.len() == 0,
{
}

// ---------------------------------------------------------------------------- mouse

/// Turning the wheel scrolls the pane under the pointer and no other: up for up, down
/// for down, by the same amount.
pub proof fn law_the_wheel_scrolls_what_is_under_it(
    client: App,
    column: u16,
    row: u16,
    size: (u16, u16),
    content: Rect,
    rects: Seq<(PaneId, Rect)>,
    after: App,
    sent: Seq<ClientMessage>,
    up: bool,
)
    requires
        client.pointed(
            if up {
                MouseEventKind::ScrollUp
            } else {
                MouseEventKind::ScrollDown
            },
            column,
            row,
            size,
            content,
            rects,
            after,
            sent,
        ),
    ensures
        after == client,
        (exists|i: int|
            0 <= i < rects.len() && (#[trigger] rects[i]).1.has_cell(column as int, row as int))
            <==> sent.len() == 1,
        sent.len() <= 1,
        sent.len() == 1 ==> (sent[0] matches ClientMessage::ScrollPane { id, delta } && (up
            <==> delta > 0) && (!up <==> delta < 0) && exists|i: int|
            0 <= i < rects.len() && (#[trigger] rects[i]).0 == id && rects[i].1.has_cell(
                column as int,
                row as int,
            )),
{
    finding::law_panes_are_hit_where_they_are(rects, column as int, row as int);
}

/// A click in a pane gives it the focus: not on a border, the sidebar or the tab bar, the
/// one message that is sent names the pane under the pointer.
pub proof fn law_clicks_focus_panes(
    client: App,
    column: u16,
    row: u16,
    size: (u16, u16),
    content: Rect,
    rects: Seq<(PaneId, Rect)>,
    after: App,
    sent: Seq<ClientMessage>,
)
    requires
        client.menu is None,
        client.pointed(
            MouseEventKind::Down(MouseButton::Left),
            column,
            row,
            size,
            content,
            rects,
            after,
            sent,
        ),
        column >= content.x,
        row > 0,
        forall|i: int, j: int|
            0 <= i < rects.len() && 0 <= j < rects.len() ==> !finding::touching(
                (#[trigger] rects[i]).1,
                (#[trigger] rects[j]).1,
                column as int,
                row as int,
            ),
    ensures
        after == client,
        (exists|i: int|
            0 <= i < rects.len() && (#[trigger] rects[i]).1.has_cell(column as int, row as int))
            <==> sent.len() == 1,
        sent.len() == 1 ==> (sent[0] matches ClientMessage::FocusPaneId { id } && exists|i: int|
            0 <= i < rects.len() && (#[trigger] rects[i]).0 == id && rects[i].1.has_cell(
                column as int,
                row as int,
            )),
{
    finding::law_panes_are_hit_where_they_are(rects, column as int, row as int);
    finding::law_borders_lie_between_panes(rects, column as int, row as int);
}

/// A border follows the pointer: while it is held, each move asks for exactly the cells
/// that the pointer went, across for an upright border and down for a level one, and
/// letting go ends it.
pub proof fn law_borders_follow_the_pointer(
    client: App,
    column: u16,
    row: u16,
    after: App,
    sent: Seq<ClientMessage>,
)
    requires
        client.drag is Some,
        client.dragged(column, row, after, sent),
    ensures
        ({
            let drag = client.drag->0;
            let moved = if drag.vertical {
                column - drag.last
            } else {
                row - drag.last
            };
            &&& moved == 0 ==> sent.len() == 0 && after == client
            &&& moved != 0 ==> sent.len() == 1 && (sent[0] matches ClientMessage::ResizePane {
                direction,
                cells,
            } && direction == drag.direction && (i16::MIN <= moved <= i16::MAX ==> cells == moved)
                && (cells > 0 <==> moved > 0)) && (after.drag matches Some(now) && now.last == (
            if drag.vertical {
                column
            } else {
                row
            }) && now.direction == drag.direction && now.vertical == drag.vertical)
        }),
{
}

/// A click on a row of the sidebar brings up what stands there, and a click on the hidden
/// sidebar shows it.
pub proof fn law_clicks_open_the_sidebar(
    client: App,
    column: u16,
    row: u16,
    size: (u16, u16),
    content: Rect,
    rects: Seq<(PaneId, Rect)>,
    after: App,
    sent: Seq<ClientMessage>,
)
    requires
        client.menu is None,
        client.layout is Some,
        client.pointed(
            MouseEventKind::Down(MouseButton::Left),
            column,
            row,
            size,
            content,
            rects,
            after,
            sent,
        ),
        column < content.x,
    ensures
        !client.sidebar ==> after.sidebar && sent.len() == 1 && sent[0] is Resize,
        client.sidebar && row < render::SIDEBAR_HEADER_ROWS ==> sent.len() == 0,
        client.sidebar && 0 <= row - render::SIDEBAR_HEADER_ROWS < app::row_count(
            client.layout->0,
        ) ==> sent.len() == 1 && match app::row_target(
            client.layout->0,
            row - render::SIDEBAR_HEADER_ROWS,
        ) {
            SidebarTarget::Workspace(id) => sent[0] == (ClientMessage::SelectWorkspace { id }),
            SidebarTarget::Tab(id) => sent[0] == (ClientMessage::SelectTab { id }),
            SidebarTarget::Pane(id) => sent[0] == (ClientMessage::FocusPaneId { id }),
        },
{
}

/// A right click opens the menu of the pane under the pointer, at the pointer, with its
/// first entry marked.
pub proof fn law_right_clicks_open_menus(
    client: App,
    column: u16,
    row: u16,
    size: (u16, u16),
    content: Rect,
    rects: Seq<(PaneId, Rect)>,
    after: App,
    sent: Seq<ClientMessage>,
)
    requires
        client.pointed(
            MouseEventKind::Down(MouseButton::Right),
            column,
            row,
            size,
            content,
            rects,
            after,
            sent,
        ),
        column >= content.x,
    ensures
        sent.len() == 0,
        after.menu is Some <==> exists|i: int|
            0 <= i < rects.len() && (#[trigger] rects[i]).1.has_cell(column as int, row as int),
        after.menu matches Some(menu) ==> menu.x == column && menu.y == row && menu.selected == 0
            && (menu.target matches MenuTarget::Pane(id) && exists|i: int|
            0 <= i < rects.len() && (#[trigger] rects[i]).0 == id && rects[i].1.has_cell(
                column as int,
                row as int,
            )),
{
    finding::law_panes_are_hit_where_they_are(rects, column as int, row as int);
}

/// A click on a border takes hold of it, and a click on a tab's label selects the tab.
pub proof fn law_clicks_take_hold(
    app: App,
    column: u16,
    row: u16,
    size: (u16, u16),
    content: Rect,
    rects: Seq<(PaneId, Rect)>,
    after: App,
    sent: Seq<ClientMessage>,
)
    requires
        app.clicked(column, row, size, content, rects, after, sent),
        column >= content.x,
    ensures
        input::border_from(rects, 0, 1, column as int, row as int) matches Some(hit) ==> {
            &&& sent == seq![ClientMessage::FocusPaneId { id: hit.pane }]
            &&& after.drag matches Some(drag) && drag.direction == hit.direction && drag.vertical
                == hit.vertical && drag.last == (if hit.vertical {
                column
            } else {
                row
            })
        },
        input::border_from(rects, 0, 1, column as int, row as int) is None ==> after == app,
        input::border_from(rects, 0, 1, column as int, row as int) is None && row == 0 ==> sent == (
        match input::tab_under(
            crate::render::tabs_on_screen(app.layout->0, content),
            column as int,
        ) {
            Some(id) => seq![ClientMessage::SelectTab { id }],
            None => Seq::empty(),
        }),
{
}

/// Below the last row of the sidebar there is nothing to click on.
pub proof fn law_nothing_is_below_the_sidebar(layout: LayoutSnapshot, row: int)
    ensures
        row <= 0 || row > app::row_count(layout) ==> app::target_at(layout, row) is None,
        1 <= row <= app::row_count(layout) ==> app::target_at(layout, row) == Some(
            app::row_target(layout, row - 1),
        ),
{
}

/// Panes have all of the screen but the sidebar, which is twenty-four columns wide, or one
/// when it is hidden.
pub proof fn law_panes_have_the_rest_of_the_screen(
    client: App,
    size: (u16, u16),
    content: Rect,
    rects: Seq<(PaneId, Rect)>,
)
    requires
        client.on_screen(size, content, rects),
        size.0 > 24,
        size.0 < u16::MAX,
        size.1 < u16::MAX,
    ensures
        content.x == (if client.sidebar {
            24int
        } else {
            1
        }),
        content.x + content.width == size.0,
        content.y == 0,
        content.height == size.1,
{
}

/// The last pane is the one that had the focus before: when the focus goes from one pane to
/// another, the first is the last one, and going back to it makes the other so.
pub proof fn law_the_last_pane_had_the_focus(
    client: App,
    first: LayoutSnapshot,
    between: App,
    second: LayoutSnapshot,
    after: App,
    a: PaneId,
    b: PaneId,
)
    requires
        client.takes(first, between),
        between.takes(second, after),
        crate::layout::pane_in_focus(first.panes@) matches Some(pane) && pane.id == a,
        crate::layout::pane_in_focus(second.panes@) matches Some(pane) && pane.id == b,
    ensures
        after.focused_pane == Some(b),
        after.layout == Some(second),
        a != b ==> after.last_pane == Some(a),
        a == b ==> after.last_pane == between.last_pane,
{
}

/// What was copied is said, and that a part is missing where it is too long to be kept whole.
pub proof fn law_copies_are_told(
    client: App,
    key: KeyEvent,
    after: App,
    sent: Seq<ClientMessage>,
    clipboard: Option<String>,
)
    requires
        client.copy is Some,
        client.copy->0.anchor is Some,
        client.copy_key(key, after, sent, clipboard),
        app::copy_step(key) == CopyStep::Yank,
    ensures
        ({
            let picked = app::yanked(client.copy->0, client.copy->0.anchor->0);
            &&& after.copy is None
            &&& sent.len() == 0
            &&& vstd::utf8::encode_utf8(picked).len() <= 100_000 ==> text::option_text(after.note)
                == Some(" copied"@)
            &&& vstd::utf8::encode_utf8(picked).len() > 100_000 ==> text::option_text(after.note)
                == Some(" copied (truncated to 100KB)"@)
        }),
{
}

} // verus!
