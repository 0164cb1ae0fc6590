//! The attached client: what a key, a click or a new layout does. Messages go back to
//! the caller, which sends them.

use vstd::prelude::*;

use crate::config::{self, Config};
use crate::event::{KeyCode, KeyEvent, MouseButton, MouseEventKind};
use crate::geometry::Rect;
use crate::help::BoundAction;
use crate::input;
use crate::layout;
use crate::mode::{self, CopyMode, Menu, MenuAction, MenuTarget};
use crate::num;
use crate::proto::{
    AgentInfo, AgentStateKind, ClientMessage, Direction, LayoutSnapshot, PaneId, SidebarTabInfo,
    WorkspaceInfo,
};
use crate::render::{self, SidebarTarget};
use crate::text;

verus! {

/// Lines that a turn of the wheel scrolls.
pub const SCROLL_STEP: i16 = 3;

/// Whether the client goes on.
#[derive(Debug, Clone, Copy, PartialEq, Eq, Structural)]
pub enum Flow {
    Continue,
    Detach,
}

/// A question in the status bar, and what is sent when it is answered with yes.
#[derive(Debug, PartialEq, Eq)]
pub struct Confirm {
    pub message: String,
    pub on_yes: ClientMessage,
}

/// A pane border that is being dragged.
#[derive(Debug, Clone, Copy, PartialEq, Eq, Structural)]
pub struct DragState {
    pub direction: Direction,
    pub vertical: bool,
    pub last: u16,
}

/// What a key or a click led to: what is sent, what goes into the clipboard, and whether
/// the client goes on.
#[derive(Debug, PartialEq, Eq)]
pub struct Effect {
    pub messages: Vec<ClientMessage>,
    pub clipboard: Option<String>,
    pub flow: Flow,
}

/// Everything that the client holds between frames.
pub struct App {
    pub layout: Option<LayoutSnapshot>,
    pub prefix: bool,
    pub rename: bool,
    /// The prompt for a workspace; it shares `name` with the rename prompt.
    pub new_workspace: bool,
    pub name: String,
    pub rename_target: Option<MenuTarget>,
    pub drag: Option<DragState>,
    pub sidebar: bool,
    pub navigate: Option<usize>,
    pub copy: Option<CopyMode>,
    pub menu: Option<Menu>,
    pub confirm: Option<Confirm>,
    pub resize: bool,
    /// The focused pane of the newest layout, and the one before it.
    pub focused_pane: Option<PaneId>,
    pub last_pane: Option<PaneId>,
    pub note: Option<String>,
    pub session_name: String,
    pub config: Config,
}

// ------------------------------------------------------------------------- plain rules

/// The columns left for panes.
pub open spec fn columns_for(cols: u16, sidebar: bool) -> u16 {
    num::max(cols - render::gutter(sidebar), 1) as u16
}

/// The columns that panes get on a screen of some width.
pub fn pane_cols(cols: u16, sidebar: bool) -> (r: u16)
    ensures
        r == columns_for(cols, sidebar),
{
    num::max_u16(cols.saturating_sub(render::sidebar_width(sidebar)), 1)
}

pub open spec fn counted(count: nat) -> Seq<char> {
    if count == 1 {
        "agent"@
    } else {
        "agents"@
    }
}

fn plural(count: u64) -> (r: &'static str)
    ensures
        r@ == counted(count as nat),
{
    if count == 1 {
        "agent"
    } else {
        "agents"
    }
}

/// How many of the first `count` agents are working.
pub open spec fn working(agents: Seq<AgentInfo>, count: int) -> nat
    decreases count,
{
    if count <= 0 {
        0
    } else {
        working(agents, count - 1) + (if agents[count - 1].state == AgentStateKind::Working {
            1nat
        } else {
            0nat
        })
    }
}

/// How many of the first `count` agents are working or wait for an answer.
pub open spec fn busy(agents: Seq<AgentInfo>, count: int) -> nat
    decreases count,
{
    if count <= 0 {
        0
    } else {
        busy(agents, count - 1) + (if agents[count - 1].state == AgentStateKind::Working
            || agents[count - 1].state == AgentStateKind::Blocked {
            1nat
        } else {
            0nat
        })
    }
}

pub open spec fn busy_tabs(tabs: Seq<SidebarTabInfo>, count: int) -> nat
    decreases count,
{
    if count <= 0 {
        0
    } else {
        busy_tabs(tabs, count - 1) + busy(
            tabs[count - 1].agents@,
            tabs[count - 1].agents@.len() as int,
        )
    }
}

/// The largest number of agents that is told apart.
pub open spec fn held(count: nat) -> nat {
    num::min(count as int, u64::MAX as int) as nat
}

/// The question before a tab is closed; none where no agent in it is working.
pub open spec fn tab_question(tab: SidebarTabInfo) -> Option<Seq<char>> {
    let count = held(working(tab.agents@, tab.agents@.len() as int));
    if count > 0 {
        Some(
            "close tab \""@ + tab.name@ + "\" with "@ + text::decimal(count) + " working "@
                + counted(count) + "? y/n"@,
        )
    } else {
        None
    }
}

/// The question before a tab is closed.
pub fn close_tab_prompt(tab: &SidebarTabInfo) -> (r: Option<String>)
    ensures
        text::option_text(r) == tab_question(*tab),
{
    let mut count: u64 = 0;
    let mut i: usize = 0;
    while i < tab.agents.len()
        invariant
            i <= tab.agents@.len(),
            count == held(working(tab.agents@, i as int)),
        decreases tab.agents@.len() - i,
    {
        if tab.agents[i].state == AgentStateKind::Working {
            count = count.saturating_add(1);
        }
        i += 1;
    }
    if count == 0 {
        return None;
    }
    let number = text::decimal_text(count);
    let mut out = text::cat3("close tab \"", tab.name.as_str(), "\" with ");
    out.append(number.as_str());
    out.append(" working ");
    out.append(plural(count));
    out.append("? y/n");
    Some(out)
}

/// The question before a workspace is closed; none where no agent in it is active.
pub open spec fn workspace_question(workspace: WorkspaceInfo) -> Option<Seq<char>> {
    let count = held(busy_tabs(workspace.tabs@, workspace.tabs@.len() as int));
    if count > 0 {
        Some(
            "close workspace \""@ + workspace.name@ + "\" with "@ + text::decimal(count)
                + " active "@ + counted(count) + "? y/n"@,
        )
    } else {
        None
    }
}

/// The question before a workspace is closed.
pub fn close_workspace_prompt(workspace: &WorkspaceInfo) -> (r: Option<String>)
    ensures
        text::option_text(r) == workspace_question(*workspace),
{
    let mut count: u64 = 0;
    let mut t: usize = 0;
    while t < workspace.tabs.len()
        invariant
            t <= workspace.tabs@.len(),
            count == held(busy_tabs(workspace.tabs@, t as int)),
        decreases workspace.tabs@.len() - t,
    {
        let agents = &workspace.tabs[t].agents;
        let ghost base = busy_tabs(workspace.tabs@, t as int);
        let mut i: usize = 0;
        while i < agents.len()
            invariant
                i <= agents@.len(),
                count == held(base + busy(agents@, i as int)),
            decreases agents@.len() - i,
        {
            let state = agents[i].state;
            if state == AgentStateKind::Working || state == AgentStateKind::Blocked {
                count = count.saturating_add(1);
            }
            i += 1;
        }
        t += 1;
    }
    if count == 0 {
        return None;
    }
    let number = text::decimal_text(count);
    let mut out = text::cat3("close workspace \"", workspace.name.as_str(), "\" with ");
    out.append(number.as_str());
    out.append(" active ");
    out.append(plural(count));
    out.append("? y/n");
    Some(out)
}

/// A path with a leading `~` taken for the home directory.
pub open spec fn expanded(token: Seq<char>, home: Option<Seq<char>>) -> Seq<char> {
    match home {
        Some(home) => if "~/"@.is_prefix_of(token) {
            text::path_join(home, token.skip(2))
        } else if token == "~"@ {
            home
        } else {
            token
        },
        None => token,
    }
}

fn expand_tilde(token: &str, home: &Option<String>) -> (r: String)
    ensures
        r@ == expanded(token@, text::option_text(*home)),
{
    proof {
        reveal_strlit("~/");
    }
    match home {
        Some(home) => match text::strip_prefix(token, "~/") {
            Some(rest) => {
                assert(rest@ == token@.skip(2));
                text::join_path(home.as_str(), rest)
            },
            None => if text::same(token, "~") {
                home.clone()
            } else {
                token.to_owned()
            },
        },
        None => token.to_owned(),
    }
}

/// A word that is taken for a path.
pub open spec fn pathish(token: Seq<char>) -> bool {
    "~"@.is_prefix_of(token) || token.contains('/')
}

/// The name and the directory that a workspace prompt asks for. A lone path gives the
/// directory; otherwise the first word is the name and the second the directory. The
/// directory is the focused pane's by default, the name its last part.
pub open spec fn prompted(
    words: Seq<Seq<char>>,
    cwd: Option<Seq<char>>,
    home: Option<Seq<char>>,
) -> (Seq<char>, Option<Seq<char>>) {
    let path = if words.len() >= 2 {
        Some(words[1])
    } else if words.len() == 1 && pathish(words[0]) {
        Some(words[0])
    } else {
        None
    };
    let root = match path {
        Some(token) => Some(expanded(token, home)),
        None => cwd,
    };
    let name = if words.len() >= 2 || (words.len() == 1 && !pathish(words[0])) {
        Some(words[0])
    } else {
        match root {
            Some(root) => text::base_name(root),
            None => None,
        }
    };
    (
        match name {
            Some(name) => name,
            None => "workspace"@,
        },
        root,
    )
}

/// Reads a prompt of a name, a directory, or both.
pub fn parse_workspace_prompt(
    input: &str,
    focused_cwd: &Option<String>,
    home: &Option<String>,
) -> (r: (String, Option<String>))
    ensures
        (r.0@, text::option_text(r.1)) == prompted(
            text::words_of(input@),
            text::option_text(*focused_cwd),
            text::option_text(*home),
        ),
{
    let words = text::words(input);
    let ghost all = text::words_of(input@);
    assert(text::texts(words@).len() == words@.len());
    assert(words@.len() > 0 ==> all[0] == words@[0]@);
    assert(words@.len() > 1 ==> all[1] == words@[1]@);
    let lone_path = words.len() == 1 && (text::starts_with(words[0].as_str(), "~")
        || text::contains_char(words[0].as_str(), '/'));
    let root = if words.len() >= 2 {
        Some(expand_tilde(words[1].as_str(), home))
    } else if lone_path {
        Some(expand_tilde(words[0].as_str(), home))
    } else {
        match focused_cwd {
            Some(cwd) => Some(cwd.clone()),
            None => None,
        }
    };
    let name = if words.len() >= 2 || (words.len() == 1 && !lone_path) {
        Some(words[0].clone())
    } else {
        match &root {
            Some(root) => text::file_name(root.as_str()),
            None => None,
        }
    };
    let name = match name {
        Some(name) => name,
        None => "workspace".to_owned(),
    };
    (name, root)
}

/// What the choice of a sidebar row sends: its workspace, tab or pane is brought up.
pub open spec fn brings_up(target: SidebarTarget) -> ClientMessage {
    match target {
        SidebarTarget::Workspace(id) => ClientMessage::SelectWorkspace { id },
        SidebarTarget::Tab(id) => ClientMessage::SelectTab { id },
        SidebarTarget::Pane(id) => ClientMessage::FocusPaneId { id },
    }
}

/// What the choice of a sidebar row sends.
pub fn sidebar_message(target: SidebarTarget) -> (r: ClientMessage)
    ensures
        r == brings_up(target),
{
    match target {
        SidebarTarget::Workspace(id) => ClientMessage::SelectWorkspace { id },
        SidebarTarget::Tab(id) => ClientMessage::SelectTab { id },
        SidebarTarget::Pane(id) => ClientMessage::FocusPaneId { id },
    }
}

// ----------------------------------------------------------------------- bytes of keys

/// The number in the code of a function key from the fifth on.
pub open spec fn function_code(n: u8) -> nat {
    if n == 5 {
        15
    } else if n == 6 {
        17
    } else if n == 7 {
        18
    } else if n == 8 {
        19
    } else if n == 9 {
        20
    } else if n == 10 {
        21
    } else if n == 11 {
        23
    } else {
        24
    }
}

/// What a program in a terminal is sent for a key, without a meta key.
pub open spec fn plain_bytes(code: KeyCode, control: bool) -> Option<Seq<u8>> {
    match code {
        KeyCode::Char(c) => if control {
            Some(seq![((text::ascii_lowercase(c) as u32 % 256) as u8) & 0x1fu8])
        } else {
            Some(vstd::utf8::encode_utf8(seq![c]))
        },
        KeyCode::Enter => Some(seq![13u8]),
        KeyCode::Backspace => Some(seq![127u8]),
        KeyCode::Tab => Some(seq![9u8]),
        KeyCode::Esc => Some(seq![27u8]),
        KeyCode::Up => Some(seq![27u8, 91, 65]),
        KeyCode::Down => Some(seq![27u8, 91, 66]),
        KeyCode::Right => Some(seq![27u8, 91, 67]),
        KeyCode::Left => Some(seq![27u8, 91, 68]),
        KeyCode::Home => Some(seq![27u8, 91, 72]),
        KeyCode::End => Some(seq![27u8, 91, 70]),
        KeyCode::PageUp => Some(seq![27u8, 91, 53, 126]),
        KeyCode::PageDown => Some(seq![27u8, 91, 54, 126]),
        KeyCode::Delete => Some(seq![27u8, 91, 51, 126]),
        KeyCode::F(n) => if 1 <= n <= 4 {
            Some(seq![27u8, 79, (79 + n) as u8])
        } else if 5 <= n <= 12 {
            Some(
                seq![27u8, 91, (48 + function_code(n) / 10) as u8, (48 + function_code(n) % 10) as u8, 126],
            )
        } else {
            None
        },
        _ => None,
    }
}

/// What a program in a terminal is sent for a key.
pub open spec fn key_bytes(key: KeyEvent) -> Option<Seq<u8>> {
    match plain_bytes(key.code, key.modifiers.control) {
        Some(bytes) => if key.modifiers.alt {
            Some(seq![27u8] + bytes)
        } else {
            Some(bytes)
        },
        None => None,
    }
}

pub open spec fn option_bytes(v: Option<Vec<u8>>) -> Option<Seq<u8>> {
    match v {
        Some(bytes) => Some(bytes@),
        None => None,
    }
}

fn char_bytes(c: char) -> (r: Vec<u8>)
    ensures
        r@ == vstd::utf8::encode_utf8(seq![c]),
{
    let mut s = String::new();
    s.push(c);
    assert(s@ =~= seq![c]);
    let bytes = s.as_str().as_bytes();
    let mut out: Vec<u8> = Vec::new();
    let mut i: usize = 0;
    assert(out@ =~= bytes@.take(0));
    while i < bytes.len()
        invariant
            i <= bytes@.len(),
            out@ == bytes@.take(i as int),
        decreases bytes@.len() - i,
    {
        out.push(bytes[i]);
        assert(bytes@.take(i + 1) =~= bytes@.take(i as int).push(bytes@[i as int]));
        i += 1;
    }
    assert(bytes@.take(i as int) =~= bytes@);
    out
}

fn function_number(n: u8) -> (r: u8)
    requires
        5 <= n <= 12,
    ensures
        r == function_code(n),
        15 <= r <= 24,
{
    if n == 5 {
        15
    } else if n == 6 {
        17
    } else if n == 7 {
        18
    } else if n == 8 {
        19
    } else if n == 9 {
        20
    } else if n == 10 {
        21
    } else if n == 11 {
        23
    } else {
        24
    }
}

fn bytes_for(code: KeyCode, control: bool) -> (r: Option<Vec<u8>>)
    ensures
        option_bytes(r) == plain_bytes(code, control),
{
    let out: Vec<u8> = match code {
        KeyCode::Char(c) => if control {
            let low: u8 = (text::to_ascii_lower(c) as u32 % 256) as u8;
            vec![low & 0x1f]
        } else {
            char_bytes(c)
        },
        KeyCode::Enter => vec![13],
        KeyCode::Backspace => vec![127],
        KeyCode::Tab => vec![9],
        KeyCode::Esc => vec![27],
        KeyCode::Up => vec![27, 91, 65],
        KeyCode::Down => vec![27, 91, 66],
        KeyCode::Right => vec![27, 91, 67],
        KeyCode::Left => vec![27, 91, 68],
        KeyCode::Home => vec![27, 91, 72],
        KeyCode::End => vec![27, 91, 70],
        KeyCode::PageUp => vec![27, 91, 53, 126],
        KeyCode::PageDown => vec![27, 91, 54, 126],
        KeyCode::Delete => vec![27, 91, 51, 126],
        KeyCode::F(n) => if 1 <= n && n <= 4 {
            vec![27, 79, 79 + n]
        } else if 5 <= n && n <= 12 {
            let number: u8 = function_number(n);
            vec![27, 91, 48 + number / 10, 48 + number % 10, 126]
        } else {
            return None;
        },
        _ => return None,
    };
    assert(out@ =~= plain_bytes(code, control)->0);
    Some(out)
}

/// What a program in a terminal is sent for a key.
pub fn bytes(key: KeyEvent) -> (r: Option<Vec<u8>>)
    ensures
        option_bytes(r) == key_bytes(key),
{
    match bytes_for(key.code, key.modifiers.control) {
        Some(plain) => if key.modifiers.alt {
            let ghost p = plain@;
            let mut out = plain;
            out.insert(0, 27);
            assert(out@ =~= seq![27u8] + p);
            Some(out)
        } else {
            Some(plain)
        },
        None => None,
    }
}

// ----------------------------------------------------------------------------- actions

/// A configured action among all that a key can be bound to.
pub open spec fn as_bound(action: config::Action) -> BoundAction {
    match action {
        config::Action::SplitRight => BoundAction::SplitRight,
        config::Action::SplitDown => BoundAction::SplitDown,
        config::Action::ClosePane => BoundAction::ClosePane,
        config::Action::NewTab => BoundAction::NewTab,
        config::Action::NextTab => BoundAction::NextTab,
        config::Action::PrevTab => BoundAction::PrevTab,
        config::Action::Zoom => BoundAction::Zoom,
        config::Action::Detach => BoundAction::Detach,
        config::Action::Rename => BoundAction::Rename,
        config::Action::WorkspaceNext => BoundAction::WorkspaceNext,
        config::Action::NewWorkspace => BoundAction::NewWorkspace,
        config::Action::SidebarToggle => BoundAction::SidebarToggle,
        config::Action::FocusUp => BoundAction::FocusUp,
        config::Action::FocusDown => BoundAction::FocusDown,
        config::Action::FocusLeft => BoundAction::FocusLeft,
        config::Action::FocusRight => BoundAction::FocusRight,
        config::Action::ResizeUp => BoundAction::ResizeUp,
        config::Action::ResizeDown => BoundAction::ResizeDown,
        config::Action::ResizeLeft => BoundAction::ResizeLeft,
        config::Action::ResizeRight => BoundAction::ResizeRight,
        config::Action::Navigate => BoundAction::Navigate,
        config::Action::CopyMode => BoundAction::CopyMode,
        config::Action::Help => BoundAction::Help,
    }
}

/// A configured action among all that a key can be bound to.
pub fn bound_action(action: config::Action) -> (r: BoundAction)
    ensures
        r == as_bound(action),
{
    match action {
        config::Action::SplitRight => BoundAction::SplitRight,
        config::Action::SplitDown => BoundAction::SplitDown,
        config::Action::ClosePane => BoundAction::ClosePane,
        config::Action::NewTab => BoundAction::NewTab,
        config::Action::NextTab => BoundAction::NextTab,
        config::Action::PrevTab => BoundAction::PrevTab,
        config::Action::Zoom => BoundAction::Zoom,
        config::Action::Detach => BoundAction::Detach,
        config::Action::Rename => BoundAction::Rename,
        config::Action::WorkspaceNext => BoundAction::WorkspaceNext,
        config::Action::NewWorkspace => BoundAction::NewWorkspace,
        config::Action::SidebarToggle => BoundAction::SidebarToggle,
        config::Action::FocusUp => BoundAction::FocusUp,
        config::Action::FocusDown => BoundAction::FocusDown,
        config::Action::FocusLeft => BoundAction::FocusLeft,
        config::Action::FocusRight => BoundAction::FocusRight,
        config::Action::ResizeUp => BoundAction::ResizeUp,
        config::Action::ResizeDown => BoundAction::ResizeDown,
        config::Action::ResizeLeft => BoundAction::ResizeLeft,
        config::Action::ResizeRight => BoundAction::ResizeRight,
        config::Action::Navigate => BoundAction::Navigate,
        config::Action::CopyMode => BoundAction::CopyMode,
        config::Action::Help => BoundAction::Help,
    }
}

/// The message that an action sends as it is. Actions that the client acts on itself
/// send none.
pub open spec fn direct(action: BoundAction) -> Option<ClientMessage> {
    match action {
        BoundAction::SplitRight => Some(ClientMessage::SplitRight),
        BoundAction::SplitDown => Some(ClientMessage::SplitDown),
        BoundAction::ClosePane => Some(ClientMessage::ClosePane),
        BoundAction::NewTab => Some(ClientMessage::NewTab),
        BoundAction::NextTab => Some(ClientMessage::NextTab),
        BoundAction::PrevTab => Some(ClientMessage::PrevTab),
        BoundAction::Zoom => Some(ClientMessage::ZoomPane),
        BoundAction::FocusUp => Some(ClientMessage::FocusPane { direction: Direction::Up }),
        BoundAction::FocusDown => Some(ClientMessage::FocusPane { direction: Direction::Down }),
        BoundAction::FocusLeft => Some(ClientMessage::FocusPane { direction: Direction::Left }),
        BoundAction::FocusRight => Some(
            ClientMessage::FocusPane { direction: Direction::Right },
        ),
        BoundAction::ResizeUp => Some(
            ClientMessage::ResizePane { direction: Direction::Up, cells: 2 },
        ),
        BoundAction::ResizeDown => Some(
            ClientMessage::ResizePane { direction: Direction::Down, cells: 2 },
        ),
        BoundAction::ResizeLeft => Some(
            ClientMessage::ResizePane { direction: Direction::Left, cells: 2 },
        ),
        BoundAction::ResizeRight => Some(
            ClientMessage::ResizePane { direction: Direction::Right, cells: 2 },
        ),
        BoundAction::SelectTabIndex(index) => Some(ClientMessage::SelectTabIndex { index }),
        BoundAction::SwapUp => Some(ClientMessage::SwapPane { direction: Direction::Up }),
        BoundAction::SwapDown => Some(ClientMessage::SwapPane { direction: Direction::Down }),
        BoundAction::SwapLeft => Some(ClientMessage::SwapPane { direction: Direction::Left }),
        BoundAction::SwapRight => Some(ClientMessage::SwapPane { direction: Direction::Right }),
        BoundAction::MoveTabLeft => Some(ClientMessage::MoveTab { delta: (-1) as i8 }),
        BoundAction::MoveTabRight => Some(ClientMessage::MoveTab { delta: 1 }),
        BoundAction::NextPane => Some(ClientMessage::FocusPaneCycle { forward: true }),
        BoundAction::PrevPane => Some(ClientMessage::FocusPaneCycle { forward: false }),
        BoundAction::WorkspaceNext => Some(ClientMessage::SelectWorkspaceDelta { delta: 1 }),
        BoundAction::WorkspacePrev => Some(ClientMessage::SelectWorkspaceDelta { delta: (-1) as i8 }),
        BoundAction::BreakPane => Some(ClientMessage::BreakPane),
        BoundAction::LayoutEven => Some(ClientMessage::EqualizeLayout),
        _ => None,
    }
}

fn direct_message(action: BoundAction) -> (r: Option<ClientMessage>)
    ensures
        r == direct(action),
{
    match action {
        BoundAction::SplitRight => Some(ClientMessage::SplitRight),
        BoundAction::SplitDown => Some(ClientMessage::SplitDown),
        BoundAction::ClosePane => Some(ClientMessage::ClosePane),
        BoundAction::NewTab => Some(ClientMessage::NewTab),
        BoundAction::NextTab => Some(ClientMessage::NextTab),
        BoundAction::PrevTab => Some(ClientMessage::PrevTab),
        BoundAction::Zoom => Some(ClientMessage::ZoomPane),
        BoundAction::FocusUp => Some(ClientMessage::FocusPane { direction: Direction::Up }),
        BoundAction::FocusDown => Some(ClientMessage::FocusPane { direction: Direction::Down }),
        BoundAction::FocusLeft => Some(ClientMessage::FocusPane { direction: Direction::Left }),
        BoundAction::FocusRight => Some(
            ClientMessage::FocusPane { direction: Direction::Right },
        ),
        BoundAction::ResizeUp => Some(
            ClientMessage::ResizePane { direction: Direction::Up, cells: 2 },
        ),
        BoundAction::ResizeDown => Some(
            ClientMessage::ResizePane { direction: Direction::Down, cells: 2 },
        ),
        BoundAction::ResizeLeft => Some(
            ClientMessage::ResizePane { direction: Direction::Left, cells: 2 },
        ),
        BoundAction::ResizeRight => Some(
            ClientMessage::ResizePane { direction: Direction::Right, cells: 2 },
        ),
        BoundAction::SelectTabIndex(index) => Some(ClientMessage::SelectTabIndex { index }),
        BoundAction::SwapUp => Some(ClientMessage::SwapPane { direction: Direction::Up }),
        BoundAction::SwapDown => Some(ClientMessage::SwapPane { direction: Direction::Down }),
        BoundAction::SwapLeft => Some(ClientMessage::SwapPane { direction: Direction::Left }),
        BoundAction::SwapRight => Some(ClientMessage::SwapPane { direction: Direction::Right }),
        BoundAction::MoveTabLeft => Some(ClientMessage::MoveTab { delta: -1 }),
        BoundAction::MoveTabRight => Some(ClientMessage::MoveTab { delta: 1 }),
        BoundAction::NextPane => Some(ClientMessage::FocusPaneCycle { forward: true }),
        BoundAction::PrevPane => Some(ClientMessage::FocusPaneCycle { forward: false }),
        BoundAction::WorkspaceNext => Some(ClientMessage::SelectWorkspaceDelta { delta: 1 }),
        BoundAction::WorkspacePrev => Some(ClientMessage::SelectWorkspaceDelta { delta: -1 }),
        BoundAction::BreakPane => Some(ClientMessage::BreakPane),
        BoundAction::LayoutEven => Some(ClientMessage::EqualizeLayout),
        _ => None,
    }
}

/// No message, or one.
pub open spec fn at_most(message: Option<ClientMessage>) -> Seq<ClientMessage> {
    match message {
        Some(message) => seq![message],
        None => Seq::empty(),
    }
}

fn one(message: Option<ClientMessage>) -> (r: Vec<ClientMessage>)
    ensures
        r@ == at_most(message),
{
    let mut out: Vec<ClientMessage> = Vec::new();
    if let Some(message) = message {
        out.push(message);
    }
    assert(out@ =~= at_most(message));
    out
}

fn nothing() -> (r: Vec<ClientMessage>)
    ensures
        r@ == Seq::<ClientMessage>::empty(),
{
    Vec::new()
}

// ------------------------------------------------------------------------------- steps

/// A text after a key was typed into it.
pub open spec fn typed(name: Seq<char>, code: KeyCode) -> Seq<char> {
    match code {
        KeyCode::Enter | KeyCode::Esc => Seq::empty(),
        KeyCode::Backspace => if name.len() > 0 {
            name.drop_last()
        } else {
            name
        },
        KeyCode::Char(c) => name.push(c),
        _ => name,
    }
}

/// Whether a message gives a name to a target, or to the focused pane without one.
pub open spec fn renames(message: ClientMessage, target: Option<MenuTarget>, name: Seq<char>) -> bool {
    match target {
        Some(MenuTarget::Pane(pane)) => message matches ClientMessage::RenamePaneId {
            id,
            name: given,
        } && id == pane && given@ == name,
        Some(MenuTarget::Tab(tab)) => message matches ClientMessage::RenameTabId { id, name: given }
            && id == tab && given@ == name,
        Some(MenuTarget::Workspace(workspace)) => message matches ClientMessage::RenameWorkspaceId {
            id,
            name: given,
        } && id == workspace && given@ == name,
        None => message matches ClientMessage::RenamePane { name: given } && given@ == name,
    }
}

/// What a key does in resize mode.
pub open spec fn resize_step(code: KeyCode) -> Option<(Direction, i16)> {
    match code {
        KeyCode::Char('h') | KeyCode::Left => Some((Direction::Left, 1)),
        KeyCode::Char('j') | KeyCode::Down => Some((Direction::Down, 1)),
        KeyCode::Char('k') | KeyCode::Up => Some((Direction::Up, 1)),
        KeyCode::Char('l') | KeyCode::Right => Some((Direction::Right, 1)),
        KeyCode::Char('H') => Some((Direction::Left, 5)),
        KeyCode::Char('J') => Some((Direction::Down, 5)),
        KeyCode::Char('K') => Some((Direction::Up, 5)),
        KeyCode::Char('L') => Some((Direction::Right, 5)),
        _ => None,
    }
}

/// What a key does in copy mode.
#[derive(Debug, Clone, Copy, PartialEq, Eq, Structural)]
pub enum CopyStep {
    Leave,
    Anchor,
    Yank,
    Rows(isize),
    Columns(isize),
    Scroll(i16),
    Nothing,
}

pub open spec fn copy_step(key: KeyEvent) -> CopyStep {
    match key.code {
        KeyCode::Esc | KeyCode::Char('q') => CopyStep::Leave,
        KeyCode::Char('v') => CopyStep::Anchor,
        KeyCode::Char('y') => CopyStep::Yank,
        KeyCode::Up | KeyCode::Char('k') => CopyStep::Rows((-1) as isize),
        KeyCode::Down | KeyCode::Char('j') => CopyStep::Rows(1),
        KeyCode::Left | KeyCode::Char('h') => CopyStep::Columns((-1) as isize),
        KeyCode::Right | KeyCode::Char('l') => CopyStep::Columns(1),
        KeyCode::PageUp => CopyStep::Scroll(20),
        KeyCode::PageDown => CopyStep::Scroll((-20) as i16),
        KeyCode::Char('u') => if key.modifiers.control {
            CopyStep::Scroll(20)
        } else {
            CopyStep::Nothing
        },
        KeyCode::Char('d') => if key.modifiers.control {
            CopyStep::Scroll((-20) as i16)
        } else {
            CopyStep::Nothing
        },
        _ => CopyStep::Nothing,
    }
}

fn step_in_copy(key: KeyEvent) -> (r: CopyStep)
    ensures
        r == copy_step(key),
{
    match key.code {
        KeyCode::Esc | KeyCode::Char('q') => CopyStep::Leave,
        KeyCode::Char('v') => CopyStep::Anchor,
        KeyCode::Char('y') => CopyStep::Yank,
        KeyCode::Up | KeyCode::Char('k') => CopyStep::Rows(-1),
        KeyCode::Down | KeyCode::Char('j') => CopyStep::Rows(1),
        KeyCode::Left | KeyCode::Char('h') => CopyStep::Columns(-1),
        KeyCode::Right | KeyCode::Char('l') => CopyStep::Columns(1),
        KeyCode::PageUp => CopyStep::Scroll(20),
        KeyCode::PageDown => CopyStep::Scroll(-20),
        KeyCode::Char('u') => if key.modifiers.control {
            CopyStep::Scroll(20)
        } else {
            CopyStep::Nothing
        },
        KeyCode::Char('d') => if key.modifiers.control {
            CopyStep::Scroll(-20)
        } else {
            CopyStep::Nothing
        },
        _ => CopyStep::Nothing,
    }
}

/// The text that a yank takes from copy mode with a mark set.
pub open spec fn yanked(copy: CopyMode, anchor: mode::Cursor) -> Seq<char> {
    text::joined(
        mode::yanked_rows(
            copy.lines@,
            copy.select,
            mode::first_of(anchor, copy.cursor),
            mode::last_of(anchor, copy.cursor),
            mode::last_of(anchor, copy.cursor).row + 1,
        ),
        "\n"@,
    )
}

/// What the terminal is told to take into the clipboard.
pub open spec fn clipboard_text(text: Seq<char>) -> Seq<char> {
    "\x1b]52;c;"@ + mode::base64_text(
        mode::limited(vstd::utf8::encode_utf8(text), mode::OSC52_LIMIT as int),
    ) + "\x07"@
}

/// What the menu entry of a target sends, after its pane was focused.
pub open spec fn menu_messages(target: MenuTarget, action: MenuAction) -> Seq<ClientMessage> {
    match action {
        MenuAction::SplitRight => seq![ClientMessage::SplitRight],
        MenuAction::SplitDown => seq![ClientMessage::SplitDown],
        MenuAction::Zoom => seq![ClientMessage::ZoomPane],
        MenuAction::BreakToTab => seq![ClientMessage::BreakPane],
        MenuAction::Equalize => seq![ClientMessage::EqualizeLayout],
        MenuAction::MoveLeft => match target {
            MenuTarget::Tab(id) => seq![
                ClientMessage::SelectTab { id },
                ClientMessage::MoveTab { delta: (-1) as i8 },
            ],
            _ => Seq::empty(),
        },
        MenuAction::MoveRight => match target {
            MenuTarget::Tab(id) => seq![
                ClientMessage::SelectTab { id },
                ClientMessage::MoveTab { delta: 1 },
            ],
            _ => Seq::empty(),
        },
        MenuAction::Close => match target {
            MenuTarget::Pane(_) => seq![ClientMessage::ClosePane],
            MenuTarget::Tab(id) => seq![ClientMessage::CloseTab { id }],
            MenuTarget::Workspace(id) => seq![ClientMessage::CloseWorkspace { id }],
        },
        _ => Seq::empty(),
    }
}

/// A menu entry for a pane focuses that pane first.
pub open spec fn focus_first(target: MenuTarget) -> Seq<ClientMessage> {
    match target {
        MenuTarget::Pane(id) => seq![ClientMessage::FocusPaneId { id }],
        _ => Seq::empty(),
    }
}

/// The row of a list that is reached from another by some steps.
pub open spec fn stepped(current: usize, rows: int, delta: int) -> Option<usize> {
    if rows == 0 {
        None
    } else {
        Some(num::max(0, num::min(current + delta, rows - 1)) as usize)
    }
}

/// The sidebar target as the target of a menu.
pub open spec fn menu_target(target: SidebarTarget) -> MenuTarget {
    match target {
        SidebarTarget::Workspace(id) => MenuTarget::Workspace(id),
        SidebarTarget::Tab(id) => MenuTarget::Tab(id),
        SidebarTarget::Pane(id) => MenuTarget::Pane(id),
    }
}

/// The directory of the focused pane.
pub open spec fn focused_directory(layout: Option<LayoutSnapshot>) -> Option<Seq<char>> {
    match layout {
        Some(layout) => match layout::pane_in_focus(layout.panes@) {
            Some(pane) => text::option_text(pane.cwd),
            None => None,
        },
        None => None,
    }
}

/// The id of the focused pane.
pub open spec fn focus_of(layout: LayoutSnapshot) -> Option<PaneId> {
    match layout::pane_in_focus(layout.panes@) {
        Some(pane) => Some(pane.id),
        None => None,
    }
}

/// The number of rows in the sidebar.
pub open spec fn row_count(layout: LayoutSnapshot) -> nat {
    render::workspace_rows(layout.workspaces@, layout.workspaces@.len() as int).len()
}

/// The target of a row in the sidebar.
pub open spec fn row_target(layout: LayoutSnapshot, index: int) -> SidebarTarget {
    render::workspace_rows(layout.workspaces@, layout.workspaces@.len() as int)[index].0
}

/// The target of the sidebar row at a line of the screen.
pub open spec fn target_at(layout: LayoutSnapshot, row: int) -> Option<SidebarTarget> {
    let index = row - render::SIDEBAR_HEADER_ROWS;
    if 0 <= index < row_count(layout) {
        Some(row_target(layout, index))
    } else {
        None
    }
}

fn find_target(layout: &LayoutSnapshot, row: u16) -> (r: Option<SidebarTarget>)
    ensures
        r == target_at(*layout, row as int),
{
    let rows = render::sidebar_rows(layout);
    let ghost views = render::row_views(rows@);
    assert(views.len() == rows@.len());
    match render::sidebar_row_at(rows.as_slice(), row) {
        Some(found) => {
            assert(views[row - render::SIDEBAR_HEADER_ROWS] == found@);
            Some(found.target)
        },
        None => None,
    }
}

impl App {
    /// Copy mode stands inside its buffer, and a menu has its selection on an entry.
    pub open spec fn wf(self) -> bool {
        &&& self.copy matches Some(copy) ==> copy.in_view()
        &&& self.menu matches Some(menu) ==> menu.selected < mode::menu_actions(menu.target).len()
    }

    /// What a key in the rename prompt does: enter gives the name to the target, escape
    /// gives up.
    pub open spec fn rename_step(self, key: KeyEvent, after: App, sent: Seq<ClientMessage>) -> bool {
        &&& after.name@ == typed(self.name@, key.code)
        &&& after == (App {
            name: after.name,
            rename: self.rename && key.code != KeyCode::Enter && key.code != KeyCode::Esc,
            rename_target: if key.code == KeyCode::Enter {
                None
            } else {
                self.rename_target
            },
            ..self
        })
        &&& key.code == KeyCode::Enter ==> sent.len() == 1 && renames(
            sent[0],
            self.rename_target,
            self.name@,
        )
        &&& key.code != KeyCode::Enter ==> sent.len() == 0
    }

    /// What a key at a question does: `y` sends what it was about, anything else gives up.
    pub open spec fn confirm_step(self, key: KeyEvent, after: App, sent: Seq<ClientMessage>) -> bool {
        &&& after == (App { confirm: None, ..self })
        &&& sent == (match self.confirm {
            Some(confirm) => if key.code == KeyCode::Char('y') || key.code == KeyCode::Char('Y') {
                seq![confirm.on_yes]
            } else {
                Seq::empty()
            },
            None => Seq::empty(),
        })
    }

    /// What a key in the workspace prompt does: enter creates it, escape gives up.
    pub open spec fn workspace_step(
        self,
        key: KeyEvent,
        home: Option<String>,
        after: App,
        sent: Seq<ClientMessage>,
    ) -> bool {
        &&& after.name@ == typed(self.name@, key.code)
        &&& after == (App {
            name: after.name,
            new_workspace: self.new_workspace && key.code != KeyCode::Enter && key.code
                != KeyCode::Esc,
            ..self
        })
        &&& key.code == KeyCode::Enter ==> sent.len() == 1 && (
        sent[0] matches ClientMessage::NewWorkspace { name, root } && (
            name@,
            text::option_text(root),
        ) == prompted(
            text::words_of(self.name@),
            focused_directory(self.layout),
            text::option_text(home),
        ))
        &&& key.code != KeyCode::Enter ==> sent.len() == 0
    }

    /// What a key in resize mode does.
    pub open spec fn resized(self, key: KeyEvent, after: App, sent: Seq<ClientMessage>) -> bool {
        &&& after == (App {
            resize: self.resize && key.code != KeyCode::Enter && key.code != KeyCode::Esc,
            ..self
        })
        &&& sent == (match resize_step(key.code) {
            Some((direction, cells)) => seq![ClientMessage::ResizePane { direction, cells }],
            None => Seq::empty(),
        })
    }

    /// What a key in copy mode does.
    pub open spec fn copy_key(
        self,
        key: KeyEvent,
        after: App,
        sent: Seq<ClientMessage>,
        clipboard: Option<String>,
    ) -> bool {
        &&& after == (App { copy: after.copy, note: after.note, ..self })
        &&& match self.copy {
            None => after.copy is None && after.note == self.note && sent.len() == 0
                && clipboard is None,
            Some(copy) => {
                let step = copy_step(key);
                let leaves = step == CopyStep::Leave || (step == CopyStep::Yank
                    && copy.anchor is Some);
                &&& leaves ==> after.copy is None
                &&& !leaves ==> after.copy == Some(
                    match step {
                        CopyStep::Anchor => CopyMode { anchor: Some(copy.cursor), ..copy },
                        CopyStep::Rows(delta) => copy.moved(copy.rows_away(delta as int)),
                        CopyStep::Columns(delta) => copy.moved(
                            (
                                copy.cursor.row as int,
                                num::min(
                                    num::add_signed(copy.cursor.col as int, delta as int),
                                    copy.text_at(copy.cursor.row as int).len() as int,
                                ),
                            ),
                        ),
                        _ => copy,
                    },
                )
                &&& sent == (match step {
                    CopyStep::Scroll(delta) => seq![
                        ClientMessage::ScrollPane { id: copy.pane, delta },
                    ],
                    _ => Seq::empty(),
                })
                &&& step == CopyStep::Yank ==> (copy.anchor matches Some(anchor) ==> {
                    let picked = yanked(copy, anchor);
                    &&& text::option_text(clipboard) == Some(clipboard_text(picked))
                    &&& text::option_text(after.note) == Some(
                        if vstd::utf8::encode_utf8(picked).len() > mode::OSC52_LIMIT {
                            " copied (truncated to 100KB)"@
                        } else {
                            " copied"@
                        },
                    )
                })
                &&& step != CopyStep::Yank || copy.anchor is None ==> clipboard is None
                    && after.note == self.note
            },
        }
    }

    /// What running a menu entry does: the menu closes, and a rename opens its prompt.
    pub open spec fn menu_run(
        self,
        menu: Menu,
        index: int,
        after: App,
        sent: Seq<ClientMessage>,
    ) -> bool {
        let action = mode::menu_actions(menu.target)[index];
        &&& sent == focus_first(menu.target) + menu_messages(menu.target, action)
        &&& after == (App {
            menu: None,
            rename: self.rename || action == MenuAction::Rename,
            rename_target: if action == MenuAction::Rename {
                Some(menu.target)
            } else {
                self.rename_target
            },
            ..self
        })
    }

    /// What a key in the context menu does.
    pub open spec fn menu_key(self, key: KeyEvent, after: App, sent: Seq<ClientMessage>) -> bool {
        match self.menu {
            None => after == self && sent.len() == 0,
            Some(menu) => {
                let last = mode::menu_actions(menu.target).len() - 1;
                match key.code {
                    KeyCode::Esc => after == (App { menu: None, ..self }) && sent.len() == 0,
                    KeyCode::Up | KeyCode::Char('k') => sent.len() == 0 && after == (App {
                        menu: Some(
                            Menu {
                                selected: num::min(
                                    num::add_signed(menu.selected as int, -1),
                                    last,
                                ) as usize,
                                ..menu
                            },
                        ),
                        ..self
                    }),
                    KeyCode::Down | KeyCode::Char('j') => sent.len() == 0 && after == (App {
                        menu: Some(
                            Menu {
                                selected: num::min(
                                    num::add_signed(menu.selected as int, 1),
                                    last,
                                ) as usize,
                                ..menu
                            },
                        ),
                        ..self
                    }),
                    KeyCode::Enter => self.menu_run(menu, menu.selected as int, after, sent),
                    _ => after == self && sent.len() == 0,
                }
            },
        }
    }

    /// What a key does while the sidebar is walked.
    pub open spec fn navigated(
        self,
        key: KeyEvent,
        current: usize,
        after: App,
        sent: Seq<ClientMessage>,
    ) -> bool {
        let rows = row_count(self.layout->0) as int;
        match key.code {
            KeyCode::Esc | KeyCode::Char('q') => sent.len() == 0 && after == (App {
                navigate: None,
                sidebar: self.sidebar && self.config.sidebar,
                ..self
            }),
            KeyCode::Up | KeyCode::Char('k') => sent.len() == 0 && after == (App {
                navigate: stepped(current, rows, -1),
                ..self
            }),
            KeyCode::Down | KeyCode::Char('j') => sent.len() == 0 && after == (App {
                navigate: stepped(current, rows, 1),
                ..self
            }),
            KeyCode::Enter => sent == seq![
                brings_up(row_target(self.layout->0, current as int)),
            ] && after == (App { navigate: None, ..self }),
            _ => sent.len() == 0 && after == self,
        }
    }

    /// What the key after the prefix does: the prefix again is passed on, any other key
    /// does what it is bound to.
    pub open spec fn prefixed(
        self,
        key: KeyEvent,
        cols: u16,
        rows: u16,
        after: App,
        sent: Seq<ClientMessage>,
        flow: Flow,
    ) -> bool {
        let ready = App { prefix: false, ..self };
        if key == self.config.prefix {
            after == ready && flow == Flow::Continue && sent.len() == 1 && (
            sent[0] matches ClientMessage::Input { bytes } && bytes@ == (match key_bytes(key) {
                Some(bytes) => bytes,
                None => Seq::empty(),
            }))
        } else {
            match config::bound(self.config.bindings@, key) {
                Some(action) => ready.acted(action, cols, rows, after, sent, flow),
                None => after == ready && sent.len() == 0 && flow == Flow::Continue,
            }
        }
    }

    /// What a bound key does.
    pub open spec fn acted(
        self,
        action: config::Action,
        cols: u16,
        rows: u16,
        after: App,
        sent: Seq<ClientMessage>,
        flow: Flow,
    ) -> bool {
        self.performed(as_bound(action), cols, rows, after, sent) && flow == (if as_bound(action)
            == BoundAction::Detach {
            Flow::Detach
        } else {
            Flow::Continue
        })
    }

    /// What a key does: a question, a prompt or a mode that is open takes it, in this
    /// order; otherwise it follows the prefix, is the prefix, does what it is bound to on
    /// its own, or goes to the focused pane.
    pub open spec fn keyed(
        self,
        key: KeyEvent,
        cols: u16,
        rows: u16,
        home: Option<String>,
        after: App,
        effect: Effect,
    ) -> bool {
        let sent = effect.messages@;
        &&& self.confirm is Some || self.rename || self.new_workspace || self.copy is None
            ==> effect.clipboard is None
        &&& !self.passes_keys() ==> effect.flow == Flow::Continue
        &&& if self.confirm is Some {
            self.confirm_step(key, after, sent)
        } else if self.rename {
            self.rename_step(key, after, sent)
        } else if self.new_workspace {
            self.workspace_step(key, home, after, sent)
        } else if self.copy is Some {
            self.copy_key(key, after, sent, effect.clipboard)
        } else if self.menu is Some {
            self.menu_key(key, after, sent)
        } else if self.navigate is Some {
            self.navigated(key, self.navigate->0, after, sent)
        } else if self.resize {
            self.resized(key, after, sent)
        } else if self.prefix {
            self.prefixed(key, cols, rows, after, sent, effect.flow)
        } else if key == self.config.prefix {
            after == (App { prefix: true, ..self }) && sent.len() == 0 && effect.flow
                == Flow::Continue
        } else {
            match config::bound(self.config.globals@, key) {
                Some(action) => self.acted(action, cols, rows, after, sent, effect.flow),
                None => after == self && effect.flow == Flow::Continue && match key_bytes(key) {
                    Some(bytes) => sent.len() == 1 && (
                    sent[0] matches ClientMessage::Input { bytes: passed } && passed@ == bytes),
                    None => sent.len() == 0,
                },
            }
        }
    }

    /// What a left click does. An open menu takes it: its entry under the pointer runs, a
    /// click beside it closes it.
    pub open spec fn pressed(
        self,
        column: u16,
        row: u16,
        size: (u16, u16),
        content: Rect,
        rects: Seq<(PaneId, Rect)>,
        after: App,
        sent: Seq<ClientMessage>,
    ) -> bool {
        match self.menu {
            None => self.clicked(column, row, size, content, rects, after, sent),
            Some(menu) => {
                let x = mode::menu_left(menu.x as int, size.0 as int);
                let count = mode::menu_actions(menu.target).len() as int;
                if x <= column < num::min(x + mode::MENU_WIDTH, u16::MAX as int) && menu.y <= row
                    < num::min(menu.y + count, u16::MAX as int) {
                    self.menu_run(menu, row - menu.y, after, sent)
                } else {
                    after == (App { menu: None, ..self }) && sent.len() == 0
                }
            },
        }
    }

    /// Where the sidebar leaves room for the content, and where the panes are in it.
    pub open spec fn on_screen(
        self,
        size: (u16, u16),
        content: Rect,
        rects: Seq<(PaneId, Rect)>,
    ) -> bool {
        &&& content == render::second_half(
            Rect { x: 0, y: 0, width: size.0, height: size.1 },
            true,
            render::gutter(self.sidebar),
        )
        &&& exists|inner: Rect| #[trigger]
            render::between_bars(content, inner) && render::keyed(rects) == render::placed(
                self.layout->0.tree,
                inner,
                Seq::empty(),
            )
    }

    /// What a mouse event does, with the content and the panes at their places.
    pub open spec fn pointed(
        self,
        kind: MouseEventKind,
        column: u16,
        row: u16,
        size: (u16, u16),
        content: Rect,
        rects: Seq<(PaneId, Rect)>,
        after: App,
        sent: Seq<ClientMessage>,
    ) -> bool {
        match kind {
            MouseEventKind::Down(MouseButton::Left) => self.pressed(
                column,
                row,
                size,
                content,
                rects,
                after,
                sent,
            ),
            MouseEventKind::Down(MouseButton::Right) => sent.len() == 0 && after == (App {
                menu: match self.menu_for(column, row, content, rects) {
                    Some(target) => Some(Menu { target, x: column, y: row, selected: 0 }),
                    None => None,
                },
                ..self
            }),
            MouseEventKind::Drag(MouseButton::Left) => self.dragged(column, row, after, sent),
            MouseEventKind::Up(MouseButton::Left) => after == (App { drag: None, ..self })
                && sent.len() == 0,
            MouseEventKind::ScrollUp => after == self && sent == scrolls(
                rects,
                column,
                row,
                SCROLL_STEP,
            ),
            MouseEventKind::ScrollDown => after == self && sent == scrolls(
                rects,
                column,
                row,
                (-SCROLL_STEP) as i16,
            ),
            _ => after == self && sent.len() == 0,
        }
    }

    /// What moving the pointer with the button held does: the dragged border follows it.
    pub open spec fn dragged(
        self,
        column: u16,
        row: u16,
        after: App,
        sent: Seq<ClientMessage>,
    ) -> bool {
        match self.drag {
            None => after == self && sent.len() == 0,
            Some(drag) => {
                let now = if drag.vertical {
                    column
                } else {
                    row
                };
                let cells = num::max(i16::MIN as int, num::min(i16::MAX as int, now - drag.last));
                if cells == 0 {
                    after == self && sent.len() == 0
                } else {
                    after == (App { drag: Some(DragState { last: now, ..drag }), ..self }) && sent
                        == seq![
                        ClientMessage::ResizePane {
                            direction: drag.direction,
                            cells: cells as i16,
                        },
                    ]
                }
            },
        }
    }

    pub fn new(config: Config, session: &str) -> (r: Self)
        ensures
            r.wf(),
            r.layout is None,
            !r.prefix && !r.rename && !r.new_workspace && !r.resize,
            r.name@.len() == 0,
            r.rename_target is None,
            r.drag is None,
            r.sidebar == config.sidebar,
            r.navigate is None,
            r.copy is None,
            r.menu is None,
            r.confirm is None,
            r.focused_pane is None && r.last_pane is None,
            r.note is None,
            r.session_name@ == session@,
            r.config == config,
    {
        App {
            layout: None,
            prefix: false,
            rename: false,
            new_workspace: false,
            name: String::new(),
            rename_target: None,
            drag: None,
            sidebar: config.sidebar,
            navigate: None,
            copy: None,
            menu: None,
            confirm: None,
            resize: false,
            focused_pane: None,
            last_pane: None,
            note: None,
            session_name: session.to_owned(),
            config,
        }
    }

    /// The columns that panes get on a screen of some width.
    pub fn pane_cols(&self, cols: u16) -> (r: u16)
        ensures
            r == columns_for(cols, self.sidebar),
    {
        pane_cols(cols, self.sidebar)
    }

    /// What a new layout makes of the focus: the pane that had it is the last one.
    pub open spec fn takes(self, layout: LayoutSnapshot, after: App) -> bool {
        &&& after.layout == Some(layout)
        &&& after.focused_pane == focus_of(layout)
        &&& after.last_pane == (match self.focused_pane {
            Some(pane) => if focus_of(layout) == Some(pane) {
                self.last_pane
            } else {
                Some(pane)
            },
            None => self.last_pane,
        })
    }

    /// Takes a new layout. Copy mode follows the text of its pane, and the pane that
    /// had the focus before is remembered.
    pub fn handle_layout(&mut self, layout: LayoutSnapshot)
        requires
            old(self).wf(),
        ensures
            final(self).wf(),
            old(self).takes(layout, *final(self)),
            final(self).layout == Some(layout),
            final(self).focused_pane == focus_of(layout),
            final(self).last_pane == (if focus_of(layout) != old(self).focused_pane && old(self).focused_pane is Some {
                old(self).focused_pane
            } else {
                old(self).last_pane
            }),
            final(self).copy is Some == old(self).copy is Some,
            old(self).copy matches Some(copy) ==> (layout::pane_with(
                layout.panes@,
                copy.pane,
            ) is None ==> final(self).copy == old(self).copy),
            old(self).copy matches Some(copy) ==> (layout::pane_with(
                layout.panes@,
                copy.pane,
            ) matches Some(pane) ==> {
                let lines = mode::grid_lines(pane.screen.contents@);
                &&& text::texts(final(self).copy->0.lines@) == lines
                &&& copy.refreshed(pane.screen.rows@.len() as int, final(self).copy->0)
            }),
            *final(self) == (App {
                layout: final(self).layout,
                focused_pane: final(self).focused_pane,
                last_pane: final(self).last_pane,
                copy: final(self).copy,
                ..*old(self)
            }),
    {
        let copy = self.copy.take();
        if let Some(mut copy) = copy {
            if let Some(pane) = layout::find_pane(&layout.panes, copy.pane) {
                let lines = mode::grid(pane.screen.contents.as_str());
                assert(text::texts(lines@).len() == lines@.len());
                copy.refresh(lines, pane.screen.rows.len());
            }
            self.copy = Some(copy);
        }
        let focused = match layout::find_focused(&layout.panes) {
            Some(pane) => Some(pane.id),
            None => None,
        };
        if focused != self.focused_pane {
            if self.focused_pane.is_some() {
                self.last_pane = self.focused_pane;
            }
            self.focused_pane = focused;
        }
        self.layout = Some(layout);
    }

    /// The session has another name.
    pub fn handle_session(&mut self, session: String)
        ensures
            *final(self) == (App { session_name: session, ..*old(self) }),
    {
        self.session_name = session;
    }

    fn type_key(&mut self, code: KeyCode)
        ensures
            final(self).name@ == typed(old(self).name@, code),
            *final(self) == (App { name: final(self).name, ..*old(self) }),
    {
        match code {
            KeyCode::Enter | KeyCode::Esc => {
                self.name = String::new();
                assert(self.name@ =~= Seq::<char>::empty());
            },
            KeyCode::Backspace => {
                let ghost before = self.name@;
                let _ = self.name.pop();
                assert(before.len() > 0 ==> self.name@ =~= before.drop_last());
            },
            KeyCode::Char(c) => {
                self.name.push(c);
            },
            _ => {},
        }
    }

    /// A key in the rename prompt: enter gives the name to the target, escape gives up.
    pub fn handle_rename_key(&mut self, key: KeyEvent) -> (r: Vec<ClientMessage>)
        ensures
            old(self).rename_step(key, *final(self), r@),
    {
        let mut out: Vec<ClientMessage> = Vec::new();
        if key.code == KeyCode::Enter {
            let name = self.name.clone();
            let message = match self.rename_target {
                Some(MenuTarget::Pane(id)) => ClientMessage::RenamePaneId { id, name },
                Some(MenuTarget::Tab(id)) => ClientMessage::RenameTabId { id, name },
                Some(MenuTarget::Workspace(id)) => ClientMessage::RenameWorkspaceId { id, name },
                None => ClientMessage::RenamePane { name },
            };
            out.push(message);
            self.rename_target = None;
        }
        if key.code == KeyCode::Enter || key.code == KeyCode::Esc {
            self.rename = false;
        }
        self.type_key(key.code);
        out
    }

    /// A key at a question: `y` sends what it was about, anything else gives up.
    pub fn handle_confirm_key(&mut self, key: KeyEvent) -> (r: Vec<ClientMessage>)
        ensures
            old(self).confirm_step(key, *final(self), r@),
    {
        let mut out: Vec<ClientMessage> = Vec::new();
        if let Some(confirm) = self.confirm.take() {
            if key.code == KeyCode::Char('y') || key.code == KeyCode::Char('Y') {
                let ghost message = confirm.on_yes;
                out.push(confirm.on_yes);
                assert(out@ =~= seq![message]);
            }
        }
        out
    }

    /// A key in the workspace prompt: enter creates it, escape gives up.
    pub fn handle_new_workspace_key(&mut self, key: KeyEvent, home: &Option<String>) -> (r: Vec<
        ClientMessage,
    >)
        ensures
            old(self).workspace_step(key, *home, *final(self), r@),
    {
        let mut out: Vec<ClientMessage> = Vec::new();
        if key.code == KeyCode::Enter {
            let cwd = match &self.layout {
                Some(layout) => match layout::find_focused(&layout.panes) {
                    Some(pane) => match &pane.cwd {
                        Some(cwd) => Some(cwd.clone()),
                        None => None,
                    },
                    None => None,
                },
                None => None,
            };
            let (name, root) = parse_workspace_prompt(self.name.as_str(), &cwd, home);
            out.push(ClientMessage::NewWorkspace { name, root });
        }
        if key.code == KeyCode::Enter || key.code == KeyCode::Esc {
            self.new_workspace = false;
        }
        self.type_key(key.code);
        out
    }

    /// A key in resize mode, which stays until escape or enter.
    pub fn handle_resize_key(&mut self, key: KeyEvent) -> (r: Vec<ClientMessage>)
        ensures
            old(self).resized(key, *final(self), r@),
    {
        let (direction, cells) = match key.code {
            KeyCode::Esc | KeyCode::Enter => {
                self.resize = false;
                return nothing();
            },
            KeyCode::Char('h') | KeyCode::Left => (Direction::Left, 1i16),
            KeyCode::Char('j') | KeyCode::Down => (Direction::Down, 1i16),
            KeyCode::Char('k') | KeyCode::Up => (Direction::Up, 1i16),
            KeyCode::Char('l') | KeyCode::Right => (Direction::Right, 1i16),
            KeyCode::Char('H') => (Direction::Left, 5i16),
            KeyCode::Char('J') => (Direction::Down, 5i16),
            KeyCode::Char('K') => (Direction::Up, 5i16),
            KeyCode::Char('L') => (Direction::Right, 5i16),
            _ => return nothing(),
        };
        one(Some(ClientMessage::ResizePane { direction, cells }))
    }

    /// A key in copy mode: what is sent, and what goes into the clipboard.
    pub fn handle_copy_key(&mut self, key: KeyEvent) -> (r: (Vec<ClientMessage>, Option<String>))
        requires
            old(self).wf(),
        ensures
            final(self).wf(),
            old(self).copy_key(key, *final(self), r.0@, r.1),
    {
        let mut copy = match self.copy.take() {
            Some(copy) => copy,
            None => return (nothing(), None),
        };
        match step_in_copy(key) {
            CopyStep::Leave => (nothing(), None),
            CopyStep::Anchor => {
                copy.anchor = Some(copy.cursor);
                self.copy = Some(copy);
                (nothing(), None)
            },
            CopyStep::Yank => {
                if copy.anchor.is_none() {
                    self.copy = Some(copy);
                    return (nothing(), None);
                }
                let text = copy.yank_text();
                let (payload, truncated) = mode::osc52(text.as_str());
                self.note = Some(
                    if truncated {
                        " copied (truncated to 100KB)".to_owned()
                    } else {
                        " copied".to_owned()
                    },
                );
                (nothing(), Some(payload))
            },
            CopyStep::Rows(delta) => {
                copy.move_rows(delta);
                self.copy = Some(copy);
                (nothing(), None)
            },
            CopyStep::Columns(delta) => {
                copy.move_cols(delta);
                self.copy = Some(copy);
                (nothing(), None)
            },
            CopyStep::Scroll(delta) => {
                let id = copy.pane;
                self.copy = Some(copy);
                (one(Some(ClientMessage::ScrollPane { id, delta })), None)
            },
            CopyStep::Nothing => {
                self.copy = Some(copy);
                (nothing(), None)
            },
        }
    }

    /// Runs the selected entry of the menu and closes it.
    pub fn execute_menu(&mut self) -> (r: Vec<ClientMessage>)
        requires
            old(self).wf(),
        ensures
            final(self).wf(),
            match old(self).menu {
                None => *final(self) == *old(self) && r@.len() == 0,
                Some(menu) => old(self).menu_run(menu, menu.selected as int, *final(self), r@),
            },
    {
        let menu = match self.menu.take() {
            Some(menu) => menu,
            None => return nothing(),
        };
        let mut out: Vec<ClientMessage> = Vec::new();
        if let MenuTarget::Pane(id) = menu.target {
            out.push(ClientMessage::FocusPaneId { id });
        }
        let ghost first = out@;
        assert(first =~= focus_first(menu.target));
        let action = menu.action();
        match action {
            MenuAction::Rename => {
                self.rename = true;
                self.rename_target = Some(menu.target);
            },
            MenuAction::SplitRight => {
                out.push(ClientMessage::SplitRight);
            },
            MenuAction::SplitDown => {
                out.push(ClientMessage::SplitDown);
            },
            MenuAction::Zoom => {
                out.push(ClientMessage::ZoomPane);
            },
            MenuAction::BreakToTab => {
                out.push(ClientMessage::BreakPane);
            },
            MenuAction::Equalize => {
                out.push(ClientMessage::EqualizeLayout);
            },
            MenuAction::MoveLeft => {
                if let MenuTarget::Tab(id) = menu.target {
                    out.push(ClientMessage::SelectTab { id });
                    out.push(ClientMessage::MoveTab { delta: -1 });
                }
            },
            MenuAction::MoveRight => {
                if let MenuTarget::Tab(id) = menu.target {
                    out.push(ClientMessage::SelectTab { id });
                    out.push(ClientMessage::MoveTab { delta: 1 });
                }
            },
            MenuAction::Close => {
                out.push(
                    match menu.target {
                        MenuTarget::Pane(_) => ClientMessage::ClosePane,
                        MenuTarget::Tab(id) => ClientMessage::CloseTab { id },
                        MenuTarget::Workspace(id) => ClientMessage::CloseWorkspace { id },
                    },
                );
            },
            MenuAction::Help | MenuAction::Color => {},
        }
        assert(out@ =~= first + menu_messages(menu.target, action));
        out
    }

    /// A key in the context menu.
    pub fn handle_menu_key(&mut self, key: KeyEvent) -> (r: Vec<ClientMessage>)
        requires
            old(self).wf(),
        ensures
            final(self).wf(),
            old(self).menu_key(key, *final(self), r@),
    {
        match key.code {
            KeyCode::Esc => {
                self.menu = None;
            },
            KeyCode::Up | KeyCode::Char('k') => {
                if let Some(mut menu) = self.menu.take() {
                    menu.move_by(-1);
                    self.menu = Some(menu);
                }
            },
            KeyCode::Down | KeyCode::Char('j') => {
                if let Some(mut menu) = self.menu.take() {
                    menu.move_by(1);
                    self.menu = Some(menu);
                }
            },
            KeyCode::Enter => {
                return self.execute_menu();
            },
            _ => {},
        }
        nothing()
    }

    /// A key while the sidebar is walked; `current` is the row that is marked.
    pub fn handle_navigate_key(&mut self, key: KeyEvent, current: usize) -> (r: Vec<
        ClientMessage,
    >)
        requires
            old(self).layout is Some,
            key.code == KeyCode::Enter ==> current < row_count(old(self).layout->0),
        ensures
            old(self).navigated(key, current, *final(self), r@),
    {
        match key.code {
            KeyCode::Esc | KeyCode::Char('q') => {
                self.navigate = None;
                if !self.config.sidebar {
                    self.sidebar = false;
                }
                nothing()
            },
            KeyCode::Up | KeyCode::Char('k') | KeyCode::Down | KeyCode::Char('j') => {
                let down = key.code == KeyCode::Down || key.code == KeyCode::Char('j');
                let rows = match &self.layout {
                    Some(layout) => render::sidebar_rows(layout),
                    None => Vec::new(),
                };
                assert(render::row_views(rows@).len() == rows@.len());
                self.navigate = if rows.len() == 0 {
                    None
                } else if down {
                    Some(num::min_usize(current.saturating_add(1), rows.len() - 1))
                } else {
                    Some(num::min_usize(current.saturating_sub(1), rows.len() - 1))
                };
                nothing()
            },
            KeyCode::Enter => {
                let rows = match &self.layout {
                    Some(layout) => render::sidebar_rows(layout),
                    None => Vec::new(),
                };
                let ghost views = render::row_views(rows@);
                assert(views.len() == rows@.len());
                assert(views[current as int] == rows@[current as int]@);
                let out = one(Some(sidebar_message(rows[current].target)));
                assert(out@ =~= seq![
                    brings_up(row_target(old(self).layout->0, current as int)),
                ]);
                self.navigate = None;
                out
            },
            _ => nothing(),
        }
    }
}

/// Whether a question with a message is asked, or the message is sent at once.
pub open spec fn asked(
    question: Option<Seq<char>>,
    message: ClientMessage,
    sent: Seq<ClientMessage>,
    confirm: Option<Confirm>,
) -> bool {
    match question {
        Some(question) => sent.len() == 0 && (confirm matches Some(asked) && asked.message@
            == question && asked.on_yes == message),
        None => sent == seq![message],
    }
}

impl App {
    /// What an action leaves behind, and what it sends, on a screen of some size.
    pub open spec fn performed(
        self,
        action: BoundAction,
        cols: u16,
        rows: u16,
        after: App,
        sent: Seq<ClientMessage>,
    ) -> bool {
        match action {
            BoundAction::SidebarToggle => {
                &&& after == (App { sidebar: !self.sidebar, ..self })
                &&& sent == seq![
                    ClientMessage::Resize { cols: columns_for(cols, !self.sidebar), rows },
                ]
            },
            BoundAction::Navigate => after == (App {
                sidebar: true,
                navigate: Some(0),
                ..self
            }) && sent.len() == 0,
            BoundAction::CopyMode => {
                &&& sent.len() == 0
                &&& after == (App { copy: after.copy, ..self })
                &&& match self.layout {
                    Some(layout) => match layout::pane_in_focus(layout.panes@) {
                        Some(pane) => after.copy matches Some(copy) && copy.pane == pane.id
                            && copy.in_view() && copy.anchor is None && copy.select
                            == mode::SelectKind::Char && copy.search is None && copy.prompt is None
                            && !copy.pending_g && text::texts(copy.lines@) == mode::grid_lines(
                            pane.screen.contents@,
                        ) && copy.cursor.row == copy.lines@.len() - 1 && copy.cursor.col == 0
                            && copy.height == num::max(pane.screen.rows@.len() as int, 1) && copy.top
                            == num::max(copy.lines@.len() - copy.height, 0),
                        None => after.copy == self.copy,
                    },
                    None => after.copy == self.copy,
                }
            },
            BoundAction::Rename => after == (App { rename: true, ..self }) && sent.len() == 0,
            BoundAction::NewWorkspace => after == (App { new_workspace: true, ..self })
                && sent.len() == 0,
            BoundAction::Detach => after == self && sent.len() == 0,
            BoundAction::ResizeMode => after == (App { resize: true, ..self }) && sent.len() == 0,
            BoundAction::RenameTab => sent.len() == 0 && after == (match self.tab() {
                Some(tab) => App {
                    rename: true,
                    rename_target: Some(MenuTarget::Tab(tab.id)),
                    ..self
                },
                None => self,
            }),
            BoundAction::RenameWorkspace => sent.len() == 0 && after == (match self.workspace() {
                Some(workspace) => App {
                    rename: true,
                    rename_target: Some(MenuTarget::Workspace(workspace.id)),
                    ..self
                },
                None => self,
            }),
            BoundAction::CloseTab => {
                &&& after == (App { confirm: after.confirm, ..self })
                &&& match self.tab() {
                    Some(tab) => asked(
                        tab_question(tab),
                        ClientMessage::CloseTab { id: tab.id },
                        sent,
                        after.confirm,
                    ) && (tab_question(tab) is None ==> after == self),
                    None => after == self && sent.len() == 0,
                }
            },
            BoundAction::CloseWorkspace => {
                &&& after == (App { confirm: after.confirm, ..self })
                &&& match self.workspace() {
                    Some(workspace) => asked(
                        workspace_question(workspace),
                        ClientMessage::CloseWorkspace { id: workspace.id },
                        sent,
                        after.confirm,
                    ) && (workspace_question(workspace) is None ==> after == self),
                    None => after == self && sent.len() == 0,
                }
            },
            BoundAction::LastPane => after == self && sent == (match self.last_pane {
                Some(id) => seq![ClientMessage::FocusPaneId { id }],
                None => Seq::empty(),
            }),
            _ => after == self && sent == at_most(direct(action)),
        }
    }

    /// The active tab.
    pub open spec fn tab(self) -> Option<SidebarTabInfo> {
        match self.layout {
            Some(layout) => layout::tab_in_use(layout),
            None => None,
        }
    }

    /// The active workspace.
    pub open spec fn workspace(self) -> Option<WorkspaceInfo> {
        match self.layout {
            Some(layout) => layout::workspace_in_use(layout.workspaces@),
            None => None,
        }
    }

    fn active_tab(&self) -> (r: Option<&SidebarTabInfo>)
        ensures
            layout::target(r) == self.tab(),
    {
        match &self.layout {
            Some(layout) => layout::find_active_tab(layout),
            None => None,
        }
    }

    fn active_workspace(&self) -> (r: Option<&WorkspaceInfo>)
        ensures
            layout::target(r) == self.workspace(),
    {
        match &self.layout {
            Some(layout) => layout::find_active(&layout.workspaces),
            None => None,
        }
    }

    /// Carries out an action on a screen of some size.
    pub fn perform(&mut self, action: BoundAction, cols: u16, rows: u16) -> (r: (
        Vec<ClientMessage>,
        Flow,
    ))
        requires
            old(self).wf(),
        ensures
            final(self).wf(),
            old(self).performed(action, cols, rows, *final(self), r.0@),
            r.1 == (if action == BoundAction::Detach {
                Flow::Detach
            } else {
                Flow::Continue
            }),
    {
        let mut question: Option<(Option<String>, ClientMessage)> = None;
        match action {
            BoundAction::SidebarToggle => {
                self.sidebar = !self.sidebar;
                let cols: u16 = self.pane_cols(cols);
                return (one(Some(ClientMessage::Resize { cols, rows })), Flow::Continue);
            },
            BoundAction::Navigate => {
                self.sidebar = true;
                self.navigate = Some(0);
            },
            BoundAction::CopyMode => {
                let copy = match &self.layout {
                    Some(layout) => match layout::find_focused(&layout.panes) {
                        Some(pane) => {
                            let lines = mode::grid(pane.screen.contents.as_str());
                            assert(text::texts(lines@).len() == lines@.len());
                            Some(CopyMode::new(pane.id, lines, pane.screen.rows.len()))
                        },
                        None => None,
                    },
                    None => None,
                };
                if copy.is_some() {
                    self.copy = copy;
                }
            },
            BoundAction::Rename => {
                self.rename = true;
            },
            BoundAction::NewWorkspace => {
                self.new_workspace = true;
            },
            BoundAction::Detach => {
                return (nothing(), Flow::Detach);
            },
            BoundAction::ResizeMode => {
                self.resize = true;
            },
            BoundAction::RenameTab => {
                let id = match self.active_tab() {
                    Some(tab) => Some(tab.id),
                    None => None,
                };
                if let Some(id) = id {
                    self.rename = true;
                    self.rename_target = Some(MenuTarget::Tab(id));
                }
            },
            BoundAction::RenameWorkspace => {
                let id = match self.active_workspace() {
                    Some(workspace) => Some(workspace.id),
                    None => None,
                };
                if let Some(id) = id {
                    self.rename = true;
                    self.rename_target = Some(MenuTarget::Workspace(id));
                }
            },
            BoundAction::CloseTab => {
                question = match self.active_tab() {
                    Some(tab) => Some(
                        (close_tab_prompt(tab), ClientMessage::CloseTab { id: tab.id }),
                    ),
                    None => None,
                };
            },
            BoundAction::CloseWorkspace => {
                question = match self.active_workspace() {
                    Some(workspace) => Some(
                        (
                            close_workspace_prompt(workspace),
                            ClientMessage::CloseWorkspace { id: workspace.id },
                        ),
                    ),
                    None => None,
                };
            },
            BoundAction::LastPane => {
                return match self.last_pane {
                    Some(id) => (one(Some(ClientMessage::FocusPaneId { id })), Flow::Continue),
                    None => (nothing(), Flow::Continue),
                };
            },
            other => {
                return (one(direct_message(other)), Flow::Continue);
            },
        }
        match question {
            Some((Some(message), on_yes)) => {
                self.confirm = Some(Confirm { message, on_yes });
                (nothing(), Flow::Continue)
            },
            Some((None, message)) => (one(Some(message)), Flow::Continue),
            None => (nothing(), Flow::Continue),
        }
    }

    /// The key after the prefix: the prefix again is passed on, any other key does what it
    /// is bound to.
    pub fn handle_prefix_key(&mut self, key: KeyEvent, cols: u16, rows: u16) -> (r: (
        Vec<ClientMessage>,
        Flow,
    ))
        requires
            old(self).wf(),
        ensures
            final(self).wf(),
            old(self).prefixed(key, cols, rows, *final(self), r.0@, r.1),
    {
        self.prefix = false;
        if key == self.config.prefix {
            let bytes = match bytes(key) {
                Some(bytes) => bytes,
                None => Vec::new(),
            };
            let mut out: Vec<ClientMessage> = Vec::new();
            out.push(ClientMessage::Input { bytes });
            return (out, Flow::Continue);
        }
        match self.config.action(key) {
            Some(action) => self.perform(bound_action(action), cols, rows),
            None => (nothing(), Flow::Continue),
        }
    }

    /// Routes a key: to a question, a prompt or a mode where one is open, to the prefix, to
    /// what it is bound to on its own, and otherwise to the focused pane.
    pub fn handle_key(&mut self, key: KeyEvent, cols: u16, rows: u16, home: &Option<String>) -> (r:
        Effect)
        requires
            old(self).wf(),
            old(self).navigate is Some ==> old(self).layout is Some,
            old(self).navigate matches Some(current) ==> (key.code == KeyCode::Enter ==> current
                < row_count(old(self).layout->0)),
        ensures
            final(self).wf(),
            old(self).keyed(key, cols, rows, *home, *final(self), r),
    {
        if self.confirm.is_some() {
            let messages = self.handle_confirm_key(key);
            return Effect { messages, clipboard: None, flow: Flow::Continue };
        }
        if self.rename {
            let messages = self.handle_rename_key(key);
            return Effect { messages, clipboard: None, flow: Flow::Continue };
        }
        if self.new_workspace {
            let messages = self.handle_new_workspace_key(key, home);
            return Effect { messages, clipboard: None, flow: Flow::Continue };
        }
        if self.copy.is_some() {
            let (messages, clipboard) = self.handle_copy_key(key);
            return Effect { messages, clipboard, flow: Flow::Continue };
        }
        if self.menu.is_some() {
            let messages = self.handle_menu_key(key);
            return Effect { messages, clipboard: None, flow: Flow::Continue };
        }
        if let Some(current) = self.navigate {
            let messages = self.handle_navigate_key(key, current);
            return Effect { messages, clipboard: None, flow: Flow::Continue };
        }
        if self.resize {
            let messages = self.handle_resize_key(key);
            return Effect { messages, clipboard: None, flow: Flow::Continue };
        }
        if self.prefix {
            let (messages, flow) = self.handle_prefix_key(key, cols, rows);
            return Effect { messages, clipboard: None, flow };
        }
        let mut messages: Vec<ClientMessage> = Vec::new();
        if key == self.config.prefix {
            self.prefix = true;
        } else if let Some(action) = self.config.global_action(key) {
            let (messages, flow) = self.perform(bound_action(action), cols, rows);
            return Effect { messages, clipboard: None, flow };
        } else if let Some(bytes) = bytes(key) {
            messages.push(ClientMessage::Input { bytes });
        }
        Effect { messages, clipboard: None, flow: Flow::Continue }
    }

    /// No question, prompt or mode is open: keys go to the prefix or to the pane.
    pub open spec fn passes_keys(self) -> bool {
        &&& self.confirm is None
        &&& !self.rename
        &&& !self.new_workspace
        &&& self.copy is None
        &&& self.menu is None
        &&& self.navigate is None
        &&& !self.resize
    }

    /// What a left click sends where no menu is open, and what it leaves behind. `content`
    /// is what the sidebar leaves of the screen, `rects` where the panes are.
    pub open spec fn clicked(
        self,
        column: u16,
        row: u16,
        size: (u16, u16),
        content: Rect,
        rects: Seq<(PaneId, Rect)>,
        after: App,
        sent: Seq<ClientMessage>,
    ) -> bool {
        let layout = self.layout->0;
        let border = input::border_from(rects, 0, 1, column as int, row as int);
        if column < content.x {
            if self.sidebar {
                after == self && sent == (match target_at(layout, row as int) {
                    Some(target) => seq![brings_up(target)],
                    None => Seq::empty(),
                })
            } else {
                after == (App { sidebar: true, ..self }) && sent == seq![
                    ClientMessage::Resize { cols: columns_for(size.0, true), rows: size.1 },
                ]
            }
        } else if border is Some {
            let hit = border->0;
            after == (App {
                drag: Some(
                    DragState {
                        direction: hit.direction,
                        vertical: hit.vertical,
                        last: if hit.vertical {
                            column
                        } else {
                            row
                        },
                    },
                ),
                ..self
            }) && sent == seq![ClientMessage::FocusPaneId { id: hit.pane }]
        } else if row == 0 {
            after == self && sent == (match input::tab_under(
                render::tabs_on_screen(layout, content),
                column as int,
            ) {
                Some(id) => seq![ClientMessage::SelectTab { id }],
                None => Seq::empty(),
            })
        } else {
            after == self && sent == (match input::pane_under(rects, column as int, row as int) {
                Some(id) => seq![ClientMessage::FocusPaneId { id }],
                None => Seq::empty(),
            })
        }
    }

    /// A left click: first an open menu, then the sidebar, pane borders, tabs and panes.
    pub fn mouse_left_down(
        &mut self,
        column: u16,
        row: u16,
        size: (u16, u16),
        content: Rect,
        rects: &Vec<(PaneId, Rect)>,
    ) -> (r: Vec<ClientMessage>)
        requires
            old(self).wf(),
            old(self).layout is Some,
        ensures
            final(self).wf(),
            old(self).pressed(column, row, size, content, rects@, *final(self), r@),
    {
        if let Some(mut menu) = self.menu.take() {
            if let Some(selected) = mode::menu_hit(&menu, column, row, size.0) {
                menu.selected = selected;
                self.menu = Some(menu);
                return self.execute_menu();
            }
            return nothing();
        }
        if column < content.x {
            if self.sidebar {
                let target = match &self.layout {
                    Some(layout) => find_target(layout, row),
                    None => None,
                };
                return match target {
                    Some(target) => one(Some(sidebar_message(target))),
                    None => nothing(),
                };
            }
            self.sidebar = true;
            let cols: u16 = self.pane_cols(size.0);
            return one(Some(ClientMessage::Resize { cols, rows: size.1 }));
        }
        if let Some(border) = input::border_at(rects.as_slice(), column, row) {
            self.drag = Some(
                DragState {
                    direction: border.direction,
                    vertical: border.vertical,
                    last: if border.vertical {
                        column
                    } else {
                        row
                    },
                },
            );
            return one(Some(ClientMessage::FocusPaneId { id: border.pane }));
        }
        if row == 0 {
            let tab = match &self.layout {
                Some(layout) => {
                    let spans = render::tab_spans_for(layout, content);
                    input::tab_at(spans.as_slice(), column)
                },
                None => None,
            };
            return match tab {
                Some(id) => one(Some(ClientMessage::SelectTab { id })),
                None => nothing(),
            };
        }
        match input::pane_at(rects.as_slice(), column, row) {
            Some(id) => one(Some(ClientMessage::FocusPaneId { id })),
            None => nothing(),
        }
    }

    /// What a right click opens a menu for.
    pub open spec fn menu_for(
        self,
        column: u16,
        row: u16,
        content: Rect,
        rects: Seq<(PaneId, Rect)>,
    ) -> Option<MenuTarget> {
        if self.sidebar && column < content.x {
            match target_at(self.layout->0, row as int) {
                Some(target) => Some(menu_target(target)),
                None => None,
            }
        } else {
            match input::pane_under(rects, column as int, row as int) {
                Some(id) => Some(MenuTarget::Pane(id)),
                None => None,
            }
        }
    }

    /// A right click: the menu of the sidebar row or pane under the pointer.
    pub fn mouse_right_down(
        &mut self,
        column: u16,
        row: u16,
        content: Rect,
        rects: &Vec<(PaneId, Rect)>,
    )
        requires
            old(self).wf(),
            old(self).layout is Some,
        ensures
            final(self).wf(),
            *final(self) == (App {
                menu: match old(self).menu_for(column, row, content, rects@) {
                    Some(target) => Some(Menu { target, x: column, y: row, selected: 0 }),
                    None => None,
                },
                ..*old(self)
            }),
    {
        let target = if self.sidebar && column < content.x {
            let found = match &self.layout {
                Some(layout) => find_target(layout, row),
                None => None,
            };
            match found {
                Some(SidebarTarget::Workspace(id)) => Some(MenuTarget::Workspace(id)),
                Some(SidebarTarget::Tab(id)) => Some(MenuTarget::Tab(id)),
                Some(SidebarTarget::Pane(id)) => Some(MenuTarget::Pane(id)),
                None => None,
            }
        } else {
            match input::pane_at(rects.as_slice(), column, row) {
                Some(id) => Some(MenuTarget::Pane(id)),
                None => None,
            }
        };
        self.menu = match target {
            Some(target) => Some(Menu { target, x: column, y: row, selected: 0 }),
            None => None,
        };
    }

    /// The pointer moves with the button held: the dragged border follows it.
    pub fn mouse_drag(&mut self, column: u16, row: u16) -> (r: Vec<ClientMessage>)
        ensures
            old(self).dragged(column, row, *final(self), r@),
    {
        match self.drag {
            None => nothing(),
            Some(drag) => {
                let now: u16 = if drag.vertical {
                    column
                } else {
                    row
                };
                let cells: i16 = input::drag_delta(drag.last, now);
                if cells == 0 {
                    return nothing();
                }
                self.drag = Some(
                    DragState { direction: drag.direction, vertical: drag.vertical, last: now },
                );
                one(Some(ClientMessage::ResizePane { direction: drag.direction, cells }))
            },
        }
    }

    /// Routes a mouse event on a screen of some size; the mouse does nothing where it is
    /// switched off or no layout has come.
    pub fn handle_mouse(&mut self, kind: MouseEventKind, column: u16, row: u16, size: (u16, u16)) -> (r:
        Vec<ClientMessage>)
        requires
            old(self).wf(),
        ensures
            final(self).wf(),
            !old(self).config.mouse || old(self).layout is None ==> *final(self) == *old(self)
                && r@.len() == 0,
            old(self).config.mouse && old(self).layout is Some ==> exists|
                content: Rect,
                rects: Seq<(PaneId, Rect)>,
            | #[trigger]
                old(self).on_screen(size, content, rects) && old(self).pointed(
                    kind,
                    column,
                    row,
                    size,
                    content,
                    rects,
                    *final(self),
                    r@,
                ),
    {
        if !self.config.mouse || self.layout.is_none() {
            return nothing();
        }
        let content = render::content_area(
            Rect { x: 0, y: 0, width: size.0, height: size.1 },
            self.sidebar,
        );
        let rects = match &self.layout {
            Some(layout) => render::pane_rects_for(layout, content),
            None => Vec::new(),
        };
        assert(self.on_screen(size, content, rects@));
        match kind {
            MouseEventKind::Down(MouseButton::Left) => self.mouse_left_down(
                column,
                row,
                size,
                content,
                &rects,
            ),
            MouseEventKind::Down(MouseButton::Right) => {
                self.mouse_right_down(column, row, content, &rects);
                nothing()
            },
            MouseEventKind::Drag(MouseButton::Left) => self.mouse_drag(column, row),
            MouseEventKind::Up(MouseButton::Left) => {
                self.drag = None;
                nothing()
            },
            MouseEventKind::ScrollUp => scroll(&rects, column, row, SCROLL_STEP),
            MouseEventKind::ScrollDown => scroll(&rects, column, row, -SCROLL_STEP),
            _ => nothing(),
        }
    }
}

/// What scrolling over a cell sends.
pub open spec fn scrolls(rects: Seq<(PaneId, Rect)>, column: u16, row: u16, delta: i16) -> Seq<
    ClientMessage,
> {
    match input::pane_under(rects, column as int, row as int) {
        Some(id) => seq![ClientMessage::ScrollPane { id, delta }],
        None => Seq::empty(),
    }
}

/// Scrolls the pane under the pointer.
pub fn scroll(rects: &Vec<(PaneId, Rect)>, column: u16, row: u16, delta: i16) -> (r: Vec<
    ClientMessage,
>)
    ensures
        r@ == scrolls(rects@, column, row, delta),
{
    match input::pane_at(rects.as_slice(), column, row) {
        Some(id) => one(Some(ClientMessage::ScrollPane { id, delta })),
        None => nothing(),
    }
}

/// Nothing that is typed at a question reaches a pane: whatever the key, the question is
/// gone, and only yes sends what it was about.
pub proof fn law_questions_hold_back_keys(
    app: App,
    key: KeyEvent,
    cols: u16,
    rows: u16,
    home: Option<String>,
    after: App,
    effect: Effect,
)
    requires
        app.confirm is Some,
        app.keyed(key, cols, rows, home, after, effect),
    ensures
        after == (App { confirm: None, ..app }),
        effect.messages@.len() > 0 ==> (key.code == KeyCode::Char('y') || key.code
            == KeyCode::Char('Y')) && effect.messages@ == seq![app.confirm->0.on_yes],
{
}

/// Closing a tab with working agents is never sent without a yes.
pub proof fn law_busy_tabs_are_not_closed_unasked(
    app: App,
    cols: u16,
    rows: u16,
    after: App,
    sent: Seq<ClientMessage>,
)
    requires
        app.performed(BoundAction::CloseTab, cols, rows, after, sent),
        app.tab() matches Some(tab) && tab_question(tab) is Some,
    ensures
        sent.len() == 0,
        after.confirm matches Some(confirm) && confirm.on_yes == (ClientMessage::CloseTab {
            id: app.tab()->0.id,
        }),
{
}

/// Only the detach action ends the client: after the prefix, or by a key that is bound
/// to it on its own.
pub proof fn law_only_detach_ends_the_client(
    app: App,
    key: KeyEvent,
    cols: u16,
    rows: u16,
    home: Option<String>,
    after: App,
    effect: Effect,
)
    requires
        app.keyed(key, cols, rows, home, after, effect),
        effect.flow == Flow::Detach,
    ensures
        app.passes_keys(),
        app.prefix ==> config::bound(app.config.bindings@, key) == Some(config::Action::Detach),
        !app.prefix ==> config::bound(app.config.globals@, key) == Some(config::Action::Detach),
{
}

/// A key held with the meta key is the same key behind an escape.
pub proof fn law_meta_keys_follow_an_escape(key: KeyEvent, plain: KeyEvent)
    requires
        key.modifiers.alt,
        plain == (KeyEvent {
            modifiers: crate::event::KeyModifiers { alt: false, ..key.modifiers },
            ..key
        }),
    ensures
        key_bytes(plain) is Some == key_bytes(key) is Some,
        key_bytes(plain) matches Some(bytes) ==> key_bytes(key) == Some(seq![27u8] + bytes),
{
}

} // verus!
