//! Shared Ködade CLI socket protocol: message types and schema names.
//!
//! Each message travels as one line of JSON. Paths are held as text. A split
//! ratio is held as the bit pattern of its single-precision value, which no rule
//! of the library reads.

use vstd::prelude::*;

use crate::manifest::InvocationContext;
use crate::session_file::SessionFile;
use crate::text;

verus! {

/// Wire protocol version. Both ends compare it at attach time, so that a stale
/// binary fails fast instead of misbehaving.
pub const PROTOCOL_VERSION: u32 = 1;

#[derive(Debug, Clone, Copy, PartialEq, Eq, Hash, Structural)]
pub struct WorkspaceId(pub u64);

#[derive(Debug, Clone, Copy, PartialEq, Eq, Hash, Structural)]
pub struct TabId(pub u64);

#[derive(Debug, Clone, Copy, PartialEq, Eq, Hash, Structural)]
pub struct PaneId(pub u64);

#[derive(Debug, Clone, Copy, PartialEq, Eq, Structural)]
pub enum Direction {
    Up,
    Down,
    Left,
    Right,
}

#[derive(Debug, Clone, Copy, PartialEq, Eq, Structural)]
pub enum SplitAxis {
    Horizontal,
    Vertical,
}

#[derive(Debug, Clone, Copy, PartialEq, Eq, Structural)]
pub enum AgentStateKind {
    Blocked,
    Working,
    Done,
    Idle,
    Unknown,
}

/// A native agent conversation that can be resumed independently of its cwd.
#[derive(Debug, Clone, PartialEq, Eq)]
pub struct NativeSession {
    pub source: String,
    pub agent: String,
    pub id: Option<String>,
    pub path: Option<String>,
}

#[derive(Debug, PartialEq, Eq)]
pub enum LayoutTree {
    Leaf { pane: PaneId },
    Split {
        axis: SplitAxis,
        /// Bits of the share that the first child gets.
        ratio: u32,
        first: Box<LayoutTree>,
        second: Box<LayoutTree>,
    },
}

impl Clone for LayoutTree {
    fn clone(&self) -> (r: Self)
        ensures
            r == *self,
        decreases self,
    {
        match self {
            LayoutTree::Leaf { pane } => LayoutTree::Leaf { pane: *pane },
            LayoutTree::Split { axis, ratio, first, second } => LayoutTree::Split {
                axis: *axis,
                ratio: *ratio,
                first: Box::new((&**first).clone()),
                second: Box::new((&**second).clone()),
            },
        }
    }
}

#[derive(Debug, Clone, PartialEq, Eq)]
pub enum ClientMessage {
    Query(QueryKind),
    /// Turn this connection into an event stream.
    Subscribe,
    /// Replace the session layout with a persisted one.
    ApplyLayout(SessionFile),
    Hello { cols: u16, rows: u16, version: u32 },
    Input { bytes: Vec<u8> },
    Resize { cols: u16, rows: u16 },
    /// Per-client narrow projection: show only the focused pane.
    SetCompactView { enabled: bool },
    SplitRight,
    SplitDown,
    ClosePane,
    CloseTab { id: TabId },
    CloseWorkspace { id: WorkspaceId },
    FocusPane { direction: Direction },
    FocusPaneId { id: PaneId },
    SendToPane { id: PaneId, bytes: Vec<u8> },
    /// Upload a bounded PNG and paste its private path.
    PasteImage { pane: PaneId, data: String },
    /// Verify a recognized agent identity, then write to its pane.
    PromptAgent { pane: PaneId, expected_agent: String, expected_generation: u64, bytes: Vec<u8> },
    RenamePaneId { id: PaneId, name: String },
    KillSession,
    NewTab,
    NextTab,
    PrevTab,
    SelectTab { id: TabId },
    /// One-based position of a tab in the active workspace.
    SelectTabIndex { index: u8 },
    /// Reorder the active tab by `delta` positions.
    MoveTab { delta: i8 },
    /// Swap the focused pane with its neighbour.
    SwapPane { direction: Direction },
    /// Move the focused pane out of its tab and into a new one.
    BreakPane,
    /// Reset every split ratio in the active tab.
    EqualizeLayout,
    /// Focus the next or previous leaf of the active tab.
    FocusPaneCycle { forward: bool },
    /// Activate the workspace `delta` positions away.
    SelectWorkspaceDelta { delta: i8 },
    RenameTabId { id: TabId, name: String },
    RenameWorkspaceId { id: WorkspaceId, name: String },
    NewWorkspace { name: String, root: Option<String> },
    /// Create a pane; without `split` it opens a new tab.
    NewPane {
        workspace: Option<WorkspaceId>,
        tab: Option<TabId>,
        split: Option<SplitAxis>,
        command: Option<Vec<String>>,
        name: Option<String>,
        context: Option<Box<InvocationContext>>,
    },
    SelectWorkspace { id: WorkspaceId },
    RenamePane { name: String },
    RenameTab { name: String },
    RenameWorkspace { name: String },
    ResizePane { direction: Direction, cells: i16 },
    /// Positive deltas move back through terminal history.
    ScrollPane { id: PaneId, delta: i16 },
    /// Read a pane's text; `lines` keeps just the last lines when set.
    ReadPane { id: PaneId, scrollback: bool, lines: Option<usize> },
    ZoomPane,
    /// Move a pane out of its tab and into an existing one.
    MovePaneToTab { pane: PaneId, tab: TabId },
    RenameSession { name: String },
    AgentState {
        pane: PaneId,
        state: AgentStateKind,
        source: String,
        native_session: Option<NativeSession>,
    },
    /// Set or clear a workspace's swatch color.
    SetWorkspaceColor { id: WorkspaceId, color: Option<String> },
    /// Create a git-worktree workspace.
    NewWorktreeWorkspace { repo_root: String, branch: String, from: Option<String> },
    /// Close a worktree workspace; unless `keep`, remove its directory too.
    RemoveWorktreeWorkspace { id: WorkspaceId, keep: bool },
    /// Re-read the detection manifests.
    ReloadManifests,
}

#[derive(Debug, Clone, Copy, PartialEq, Eq, Structural)]
pub enum QueryKind {
    Layout,
    /// One pane's snapshot, wherever it lives.
    Pane(PaneId),
    /// An image, fetched only when its revision changes.
    Image { pane: PaneId, id: u32, revision: u64 },
    Version,
    /// The persisted-layout view of the session.
    Session,
    Schema,
    /// The active manifest set.
    Manifests,
}

/// Inspectable metadata for one active agent detection manifest.
#[derive(Debug, Clone, PartialEq, Eq)]
pub struct ManifestInfo {
    pub name: String,
    pub display: String,
    pub process: Vec<String>,
    pub title: Vec<String>,
    pub rules: usize,
    pub source: String,
}

#[derive(Debug, Clone, PartialEq, Eq)]
pub enum ServerMessage {
    ImagePasted { pane: PaneId, path: String },
    Welcome { session: String, version: u32 },
    Version { version: u32 },
    Layout(LayoutSnapshot),
    /// An agent moved into `blocked` or `done`.
    Notification(Notification),
    /// Reply to `ReadPane`.
    PaneText { id: PaneId, text: String, scrollback_lines: usize },
    /// Pushed only to connections that sent `Subscribe`.
    Event(Event),
    Pane(PaneSnapshot),
    Image { pane: PaneId, image: ImageData },
    Session(SessionFile),
    Schema { version: u32, client_messages: Vec<String>, server_messages: Vec<String> },
    Manifests(Vec<ManifestInfo>),
    Error { message: String },
    Shutdown,
}

/// Session events delivered on a subscribed connection.
#[derive(Debug, Clone, PartialEq, Eq)]
pub enum Event {
    AgentStateChanged { pane: PaneId, from: AgentStateKind, to: AgentStateKind },
    PaneOpened { pane: PaneId },
    PaneClosed { pane: PaneId },
    TabOpened { tab: TabId },
    TabClosed { tab: TabId },
    TabRenamed { tab: TabId, name: String },
    WorkspaceOpened { workspace: WorkspaceId },
    WorkspaceClosed { workspace: WorkspaceId },
    WorkspaceRenamed { workspace: WorkspaceId, name: String },
    Notification(Notification),
    /// The session was renamed; `socket` is the path to use from now on.
    SessionRenamed { name: String, socket: String },
}

/// A single agent-state alert.
#[derive(Debug, PartialEq, Eq)]
pub struct Notification {
    pub pane: PaneId,
    pub workspace: WorkspaceId,
    pub tab: TabId,
    /// Agent display name.
    pub agent: String,
    pub state: AgentStateKind,
    /// Monotonic per-session sequence.
    pub seq: u64,
}

impl Clone for Notification {
    fn clone(&self) -> (r: Self)
        ensures
            r == *self,
    {
        Notification {
            pane: self.pane,
            workspace: self.workspace,
            tab: self.tab,
            agent: self.agent.clone(),
            state: self.state,
            seq: self.seq,
        }
    }
}

#[derive(Debug, Clone, PartialEq, Eq)]
pub struct WorkspaceInfo {
    pub id: WorkspaceId,
    pub name: String,
    pub active: bool,
    pub state: AgentStateKind,
    /// Directory new panes in this workspace start in.
    pub root: Option<String>,
    /// Sidebar swatch color as `#rrggbb`.
    pub color: Option<String>,
    /// Git branch of this workspace's root, when it is a repository.
    pub branch: Option<String>,
    /// For a git-worktree workspace, the workspace of the main repository.
    pub parent: Option<WorkspaceId>,
    /// Metadata for every tab, including panes outside the active screen.
    pub tabs: Vec<SidebarTabInfo>,
}

#[derive(Debug, Clone, PartialEq, Eq)]
pub struct SidebarTabInfo {
    pub id: TabId,
    pub name: String,
    pub state: AgentStateKind,
    pub agents: Vec<AgentInfo>,
}

#[derive(Debug, Clone, PartialEq, Eq)]
pub struct AgentInfo {
    pub pane: PaneId,
    pub name: String,
    pub state: AgentStateKind,
    /// Seconds the current state has held.
    pub state_age_secs: u64,
}

#[derive(Debug, Clone, PartialEq, Eq)]
pub struct TabInfo {
    pub id: TabId,
    pub name: String,
    pub active: bool,
    pub state: AgentStateKind,
}

#[derive(Debug, Clone, PartialEq, Eq)]
pub struct PaneSnapshot {
    pub id: PaneId,
    pub title: String,
    pub focused: bool,
    pub scroll_offset: usize,
    pub screen: Screen,
    pub agent: Option<String>,
    /// Changes whenever the recognized foreground agent changes.
    pub agent_generation: u64,
    /// Increments when this pane enters Working or Blocked.
    pub activity_revision: u64,
    pub state: AgentStateKind,
    pub state_reason: String,
    /// Seconds the current state has held.
    pub state_age_secs: u64,
    /// Working directory of the pane's foreground process, when known.
    pub cwd: Option<String>,
}

/// A daemon-owned tree with terminal-independent pane contents.
#[derive(Debug, Clone, PartialEq, Eq)]
pub struct LayoutSnapshot {
    pub active_workspace: WorkspaceId,
    pub active_tab: TabId,
    pub workspaces: Vec<WorkspaceInfo>,
    pub tabs: Vec<TabInfo>,
    pub tree: LayoutTree,
    pub panes: Vec<PaneSnapshot>,
    pub zoomed: bool,
    /// The session was rebuilt from a state file and no client attached since.
    pub restored: bool,
}

/// Attribute bits carried by a `Run`.
pub const ATTR_BOLD: u8 = 1;

pub const ATTR_ITALIC: u8 = 2;

pub const ATTR_UNDERLINE: u8 = 4;

pub const ATTR_DIM: u8 = 8;

pub const ATTR_INVERSE: u8 = 16;

/// A terminal cell color.
#[derive(Debug, Clone, Copy, PartialEq, Eq, Structural)]
pub enum CellColor {
    Default,
    Indexed(u8),
    Rgb(u8, u8, u8),
}

impl Default for CellColor {
    fn default() -> (r: Self)
        ensures
            r == CellColor::Default,
    {
        CellColor::Default
    }
}

/// A horizontal stretch of cells on one row that share colors and attributes.
#[derive(Debug, Clone, PartialEq, Eq)]
pub struct Run {
    pub text: String,
    pub fg: CellColor,
    pub bg: CellColor,
    pub attrs: u8,
}

/// One pane's visible terminal state.
#[derive(Debug, Clone, PartialEq, Eq)]
pub struct Screen {
    pub contents: String,
    pub cursor_row: u16,
    pub cursor_col: u16,
    pub cursor_visible: bool,
    /// One entry per visible screen row, left to right.
    pub rows: Vec<Vec<Run>>,
    pub bracketed_paste: bool,
    pub mouse_reporting: bool,
    pub graphics: Vec<ImagePlacement>,
}

impl Default for Screen {
    fn default() -> (r: Self)
        ensures
            r.contents@.len() == 0,
            r.cursor_row == 0,
            r.cursor_col == 0,
            !r.cursor_visible,
            r.rows@.len() == 0,
            !r.bracketed_paste,
            !r.mouse_reporting,
            r.graphics@.len() == 0,
    {
        Screen {
            contents: String::new(),
            cursor_row: 0,
            cursor_col: 0,
            cursor_visible: false,
            rows: Vec::new(),
            bracketed_paste: false,
            mouse_reporting: false,
            graphics: Vec::new(),
        }
    }
}

#[derive(Debug, Clone, PartialEq, Eq)]
pub struct ImageData {
    pub id: u32,
    pub revision: u64,
    pub format: u32,
    pub width: u32,
    pub height: u32,
    /// Base64 pixel or PNG data.
    pub data: String,
}

#[derive(Debug, Clone, Copy, PartialEq, Eq, Structural)]
pub struct ImagePlacement {
    pub image: u32,
    pub revision: u64,
    pub placement: u32,
    pub row: i32,
    pub col: u16,
    pub cols: u16,
    pub rows: u16,
    pub source_x: u32,
    pub source_y: u32,
    pub source_width: u32,
    pub source_height: u32,
    pub z: i32,
}

// -------------------------------------------------------------- schema names

/// Socket schema version reported by `Query(QueryKind::Schema)`.
pub const SCHEMA_VERSION: u32 = 1;

/// Variant name of a client message.
pub open spec fn client_name(message: ClientMessage) -> Seq<char> {
    match message {
        ClientMessage::Query(_) => "Query"@,
        ClientMessage::Subscribe => "Subscribe"@,
        ClientMessage::ApplyLayout(_) => "ApplyLayout"@,
        ClientMessage::Hello { .. } => "Hello"@,
        ClientMessage::Input { .. } => "Input"@,
        ClientMessage::Resize { .. } => "Resize"@,
        ClientMessage::SetCompactView { .. } => "SetCompactView"@,
        ClientMessage::SplitRight => "SplitRight"@,
        ClientMessage::SplitDown => "SplitDown"@,
        ClientMessage::ClosePane => "ClosePane"@,
        ClientMessage::CloseTab { .. } => "CloseTab"@,
        ClientMessage::CloseWorkspace { .. } => "CloseWorkspace"@,
        ClientMessage::FocusPane { .. } => "FocusPane"@,
        ClientMessage::FocusPaneId { .. } => "FocusPaneId"@,
        ClientMessage::SendToPane { .. } => "SendToPane"@,
        ClientMessage::PasteImage { .. } => "PasteImage"@,
        ClientMessage::PromptAgent { .. } => "PromptAgent"@,
        ClientMessage::RenamePaneId { .. } => "RenamePaneId"@,
        ClientMessage::KillSession => "KillSession"@,
        ClientMessage::RenameSession { .. } => "RenameSession"@,
        ClientMessage::NewTab => "NewTab"@,
        ClientMessage::NextTab => "NextTab"@,
        ClientMessage::PrevTab => "PrevTab"@,
        ClientMessage::SelectTab { .. } => "SelectTab"@,
        ClientMessage::SelectTabIndex { .. } => "SelectTabIndex"@,
        ClientMessage::MoveTab { .. } => "MoveTab"@,
        ClientMessage::MovePaneToTab { .. } => "MovePaneToTab"@,
        ClientMessage::SwapPane { .. } => "SwapPane"@,
        ClientMessage::BreakPane => "BreakPane"@,
        ClientMessage::EqualizeLayout => "EqualizeLayout"@,
        ClientMessage::FocusPaneCycle { .. } => "FocusPaneCycle"@,
        ClientMessage::SelectWorkspaceDelta { .. } => "SelectWorkspaceDelta"@,
        ClientMessage::RenameTabId { .. } => "RenameTabId"@,
        ClientMessage::RenameWorkspaceId { .. } => "RenameWorkspaceId"@,
        ClientMessage::NewWorkspace { .. } => "NewWorkspace"@,
        ClientMessage::NewPane { .. } => "NewPane"@,
        ClientMessage::SelectWorkspace { .. } => "SelectWorkspace"@,
        ClientMessage::RenamePane { .. } => "RenamePane"@,
        ClientMessage::RenameTab { .. } => "RenameTab"@,
        ClientMessage::RenameWorkspace { .. } => "RenameWorkspace"@,
        ClientMessage::ResizePane { .. } => "ResizePane"@,
        ClientMessage::ScrollPane { .. } => "ScrollPane"@,
        ClientMessage::ReadPane { .. } => "ReadPane"@,
        ClientMessage::ZoomPane => "ZoomPane"@,
        ClientMessage::AgentState { .. } => "AgentState"@,
        ClientMessage::SetWorkspaceColor { .. } => "SetWorkspaceColor"@,
        ClientMessage::NewWorktreeWorkspace { .. } => "NewWorktreeWorkspace"@,
        ClientMessage::RemoveWorktreeWorkspace { .. } => "RemoveWorktreeWorkspace"@,
        ClientMessage::ReloadManifests => "ReloadManifests"@,
    }
}

/// Every `ClientMessage` variant name, in schema order.
pub open spec fn client_names() -> Seq<Seq<char>> {
    seq![
        "Query"@,
        "Subscribe"@,
        "ApplyLayout"@,
        "Hello"@,
        "Input"@,
        "Resize"@,
        "SetCompactView"@,
        "SplitRight"@,
        "SplitDown"@,
        "ClosePane"@,
        "CloseTab"@,
        "CloseWorkspace"@,
        "FocusPane"@,
        "FocusPaneId"@,
        "SendToPane"@,
        "PasteImage"@,
        "PromptAgent"@,
        "RenamePaneId"@,
        "KillSession"@,
        "RenameSession"@,
        "NewTab"@,
        "NextTab"@,
        "PrevTab"@,
        "SelectTab"@,
        "SelectTabIndex"@,
        "MoveTab"@,
        "MovePaneToTab"@,
        "SwapPane"@,
        "BreakPane"@,
        "EqualizeLayout"@,
        "FocusPaneCycle"@,
        "SelectWorkspaceDelta"@,
        "RenameTabId"@,
        "RenameWorkspaceId"@,
        "NewWorkspace"@,
        "NewPane"@,
        "SelectWorkspace"@,
        "RenamePane"@,
        "RenameTab"@,
        "RenameWorkspace"@,
        "ResizePane"@,
        "ScrollPane"@,
        "ReadPane"@,
        "ZoomPane"@,
        "AgentState"@,
        "SetWorkspaceColor"@,
        "NewWorktreeWorkspace"@,
        "RemoveWorktreeWorkspace"@,
        "ReloadManifests"@,
    ]
}

/// Variant name of a client message.
pub fn client_message_name(message: &ClientMessage) -> (r: &'static str)
    ensures
        r@ == client_name(*message),
{
    match message {
        ClientMessage::Query(_) => "Query",
        ClientMessage::Subscribe => "Subscribe",
        ClientMessage::ApplyLayout(_) => "ApplyLayout",
        ClientMessage::Hello { .. } => "Hello",
        ClientMessage::Input { .. } => "Input",
        ClientMessage::Resize { .. } => "Resize",
        ClientMessage::SetCompactView { .. } => "SetCompactView",
        ClientMessage::SplitRight => "SplitRight",
        ClientMessage::SplitDown => "SplitDown",
        ClientMessage::ClosePane => "ClosePane",
        ClientMessage::CloseTab { .. } => "CloseTab",
        ClientMessage::CloseWorkspace { .. } => "CloseWorkspace",
        ClientMessage::FocusPane { .. } => "FocusPane",
        ClientMessage::FocusPaneId { .. } => "FocusPaneId",
        ClientMessage::SendToPane { .. } => "SendToPane",
        ClientMessage::PasteImage { .. } => "PasteImage",
        ClientMessage::PromptAgent { .. } => "PromptAgent",
        ClientMessage::RenamePaneId { .. } => "RenamePaneId",
        ClientMessage::KillSession => "KillSession",
        ClientMessage::RenameSession { .. } => "RenameSession",
        ClientMessage::NewTab => "NewTab",
        ClientMessage::NextTab => "NextTab",
        ClientMessage::PrevTab => "PrevTab",
        ClientMessage::SelectTab { .. } => "SelectTab",
        ClientMessage::SelectTabIndex { .. } => "SelectTabIndex",
        ClientMessage::MoveTab { .. } => "MoveTab",
        ClientMessage::MovePaneToTab { .. } => "MovePaneToTab",
        ClientMessage::SwapPane { .. } => "SwapPane",
        ClientMessage::BreakPane => "BreakPane",
        ClientMessage::EqualizeLayout => "EqualizeLayout",
        ClientMessage::FocusPaneCycle { .. } => "FocusPaneCycle",
        ClientMessage::SelectWorkspaceDelta { .. } => "SelectWorkspaceDelta",
        ClientMessage::RenameTabId { .. } => "RenameTabId",
        ClientMessage::RenameWorkspaceId { .. } => "RenameWorkspaceId",
        ClientMessage::NewWorkspace { .. } => "NewWorkspace",
        ClientMessage::NewPane { .. } => "NewPane",
        ClientMessage::SelectWorkspace { .. } => "SelectWorkspace",
        ClientMessage::RenamePane { .. } => "RenamePane",
        ClientMessage::RenameTab { .. } => "RenameTab",
        ClientMessage::RenameWorkspace { .. } => "RenameWorkspace",
        ClientMessage::ResizePane { .. } => "ResizePane",
        ClientMessage::ScrollPane { .. } => "ScrollPane",
        ClientMessage::ReadPane { .. } => "ReadPane",
        ClientMessage::ZoomPane => "ZoomPane",
        ClientMessage::AgentState { .. } => "AgentState",
        ClientMessage::SetWorkspaceColor { .. } => "SetWorkspaceColor",
        ClientMessage::NewWorktreeWorkspace { .. } => "NewWorktreeWorkspace",
        ClientMessage::RemoveWorktreeWorkspace { .. } => "RemoveWorktreeWorkspace",
        ClientMessage::ReloadManifests => "ReloadManifests",
    }
}

/// Every `ClientMessage` variant name, in schema order.
pub fn client_message_names() -> (r: Vec<String>)
    ensures
        text::texts(r@) == client_names(),
{
    let names: Vec<String> = vec![
        "Query".to_owned(),
        "Subscribe".to_owned(),
        "ApplyLayout".to_owned(),
        "Hello".to_owned(),
        "Input".to_owned(),
        "Resize".to_owned(),
        "SetCompactView".to_owned(),
        "SplitRight".to_owned(),
        "SplitDown".to_owned(),
        "ClosePane".to_owned(),
        "CloseTab".to_owned(),
        "CloseWorkspace".to_owned(),
        "FocusPane".to_owned(),
        "FocusPaneId".to_owned(),
        "SendToPane".to_owned(),
        "PasteImage".to_owned(),
        "PromptAgent".to_owned(),
        "RenamePaneId".to_owned(),
        "KillSession".to_owned(),
        "RenameSession".to_owned(),
        "NewTab".to_owned(),
        "NextTab".to_owned(),
        "PrevTab".to_owned(),
        "SelectTab".to_owned(),
        "SelectTabIndex".to_owned(),
        "MoveTab".to_owned(),
        "MovePaneToTab".to_owned(),
        "SwapPane".to_owned(),
        "BreakPane".to_owned(),
        "EqualizeLayout".to_owned(),
        "FocusPaneCycle".to_owned(),
        "SelectWorkspaceDelta".to_owned(),
        "RenameTabId".to_owned(),
        "RenameWorkspaceId".to_owned(),
        "NewWorkspace".to_owned(),
        "NewPane".to_owned(),
        "SelectWorkspace".to_owned(),
        "RenamePane".to_owned(),
        "RenameTab".to_owned(),
        "RenameWorkspace".to_owned(),
        "ResizePane".to_owned(),
        "ScrollPane".to_owned(),
        "ReadPane".to_owned(),
        "ZoomPane".to_owned(),
        "AgentState".to_owned(),
        "SetWorkspaceColor".to_owned(),
        "NewWorktreeWorkspace".to_owned(),
        "RemoveWorktreeWorkspace".to_owned(),
        "ReloadManifests".to_owned(),
    ];
    assert(text::texts(names@) =~= client_names());
    names
}

/// A number that tells the names of messages apart: from the length, the first and the
/// fourth character.
spec fn name_mark(name: Seq<char>) -> int {
    name.len() + 4 * (name[0] as int) + 12 * (name[3] as int)
}

/// Where the schema lists a client message with a mark.
spec fn client_place(mark: int) -> int {
    if mark == 1697 {
        0
    } else if mark == 1721 {
        1
    } else if mark == 1567 {
        2
    } else if mark == 1589 {
        3
    } else if mark == 1701 {
        4
    } else if mark == 1594 {
        5
    } else if mark == 1150 {
        6
    } else if mark == 1602 {
        7
    } else if mark == 1601 {
        8
    } else if mark == 1657 {
        9
    } else if mark == 1656 {
        10
    } else if mark == 1662 {
        11
    } else if mark == 1693 {
        12
    } else if mark == 1695 {
        13
    } else if mark == 1542 {
        14
    } else if mark == 1722 {
        15
    } else if mark == 1639 {
        16
    } else if mark == 1504 {
        17
    } else if mark == 1607 {
        18
    } else if mark == 1505 {
        19
    } else if mark == 1326 {
        20
    } else if mark == 1711 {
        21
    } else if mark == 1743 {
        22
    } else if mark == 1553 {
        23
    } else if mark == 1558 {
        24
    } else if mark == 1527 {
        25
    } else if mark == 1533 {
        26
    } else if mark == 1684 {
        27
    } else if mark == 1437 {
        28
    } else if mark == 1454 {
        29
    } else if mark == 1698 {
        30
    } else if mark == 1564 {
        31
    } else if mark == 1503 {
        32
    } else if mark == 1509 {
        33
    } else if mark == 1368 {
        34
    } else if mark == 1279 {
        35
    } else if mark == 1559 {
        36
    } else if mark == 1502 {
        37
    } else if mark == 1501 {
        38
    } else if mark == 1507 {
        39
    } else if mark == 1598 {
        40
    } else if mark == 1674 {
        41
    } else if mark == 1536 {
        42
    } else if mark == 1676 {
        43
    } else if mark == 1590 {
        44
    } else if mark == 1393 {
        45
    } else if mark == 1376 {
        46
    } else if mark == 1683 {
        47
    } else if mark == 1675 {
        48
    } else {
        -1
    }
}

proof fn lemma_client_place(i: int)
    requires
        0 <= i < client_names().len(),
    ensures
        client_place(name_mark(client_names()[i])) == i,
{
    if i == 0 {
        reveal_strlit("Query");
    } else if i == 1 {
        reveal_strlit("Subscribe");
    } else if i == 2 {
        reveal_strlit("ApplyLayout");
    } else if i == 3 {
        reveal_strlit("Hello");
    } else if i == 4 {
        reveal_strlit("Input");
    } else if i == 5 {
        reveal_strlit("Resize");
    } else if i == 6 {
        reveal_strlit("SetCompactView");
    } else if i == 7 {
        reveal_strlit("SplitRight");
    } else if i == 8 {
        reveal_strlit("SplitDown");
    } else if i == 9 {
        reveal_strlit("ClosePane");
    } else if i == 10 {
        reveal_strlit("CloseTab");
    } else if i == 11 {
        reveal_strlit("CloseWorkspace");
    } else if i == 12 {
        reveal_strlit("FocusPane");
    } else if i == 13 {
        reveal_strlit("FocusPaneId");
    } else if i == 14 {
        reveal_strlit("SendToPane");
    } else if i == 15 {
        reveal_strlit("PasteImage");
    } else if i == 16 {
        reveal_strlit("PromptAgent");
    } else if i == 17 {
        reveal_strlit("RenamePaneId");
    } else if i == 18 {
        reveal_strlit("KillSession");
    } else if i == 19 {
        reveal_strlit("RenameSession");
    } else if i == 20 {
        reveal_strlit("NewTab");
    } else if i == 21 {
        reveal_strlit("NextTab");
    } else if i == 22 {
        reveal_strlit("PrevTab");
    } else if i == 23 {
        reveal_strlit("SelectTab");
    } else if i == 24 {
        reveal_strlit("SelectTabIndex");
    } else if i == 25 {
        reveal_strlit("MoveTab");
    } else if i == 26 {
        reveal_strlit("MovePaneToTab");
    } else if i == 27 {
        reveal_strlit("SwapPane");
    } else if i == 28 {
        reveal_strlit("BreakPane");
    } else if i == 29 {
        reveal_strlit("EqualizeLayout");
    } else if i == 30 {
        reveal_strlit("FocusPaneCycle");
    } else if i == 31 {
        reveal_strlit("SelectWorkspaceDelta");
    } else if i == 32 {
        reveal_strlit("RenameTabId");
    } else if i == 33 {
        reveal_strlit("RenameWorkspaceId");
    } else if i == 34 {
        reveal_strlit("NewWorkspace");
    } else if i == 35 {
        reveal_strlit("NewPane");
    } else if i == 36 {
        reveal_strlit("SelectWorkspace");
    } else if i == 37 {
        reveal_strlit("RenamePane");
    } else if i == 38 {
        reveal_strlit("RenameTab");
    } else if i == 39 {
        reveal_strlit("RenameWorkspace");
    } else if i == 40 {
        reveal_strlit("ResizePane");
    } else if i == 41 {
        reveal_strlit("ScrollPane");
    } else if i == 42 {
        reveal_strlit("ReadPane");
    } else if i == 43 {
        reveal_strlit("ZoomPane");
    } else if i == 44 {
        reveal_strlit("AgentState");
    } else if i == 45 {
        reveal_strlit("SetWorkspaceColor");
    } else if i == 46 {
        reveal_strlit("NewWorktreeWorkspace");
    } else if i == 47 {
        reveal_strlit("RemoveWorktreeWorkspace");
    } else if i == 48 {
        reveal_strlit("ReloadManifests");
    }
}

/// The schema lists the name of every client message exactly once.
pub proof fn law_schema_lists_every_client_message(message: ClientMessage)
    ensures
        client_names().contains(client_name(message)),
        client_names().no_duplicates(),
{
    let names = client_names();
    assert forall|i: int, j: int| 0 <= i < names.len() && 0 <= j < names.len() && i
        != j implies names[i] != names[j] by {
        lemma_client_place(i);
        lemma_client_place(j);
    }
    match message {
        ClientMessage::Query(_) => assert(names[0] == client_name(message)),
        ClientMessage::Subscribe => assert(names[1] == client_name(message)),
        ClientMessage::ApplyLayout(_) => assert(names[2] == client_name(message)),
        ClientMessage::Hello { .. } => assert(names[3] == client_name(message)),
        ClientMessage::Input { .. } => assert(names[4] == client_name(message)),
        ClientMessage::Resize { .. } => assert(names[5] == client_name(message)),
        ClientMessage::SetCompactView { .. } => assert(names[6] == client_name(message)),
        ClientMessage::SplitRight => assert(names[7] == client_name(message)),
        ClientMessage::SplitDown => assert(names[8] == client_name(message)),
        ClientMessage::ClosePane => assert(names[9] == client_name(message)),
        ClientMessage::CloseTab { .. } => assert(names[10] == client_name(message)),
        ClientMessage::CloseWorkspace { .. } => assert(names[11] == client_name(message)),
        ClientMessage::FocusPane { .. } => assert(names[12] == client_name(message)),
        ClientMessage::FocusPaneId { .. } => assert(names[13] == client_name(message)),
        ClientMessage::SendToPane { .. } => assert(names[14] == client_name(message)),
        ClientMessage::PasteImage { .. } => assert(names[15] == client_name(message)),
        ClientMessage::PromptAgent { .. } => assert(names[16] == client_name(message)),
        ClientMessage::RenamePaneId { .. } => assert(names[17] == client_name(message)),
        ClientMessage::KillSession => assert(names[18] == client_name(message)),
        ClientMessage::RenameSession { .. } => assert(names[19] == client_name(message)),
        ClientMessage::NewTab => assert(names[20] == client_name(message)),
        ClientMessage::NextTab => assert(names[21] == client_name(message)),
        ClientMessage::PrevTab => assert(names[22] == client_name(message)),
        ClientMessage::SelectTab { .. } => assert(names[23] == client_name(message)),
        ClientMessage::SelectTabIndex { .. } => assert(names[24] == client_name(message)),
        ClientMessage::MoveTab { .. } => assert(names[25] == client_name(message)),
        ClientMessage::MovePaneToTab { .. } => assert(names[26] == client_name(message)),
        ClientMessage::SwapPane { .. } => assert(names[27] == client_name(message)),
        ClientMessage::BreakPane => assert(names[28] == client_name(message)),
        ClientMessage::EqualizeLayout => assert(names[29] == client_name(message)),
        ClientMessage::FocusPaneCycle { .. } => assert(names[30] == client_name(message)),
        ClientMessage::SelectWorkspaceDelta { .. } => assert(names[31] == client_name(message)),
        ClientMessage::RenameTabId { .. } => assert(names[32] == client_name(message)),
        ClientMessage::RenameWorkspaceId { .. } => assert(names[33] == client_name(message)),
        ClientMessage::NewWorkspace { .. } => assert(names[34] == client_name(message)),
        ClientMessage::NewPane { .. } => assert(names[35] == client_name(message)),
        ClientMessage::SelectWorkspace { .. } => assert(names[36] == client_name(message)),
        ClientMessage::RenamePane { .. } => assert(names[37] == client_name(message)),
        ClientMessage::RenameTab { .. } => assert(names[38] == client_name(message)),
        ClientMessage::RenameWorkspace { .. } => assert(names[39] == client_name(message)),
        ClientMessage::ResizePane { .. } => assert(names[40] == client_name(message)),
        ClientMessage::ScrollPane { .. } => assert(names[41] == client_name(message)),
        ClientMessage::ReadPane { .. } => assert(names[42] == client_name(message)),
        ClientMessage::ZoomPane => assert(names[43] == client_name(message)),
        ClientMessage::AgentState { .. } => assert(names[44] == client_name(message)),
        ClientMessage::SetWorkspaceColor { .. } => assert(names[45] == client_name(message)),
        ClientMessage::NewWorktreeWorkspace { .. } => assert(names[46] == client_name(message)),
        ClientMessage::RemoveWorktreeWorkspace { .. } => assert(names[47] == client_name(message)),
        ClientMessage::ReloadManifests => assert(names[48] == client_name(message)),
    }
}

/// Variant name of a server message.
pub open spec fn server_name(message: ServerMessage) -> Seq<char> {
    match message {
        ServerMessage::ImagePasted { .. } => "ImagePasted"@,
        ServerMessage::Welcome { .. } => "Welcome"@,
        ServerMessage::Layout(_) => "Layout"@,
        ServerMessage::Notification(_) => "Notification"@,
        ServerMessage::PaneText { .. } => "PaneText"@,
        ServerMessage::Pane(_) => "Pane"@,
        ServerMessage::Image { .. } => "Image"@,
        ServerMessage::Version { .. } => "Version"@,
        ServerMessage::Event(_) => "Event"@,
        ServerMessage::Session(_) => "Session"@,
        ServerMessage::Schema { .. } => "Schema"@,
        ServerMessage::Manifests(_) => "Manifests"@,
        ServerMessage::Error { .. } => "Error"@,
        ServerMessage::Shutdown => "Shutdown"@,
    }
}

/// Every `ServerMessage` variant name, in schema order.
pub open spec fn server_names() -> Seq<Seq<char>> {
    seq![
        "ImagePasted"@,
        "Welcome"@,
        "Layout"@,
        "Notification"@,
        "PaneText"@,
        "Pane"@,
        "Image"@,
        "Version"@,
        "Event"@,
        "Session"@,
        "Schema"@,
        "Manifests"@,
        "Error"@,
        "Shutdown"@,
    ]
}

/// Variant name of a server message.
pub fn server_message_name(message: &ServerMessage) -> (r: &'static str)
    ensures
        r@ == server_name(*message),
{
    match message {
        ServerMessage::ImagePasted { .. } => "ImagePasted",
        ServerMessage::Welcome { .. } => "Welcome",
        ServerMessage::Layout(_) => "Layout",
        ServerMessage::Notification(_) => "Notification",
        ServerMessage::PaneText { .. } => "PaneText",
        ServerMessage::Pane(_) => "Pane",
        ServerMessage::Image { .. } => "Image",
        ServerMessage::Version { .. } => "Version",
        ServerMessage::Event(_) => "Event",
        ServerMessage::Session(_) => "Session",
        ServerMessage::Schema { .. } => "Schema",
        ServerMessage::Manifests(_) => "Manifests",
        ServerMessage::Error { .. } => "Error",
        ServerMessage::Shutdown => "Shutdown",
    }
}

/// Every `ServerMessage` variant name, in schema order.
pub fn server_message_names() -> (r: Vec<String>)
    ensures
        text::texts(r@) == server_names(),
{
    let names: Vec<String> = vec![
        "ImagePasted".to_owned(),
        "Welcome".to_owned(),
        "Layout".to_owned(),
        "Notification".to_owned(),
        "PaneText".to_owned(),
        "Pane".to_owned(),
        "Image".to_owned(),
        "Version".to_owned(),
        "Event".to_owned(),
        "Session".to_owned(),
        "Schema".to_owned(),
        "Manifests".to_owned(),
        "Error".to_owned(),
        "Shutdown".to_owned(),
    ];
    assert(text::texts(names@) =~= server_names());
    names
}

/// Where the schema lists a server message with a mark.
spec fn server_place(mark: int) -> int {
    if mark == 1539 {
        0
    } else if mark == 1543 {
        1
    } else if mark == 1642 {
        2
    } else if mark == 1584 {
        3
    } else if mark == 1540 {
        4
    } else if mark == 1536 {
        5
    } else if mark == 1533 {
        6
    } else if mark == 1731 {
        7
    } else if mark == 1601 {
        8
    } else if mark == 1719 {
        9
    } else if mark == 1550 {
        10
    } else if mark == 1577 {
        11
    } else if mark == 1613 {
        12
    } else if mark == 1732 {
        13
    } else {
        -1
    }
}

proof fn lemma_server_place(i: int)
    requires
        0 <= i < server_names().len(),
    ensures
        server_place(name_mark(server_names()[i])) == i,
{
    if i == 0 {
        reveal_strlit("ImagePasted");
    } else if i == 1 {
        reveal_strlit("Welcome");
    } else if i == 2 {
        reveal_strlit("Layout");
    } else if i == 3 {
        reveal_strlit("Notification");
    } else if i == 4 {
        reveal_strlit("PaneText");
    } else if i == 5 {
        reveal_strlit("Pane");
    } else if i == 6 {
        reveal_strlit("Image");
    } else if i == 7 {
        reveal_strlit("Version");
    } else if i == 8 {
        reveal_strlit("Event");
    } else if i == 9 {
        reveal_strlit("Session");
    } else if i == 10 {
        reveal_strlit("Schema");
    } else if i == 11 {
        reveal_strlit("Manifests");
    } else if i == 12 {
        reveal_strlit("Error");
    } else if i == 13 {
        reveal_strlit("Shutdown");
    }
}

/// The schema lists the name of every server message exactly once.
pub proof fn law_schema_lists_every_server_message(message: ServerMessage)
    ensures
        server_names().contains(server_name(message)),
        server_names().no_duplicates(),
{
    let names = server_names();
    assert forall|i: int, j: int| 0 <= i < names.len() && 0 <= j < names.len() && i
        != j implies names[i] != names[j] by {
        lemma_server_place(i);
        lemma_server_place(j);
    }
    match message {
        ServerMessage::ImagePasted { .. } => assert(names[0] == server_name(message)),
        ServerMessage::Welcome { .. } => assert(names[1] == server_name(message)),
        ServerMessage::Layout(_) => assert(names[2] == server_name(message)),
        ServerMessage::Notification(_) => assert(names[3] == server_name(message)),
        ServerMessage::PaneText { .. } => assert(names[4] == server_name(message)),
        ServerMessage::Pane(_) => assert(names[5] == server_name(message)),
        ServerMessage::Image { .. } => assert(names[6] == server_name(message)),
        ServerMessage::Version { .. } => assert(names[7] == server_name(message)),
        ServerMessage::Event(_) => assert(names[8] == server_name(message)),
        ServerMessage::Session(_) => assert(names[9] == server_name(message)),
        ServerMessage::Schema { .. } => assert(names[10] == server_name(message)),
        ServerMessage::Manifests(_) => assert(names[11] == server_name(message)),
        ServerMessage::Error { .. } => assert(names[12] == server_name(message)),
        ServerMessage::Shutdown => assert(names[13] == server_name(message)),
    }
}

/// The schema reply this build answers `Query(QueryKind::Schema)` with.
pub fn schema_message() -> (r: ServerMessage)
    ensures
        r matches ServerMessage::Schema { version, client_messages, server_messages } && version
            == SCHEMA_VERSION && text::texts(client_messages@) == client_names() && text::texts(
            server_messages@,
        ) == server_names(),
{
    ServerMessage::Schema {
        version: SCHEMA_VERSION,
        client_messages: client_message_names(),
        server_messages: server_message_names(),
    }
}

/// One encoded message as it travels: its bytes and the newline that ends it.
pub fn frame(encoded: Vec<u8>) -> (r: Vec<u8>)
    ensures
        r@ == encoded@.push(10u8),
{
    let mut line = encoded;
    line.push(10u8);
    line
}

} // verus!
