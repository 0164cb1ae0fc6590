//! What a command asks the daemon for, and what it makes of the replies.
//!
//! A command is a chain of steps. Each step is a request together with what is
//! to become of its reply, or something to show.

use vstd::prelude::*;

use crate::automation;
use crate::cli::{
    AgentCommand, Command, LayoutCommand, PaneCommand, PluginCommand,
    SessionCommand, TabCommand, WorkspaceCommand, WorktreeCommand,
};
use crate::commands::{self, OutputMatcher};
use crate::keys;
use crate::layout;
use crate::proto::{
    AgentStateKind, ClientMessage, Direction, LayoutSnapshot, ManifestInfo, NativeSession, PaneId,
    PaneSnapshot, QueryKind, ServerMessage, SplitAxis, TabId, WorkspaceId, PROTOCOL_VERSION,
};
use crate::text;

verus! {

// -------------------------------------------------------------------- before a socket

/// Whether a command talks to a session socket.
pub open spec fn uses_socket(command: Option<Command>) -> bool {
    match command {
        None => true,
        Some(Command::Agent { command: agent }) => !(agent is UpdateManifests
            || agent is ValidateManifest || agent is Guide),
        Some(Command::Plugin { command: plugin }) => plugin is Run || plugin is Pane,
        Some(c) => c is Ls || c is Pane || c is Tab || c is Workspace || c is Layout || c is Events
            || c is Send || c is New || c is Run || c is Split || c is NewTab || c is Worktree
            || c is KillSession,
    }
}

pub fn needs_socket(command: &Option<Command>) -> (r: bool)
    ensures
        r == uses_socket(*command),
{
    match command {
        None => true,
        Some(Command::Agent { command: agent }) => match agent {
            AgentCommand::UpdateManifests => false,
            AgentCommand::ValidateManifest { .. } => false,
            AgentCommand::Guide => false,
            _ => true,
        },
        Some(Command::Plugin { command: plugin }) => match plugin {
            PluginCommand::Run { .. } => true,
            PluginCommand::Pane { .. } => true,
            _ => false,
        },
        Some(Command::Ls { .. }) => true,
        Some(Command::Pane { .. }) => true,
        Some(Command::Tab { .. }) => true,
        Some(Command::Workspace { .. }) => true,
        Some(Command::Layout { .. }) => true,
        Some(Command::Events { .. }) => true,
        Some(Command::Send { .. }) => true,
        Some(Command::New { .. }) => true,
        Some(Command::Run { .. }) => true,
        Some(Command::Split { .. }) => true,
        Some(Command::NewTab { .. }) => true,
        Some(Command::Worktree { .. }) => true,
        Some(Command::KillSession) => true,
        _ => false,
    }
}

/// Whether a command starts a missing local session. Commands that only read or
/// take away never do.
pub open spec fn starts_session(command: Option<Command>) -> bool {
    match command {
        Some(Command::Agent { command: agent }) => agent is Start,
        Some(Command::Workspace { command: workspace }) => workspace is New,
        Some(Command::Tab { command: tab }) => tab is New,
        Some(c) => c is New || c is Run || c is NewTab,
        None => false,
    }
}

pub fn creates(command: &Option<Command>) -> (r: bool)
    ensures
        r == starts_session(*command),
{
    match command {
        Some(Command::Agent { command: AgentCommand::Start { .. } }) => true,
        Some(Command::Workspace { command: WorkspaceCommand::New { .. } }) => true,
        Some(Command::Tab { command: TabCommand::New { .. } }) => true,
        Some(Command::New { .. }) => true,
        Some(Command::Run { .. }) => true,
        Some(Command::NewTab { .. }) => true,
        _ => false,
    }
}

/// A command that starts a session also talks to it.
pub proof fn law_creating_commands_use_the_socket(command: Option<Command>)
    requires
        starts_session(command),
    ensures
        uses_socket(command),
{
}

/// Why a command cannot run against a remote host.
pub open spec fn remote_fault(command: Option<Command>, remote: bool) -> Option<Seq<char>> {
    match command {
        Some(Command::Update { .. }) if remote => Some(
            "update is local-only; run kodade-cli update on the remote host directly"@,
        ),
        Some(Command::Agent { command: AgentCommand::UpdateManifests }) if remote => Some(
            "agent update-manifests is local-only; run it on the remote host directly"@,
        ),
        _ => None,
    }
}

pub fn check_remote(command: &Option<Command>, remote: bool) -> (r: Result<(), String>)
    ensures
        text::fault(r) == remote_fault(*command, remote),
{
    if remote {
        match command {
            Some(Command::Update { .. }) => {
                return Err(
                    "update is local-only; run kodade-cli update on the remote host directly".to_owned(),
                );
            },
            Some(Command::Agent { command: AgentCommand::UpdateManifests }) => {
                return Err(
                    "agent update-manifests is local-only; run it on the remote host directly".to_owned(),
                );
            },
            _ => {},
        }
    }
    Ok(())
}

/// What an update does once the release of the channel is known.
#[derive(Debug, Clone, Copy, PartialEq, Eq, Structural)]
pub enum UpdateChoice {
    /// Print what is installed and what is available.
    Report,
    /// Say that nothing is newer.
    Current,
    /// Install, unless a package manager owns the installation.
    Install,
}

/// A check only reports. Without an explicit destination, only a newer release is
/// installed.
pub fn update_choice(check: bool, explicit: bool, newer: bool) -> (r: UpdateChoice)
    ensures
        r == (if check && !explicit {
            UpdateChoice::Report
        } else if !explicit && !newer {
            UpdateChoice::Current
        } else {
            UpdateChoice::Install
        }),
{
    if check && !explicit {
        UpdateChoice::Report
    } else if !explicit && !newer {
        UpdateChoice::Current
    } else {
        UpdateChoice::Install
    }
}

// ---------------------------------------------------------------------- chains of steps

/// A request to the daemon. The last three carry more than a `ClientMessage`.
#[derive(Debug, Clone, PartialEq, Eq)]
pub enum Request {
    Message(ClientMessage),
    CreateWorkspace { name: String, root: Option<String>, env: Vec<(String, String)> },
    AddWorktree {
        repo_root: String,
        branch: String,
        from: Option<String>,
        path: Option<String>,
    },
    OpenWorktree { repo_root: String, path: String },
}

/// What becomes of a reply.
#[derive(Debug, Clone, PartialEq, Eq)]
pub enum Then {
    /// It must be a layout.
    Accept,
    /// It must be a layout; then this message, which must be answered by one too.
    AcceptThen(ClientMessage),
    /// It must be no error; then this message, and the id of the focused pane.
    AnyThenFocused(ClientMessage),
    /// Show the id of the focused pane.
    Focused,
    /// Show the id of the active workspace.
    Active,
    /// Show this id, unless it is an error.
    Id(u64),
    /// Show the text of a pane.
    Text,
    /// The daemon stops, or answers with a layout.
    Stopped,
    /// Show the layout in one of its views.
    Show { view: LayoutView, json: bool },
    /// Find a tab anywhere and move the pane there.
    MovePane { pane: PaneId, tab: String },
    CloseTab { tab: String },
    RenameTab { tab: String, name: String },
    SelectTab { tab: String },
    CloseWorkspace { workspace: String },
    RenameWorkspace { workspace: String, name: String },
    ColorWorkspace { workspace: String, color: String },
    SelectWorkspace { workspace: String },
    /// Select the workspace of that name, or create it.
    NewWorkspace { name: String, root: Option<String>, env: Vec<(String, String)> },
    /// Resolve the names, then open a pane.
    NewPane {
        workspace: Option<String>,
        tab: Option<String>,
        command: Option<Vec<String>>,
        name: Option<String>,
        started: Option<bool>,
    },
    /// Branch the repository of a workspace.
    AddWorktree {
        branch: String,
        from: Option<String>,
        path: Option<String>,
        workspace: Option<String>,
    },
    /// Open a worktree of the repository of a workspace.
    OpenWorktree { path: String, workspace: Option<String> },
    RemoveWorktree { target: String, keep: bool },
    /// Ask for the pane in focus, then show it.
    Started { json: bool },
    /// Show the pane, as JSON or by its id.
    Pane { json: bool },
    /// Show the text that was read of a pane.
    ReadText { pane: PaneSnapshot, json: bool },
    /// It must be a layout; then show this pane, where JSON is asked for.
    FocusedPane { pane: PaneSnapshot, json: bool },
    /// It must be a layout; then attach.
    Attach,
    /// The prompt was written to the pane: show it, or wait for the agent.
    Prompted { pane: PaneSnapshot, waits: bool, until: Option<AgentStateKind>, json: bool },
    Manifests { json: bool },
    Export { file: Option<String> },
}

/// The part of a layout that a listing shows.
#[derive(Debug, Clone, Copy, PartialEq, Eq, Structural)]
pub enum LayoutView {
    All,
    Panes,
    Tabs,
    Workspaces,
    Agents,
    Worktrees,
}

/// Something to show.
#[derive(Debug, Clone, PartialEq, Eq)]
pub enum Document {
    Layout(LayoutSnapshot, LayoutView),
    /// A pane that was just started.
    Pane(PaneSnapshot),
    Explanation(PaneSnapshot),
    Reading(PaneSnapshot, String),
    Manifests(Vec<ManifestInfo>),
    Number(u64),
    Text(String),
}

/// What a command does next.
#[derive(Debug, Clone, PartialEq, Eq)]
pub enum Next {
    Ask { request: Request, then: Then },
    Show { document: Document, json: bool },
    Nothing,
    /// Attach the terminal to the session.
    Attach,
    /// Find the agent, then go on with it.
    Target { target: String, work: TargetWork },
    /// Wait for a pane's output.
    WaitOutput { pane: PaneId, matcher: OutputMatcher, scrollback: bool, timeout: Option<u64> },
    /// Wait for a pane's state.
    WaitState { pane: PaneId, state: AgentStateKind, timeout: Option<u64> },
    /// Wait for a prompted agent to settle; the pane is as before the prompt.
    WaitSettled { pane: PaneSnapshot, until: Option<AgentStateKind>, json: bool },
    PasteImage { pane: PaneId, path: Option<String> },
    /// Write the persisted layout to a file, or print it.
    Export { layout: crate::session_file::SessionFile, file: Option<String> },
    /// Read a layout file, then ask for it.
    Apply { file: String },
    /// Print the guide.
    Guide,
    UpdateManifests,
    ValidateManifest { path: String },
    /// A reply of the wrong kind.
    Unexpected(ServerMessage),
}

/// What follows an update of the detection manifests: a running daemon reads them again.
pub open spec fn after_update(running: bool, next: Next) -> bool {
    if running {
        next == (Next::Ask {
            request: Request::Message(ClientMessage::ReloadManifests),
            then: Then::Manifests { json: false },
        })
    } else {
        next matches Next::Show { document: Document::Text(said), json: false } && said@
            == "updated manifests; reload them when the daemon is running"@
    }
}

/// What follows an update of the detection manifests. `running` says whether the socket
/// of the session is there.
pub fn manifests_updated(running: bool) -> (r: Next)
    ensures
        after_update(running, r),
{
    if running {
        Next::Ask {
            request: Request::Message(ClientMessage::ReloadManifests),
            then: Then::Manifests { json: false },
        }
    } else {
        Next::Show {
            document: Document::Text(
                "updated manifests; reload them when the daemon is running".to_owned(),
            ),
            json: false,
        }
    }
}

/// What is done with an agent once it is found.
#[derive(Debug, Clone, PartialEq, Eq)]
pub enum TargetWork {
    Read { lines: Option<usize>, scrollback: bool, json: bool },
    SendKeys { literal: bool, keys: Vec<String> },
    Prompt {
        text: String,
        wait: bool,
        until: Option<AgentStateKind>,
        timeout: Option<u64>,
        json: bool,
    },
    Focus { json: bool },
    Attach,
    Rename { name: String },
    Explain { json: bool },
    Wait { state: AgentStateKind, timeout: Option<u64> },
}

pub open spec fn outcome(r: Result<Next, String>) -> Result<Next, Seq<char>> {
    match r {
        Ok(next) => Ok(next),
        Err(message) => Err(message@),
    }
}

pub open spec fn asks(message: ClientMessage, then: Then) -> Next {
    Next::Ask { request: Request::Message(message), then }
}

fn ask(message: ClientMessage, then: Then) -> (r: Next)
    ensures
        r == asks(message, then),
{
    Next::Ask { request: Request::Message(message), then }
}

fn ask_layout(then: Then) -> (r: Next)
    ensures
        r == asks(ClientMessage::Query(QueryKind::Layout), then),
{
    ask(commands::layout_query(), then)
}

// ------------------------------------------------------------------------------ replies

/// The layout of a reply, or what is wrong with it.
pub open spec fn layout_reply(reply: ServerMessage) -> Result<LayoutSnapshot, Seq<char>> {
    match reply {
        ServerMessage::Layout(layout) => Ok(layout),
        ServerMessage::Shutdown => Err("daemon shut down"@),
        ServerMessage::Error { message } => Err(message@),
        _ => Err(commands::unexpected(reply)),
    }
}

pub open spec fn workspace_of(layout: LayoutSnapshot, needle: Seq<char>) -> Result<
    WorkspaceId,
    Seq<char>,
> {
    match commands::workspace_for(layout.workspaces@, needle) {
        Some(id) => Ok(id),
        None => Err("workspace '"@ + needle + "' not found"@),
    }
}

pub open spec fn tab_of(
    layout: LayoutSnapshot,
    workspace: Option<WorkspaceId>,
    needle: Seq<char>,
) -> Result<TabId, Seq<char>> {
    let target = match workspace {
        Some(id) => id,
        None => layout.active_workspace,
    };
    match layout::workspace_with(layout.workspaces@, target) {
        None => Err("workspace not found"@),
        Some(w) => match commands::tab_for(w.tabs@, needle) {
            Some(id) => Ok(id),
            None => Err("tab '"@ + needle + "' not found"@),
        },
    }
}

pub open spec fn tab_anywhere(layout: LayoutSnapshot, needle: Seq<char>) -> Result<
    TabId,
    Seq<char>,
> {
    let tabs = commands::all_tabs(layout.workspaces@, layout.workspaces@.len() as int);
    let number = text::parse_unsigned(needle);
    let named = commands::tabs_named(tabs, needle);
    if number is Some && commands::has_tab(tabs, TabId(number->0)) {
        Ok(TabId(number->0))
    } else if named.len() == 0 {
        Err("tab '"@ + needle + "' not found"@)
    } else if named.len() > 1 {
        Err("tab name '"@ + needle + "' is ambiguous; use its id"@)
    } else {
        Ok(named[0])
    }
}

pub open spec fn worktree_of(layout: LayoutSnapshot, needle: Seq<char>) -> Result<
    WorkspaceId,
    Seq<char>,
> {
    match commands::workspace_for(layout.workspaces@, needle) {
        Some(id) => Ok(id),
        None => match commands::workspace_on(layout.workspaces@, needle) {
            Some(id) => Ok(id),
            None => Err("no worktree workspace for '"@ + needle + "'"@),
        },
    }
}

/// The ids that optional workspace and tab names stand for.
pub open spec fn ids_of(
    layout: LayoutSnapshot,
    workspace: Option<String>,
    tab: Option<String>,
) -> Result<(Option<WorkspaceId>, Option<TabId>), Seq<char>> {
    let found: Result<Option<WorkspaceId>, Seq<char>> = match workspace {
        None => Ok(None),
        Some(name) => match workspace_of(layout, name@) {
            Ok(id) => Ok(Some(id)),
            Err(fault) => Err(fault),
        },
    };
    match found {
        Err(fault) => Err(fault),
        Ok(ws) => match tab {
            None => Ok((ws, None)),
            Some(name) => match tab_of(layout, ws, name@) {
                Ok(id) => Ok((ws, Some(id))),
                Err(fault) => Err(fault),
            },
        },
    }
}

pub open spec fn ids_result(r: Result<(Option<WorkspaceId>, Option<TabId>), String>) -> Result<
    (Option<WorkspaceId>, Option<TabId>),
    Seq<char>,
> {
    match r {
        Ok(ids) => Ok(ids),
        Err(message) => Err(message@),
    }
}

/// Resolves optional workspace and tab names.
pub fn resolve_target(
    layout: &LayoutSnapshot,
    workspace: &Option<String>,
    tab: &Option<String>,
) -> (r: Result<(Option<WorkspaceId>, Option<TabId>), String>)
    ensures
        ids_result(r) == ids_of(*layout, *workspace, *tab),
{
    let ws = match workspace {
        None => None,
        Some(name) => match commands::resolve_workspace(layout, name.as_str()) {
            Ok(id) => Some(id),
            Err(message) => return Err(message),
        },
    };
    match tab {
        None => Ok((ws, None)),
        Some(name) => match commands::resolve_tab(layout, ws, name.as_str()) {
            Ok(id) => Ok((ws, Some(id))),
            Err(message) => Err(message),
        },
    }
}

pub open spec fn focused_of(layout: LayoutSnapshot) -> Result<PaneId, Seq<char>> {
    match layout::pane_in_focus(layout.panes@) {
        Some(pane) => Ok(pane.id),
        None => Err("no focused pane in reply"@),
    }
}

pub open spec fn number(id: u64) -> Next {
    Next::Show { document: Document::Number(id), json: false }
}

/// The pane that is opened once the names are resolved.
pub open spec fn opens(
    ids: (Option<WorkspaceId>, Option<TabId>),
    command: Option<Vec<String>>,
    name: Option<String>,
    started: Option<bool>,
) -> Next {
    asks(
        ClientMessage::NewPane {
            workspace: ids.0,
            tab: ids.1,
            split: None,
            command,
            name,
            context: None,
        },
        match started {
            Some(json) => Then::Started { json },
            None => Then::Focused,
        },
    )
}

fn open(
    ids: (Option<WorkspaceId>, Option<TabId>),
    command: Option<Vec<String>>,
    name: Option<String>,
    started: Option<bool>,
) -> (r: Next)
    ensures
        r == opens(ids, command, name, started),
{
    ask(
        ClientMessage::NewPane {
            workspace: ids.0,
            tab: ids.1,
            split: None,
            command,
            name,
            context: None,
        },
        match started {
            Some(json) => Then::Started { json },
            None => Then::Focused,
        },
    )
}

/// What follows from a layout that was asked for.
pub open spec fn on_layout(then: Then, layout: LayoutSnapshot) -> Result<Next, Seq<char>> {
    match then {
        Then::AcceptThen(message) => Ok(asks(message, Then::Accept)),
        Then::Focused => match focused_of(layout) {
            Ok(id) => Ok(number(id.0)),
            Err(fault) => Err(fault),
        },
        Then::Started { json } => match focused_of(layout) {
            Ok(id) => Ok(
                asks(ClientMessage::Query(QueryKind::Pane(id)), Then::Pane { json }),
            ),
            Err(fault) => Err(fault),
        },
        Then::Active => Ok(number(layout.active_workspace.0)),
        Then::Show { view, json } => Ok(
            Next::Show { document: Document::Layout(layout, view), json },
        ),
        Then::MovePane { pane, tab } => match tab_anywhere(layout, tab@) {
            Ok(id) => Ok(asks(ClientMessage::MovePaneToTab { pane, tab: id }, Then::Accept)),
            Err(fault) => Err(fault),
        },
        Then::CloseTab { tab } => match tab_of(layout, None, tab@) {
            Ok(id) => Ok(asks(ClientMessage::CloseTab { id }, Then::Accept)),
            Err(fault) => Err(fault),
        },
        Then::RenameTab { tab, name } => match tab_of(layout, None, tab@) {
            Ok(id) => Ok(asks(ClientMessage::RenameTabId { id, name }, Then::Accept)),
            Err(fault) => Err(fault),
        },
        Then::SelectTab { tab } => match tab_of(layout, None, tab@) {
            Ok(id) => Ok(asks(ClientMessage::SelectTab { id }, Then::Accept)),
            Err(fault) => Err(fault),
        },
        Then::CloseWorkspace { workspace } => match workspace_of(layout, workspace@) {
            Ok(id) => Ok(asks(ClientMessage::CloseWorkspace { id }, Then::Accept)),
            Err(fault) => Err(fault),
        },
        Then::RenameWorkspace { workspace, name } => match workspace_of(layout, workspace@) {
            Ok(id) => Ok(asks(ClientMessage::RenameWorkspaceId { id, name }, Then::Accept)),
            Err(fault) => Err(fault),
        },
        Then::ColorWorkspace { workspace, color } => match workspace_of(layout, workspace@) {
            Ok(id) => Ok(
                asks(
                    ClientMessage::SetWorkspaceColor {
                        id,
                        color: if color@ == "off"@ {
                            None
                        } else {
                            Some(color)
                        },
                    },
                    Then::Accept,
                ),
            ),
            Err(fault) => Err(fault),
        },
        Then::SelectWorkspace { workspace } => match workspace_of(layout, workspace@) {
            Ok(id) => Ok(asks(ClientMessage::SelectWorkspace { id }, Then::Accept)),
            Err(fault) => Err(fault),
        },
        Then::NewWorkspace { name, root, env } => match workspace_of(layout, name@) {
            Ok(id) => if env@.len() > 0 {
                Err(
                    "workspace '"@ + name@
                        + "' already exists; --env only applies when creating a workspace"@,
                )
            } else {
                Ok(asks(ClientMessage::SelectWorkspace { id }, Then::Id(id.0)))
            },
            Err(_) => Ok(
                Next::Ask {
                    request: Request::CreateWorkspace { name, root, env },
                    then: Then::Active,
                },
            ),
        },
        Then::NewPane { workspace, tab, command, name, started } => match ids_of(
            layout,
            workspace,
            tab,
        ) {
            Ok(ids) => Ok(opens(ids, command, name, started)),
            Err(fault) => Err(fault),
        },
        Then::RemoveWorktree { target, keep } => match worktree_of(layout, target@) {
            Ok(id) => Ok(
                asks(ClientMessage::RemoveWorktreeWorkspace { id, keep }, Then::Id(id.0)),
            ),
            Err(fault) => Err(fault),
        },
        Then::FocusedPane { pane, json } => Ok(
            if json {
                Next::Show { document: Document::Pane(pane), json: true }
            } else {
                Next::Nothing
            },
        ),
        Then::Attach => Ok(Next::Attach),
        _ => Ok(Next::Nothing),
    }
}

/// The root of the repository that a worktree command is about, if there is one.
pub open spec fn repo_of(layout: LayoutSnapshot, workspace: Option<String>) -> Result<
    Option<Seq<char>>,
    Seq<char>,
> {
    let target: Result<WorkspaceId, Seq<char>> = match workspace {
        Some(name) => workspace_of(layout, name@),
        None => Ok(layout.active_workspace),
    };
    match target {
        Err(fault) => Err(fault),
        Ok(id) => Ok(
            match layout::workspace_with(layout.workspaces@, id) {
                Some(item) => text::option_text(item.root),
                None => None,
            },
        ),
    }
}

fn repo_root(layout: &LayoutSnapshot, workspace: &Option<String>) -> (r: Result<
    Option<String>,
    String,
>)
    ensures
        match repo_of(*layout, *workspace) {
            Err(fault) => text::fault(r) == Some(fault),
            Ok(root) => r matches Ok(got) && text::option_text(got) == root,
        },
{
    let id = match workspace {
        Some(name) => match commands::resolve_workspace(layout, name.as_str()) {
            Ok(id) => id,
            Err(message) => return Err(message),
        },
        None => layout.active_workspace,
    };
    match layout::find_workspace(&layout.workspaces, id) {
        Some(item) => match &item.root {
            Some(root) => Ok(Some(root.clone())),
            None => Ok(None),
        },
        None => Ok(None),
    }
}

/// What follows from a layout for a command that makes or opens a worktree. A
/// relative path is one below the repository.
pub open spec fn worktree_step(then: Then, layout: LayoutSnapshot, r: Result<Next, String>) -> bool {
    match then {
        Then::AddWorktree { branch, from, path, workspace } => match repo_of(layout, workspace) {
            Err(fault) => text::fault(r) == Some(fault),
            Ok(None) => text::fault(r) == Some(
                "workspace has no root directory to branch from"@,
            ),
            Ok(Some(root)) => {
                &&& r matches Ok(
                    Next::Ask {
                        request: Request::AddWorktree {
                            repo_root,
                            branch: new_branch,
                            from: base,
                            path: place,
                        },
                        then: Then::Active,
                    },
                )
                &&& repo_root@ == root
                &&& new_branch == branch
                &&& base == from
                &&& text::option_text(place) == (match path {
                    Some(given) => Some(text::path_join(root, given@)),
                    None => None,
                })
            },
        },
        Then::OpenWorktree { path, workspace } => match repo_of(layout, workspace) {
            Err(fault) => text::fault(r) == Some(fault),
            Ok(None) => text::fault(r) == Some(
                "workspace has no root directory to open a worktree from"@,
            ),
            Ok(Some(root)) => {
                &&& r matches Ok(
                    Next::Ask {
                        request: Request::OpenWorktree { repo_root, path: place },
                        then: Then::Active,
                    },
                )
                &&& repo_root@ == root
                &&& place@ == text::path_join(root, path@)
            },
        },
        _ => true,
    }
}

fn accept_layout(then: Then, layout: LayoutSnapshot) -> (r: Result<Next, String>)
    ensures
        !(then is AddWorktree || then is OpenWorktree) ==> outcome(r) == on_layout(then, layout),
        worktree_step(then, layout, r),
{
    match then {
        Then::AddWorktree { branch, from, path, workspace } => match repo_root(
            &layout,
            &workspace,
        ) {
            Err(message) => Err(message),
            Ok(None) => Err("workspace has no root directory to branch from".to_owned()),
            Ok(Some(root)) => {
                let place = match &path {
                    Some(given) => Some(text::join_path(root.as_str(), given.as_str())),
                    None => None,
                };
                Ok(
                    Next::Ask {
                        request: Request::AddWorktree {
                            repo_root: root,
                            branch,
                            from,
                            path: place,
                        },
                        then: Then::Active,
                    },
                )
            },
        },
        Then::OpenWorktree { path, workspace } => match repo_root(&layout, &workspace) {
            Err(message) => Err(message),
            Ok(None) => Err(
                "workspace has no root directory to open a worktree from".to_owned(),
            ),
            Ok(Some(root)) => {
                let place = text::join_path(root.as_str(), path.as_str());
                Ok(
                    Next::Ask {
                        request: Request::OpenWorktree { repo_root: root, path: place },
                        then: Then::Active,
                    },
                )
            },
        },
        Then::AcceptThen(message) => Ok(ask(message, Then::Accept)),
        Then::Focused => match commands::focused_pane(&layout) {
            Ok(id) => Ok(Next::Show { document: Document::Number(id.0), json: false }),
            Err(message) => Err(message),
        },
        Then::Started { json } => match commands::focused_pane(&layout) {
            Ok(id) => Ok(ask(ClientMessage::Query(QueryKind::Pane(id)), Then::Pane { json })),
            Err(message) => Err(message),
        },
        Then::Active => Ok(
            Next::Show { document: Document::Number(layout.active_workspace.0), json: false },
        ),
        Then::Show { view, json } => Ok(
            Next::Show { document: Document::Layout(layout, view), json },
        ),
        Then::MovePane { pane, tab } => match commands::resolve_tab_anywhere(
            &layout,
            tab.as_str(),
        ) {
            Ok(id) => Ok(ask(ClientMessage::MovePaneToTab { pane, tab: id }, Then::Accept)),
            Err(message) => Err(message),
        },
        Then::CloseTab { tab } => match commands::resolve_tab(&layout, None, tab.as_str()) {
            Ok(id) => Ok(ask(ClientMessage::CloseTab { id }, Then::Accept)),
            Err(message) => Err(message),
        },
        Then::RenameTab { tab, name } => match commands::resolve_tab(&layout, None, tab.as_str()) {
            Ok(id) => Ok(ask(ClientMessage::RenameTabId { id, name }, Then::Accept)),
            Err(message) => Err(message),
        },
        Then::SelectTab { tab } => match commands::resolve_tab(&layout, None, tab.as_str()) {
            Ok(id) => Ok(ask(ClientMessage::SelectTab { id }, Then::Accept)),
            Err(message) => Err(message),
        },
        Then::CloseWorkspace { workspace } => match commands::resolve_workspace(
            &layout,
            workspace.as_str(),
        ) {
            Ok(id) => Ok(ask(ClientMessage::CloseWorkspace { id }, Then::Accept)),
            Err(message) => Err(message),
        },
        Then::RenameWorkspace { workspace, name } => match commands::resolve_workspace(
            &layout,
            workspace.as_str(),
        ) {
            Ok(id) => Ok(ask(ClientMessage::RenameWorkspaceId { id, name }, Then::Accept)),
            Err(message) => Err(message),
        },
        Then::ColorWorkspace { workspace, color } => match commands::resolve_workspace(
            &layout,
            workspace.as_str(),
        ) {
            Ok(id) => {
                let color = if text::same(color.as_str(), "off") {
                    None
                } else {
                    Some(color)
                };
                Ok(ask(ClientMessage::SetWorkspaceColor { id, color }, Then::Accept))
            },
            Err(message) => Err(message),
        },
        Then::SelectWorkspace { workspace } => match commands::resolve_workspace(
            &layout,
            workspace.as_str(),
        ) {
            Ok(id) => Ok(ask(ClientMessage::SelectWorkspace { id }, Then::Accept)),
            Err(message) => Err(message),
        },
        Then::NewWorkspace { name, root, env } => match commands::resolve_workspace(
            &layout,
            name.as_str(),
        ) {
            Ok(id) => {
                if env.len() > 0 {
                    return Err(
                        text::cat3(
                            "workspace '",
                            name.as_str(),
                            "' already exists; --env only applies when creating a workspace",
                        ),
                    );
                }
                Ok(ask(ClientMessage::SelectWorkspace { id }, Then::Id(id.0)))
            },
            Err(_) => Ok(
                Next::Ask {
                    request: Request::CreateWorkspace { name, root, env },
                    then: Then::Active,
                },
            ),
        },
        Then::NewPane { workspace, tab, command, name, started } => match resolve_target(
            &layout,
            &workspace,
            &tab,
        ) {
            Ok(ids) => Ok(open(ids, command, name, started)),
            Err(message) => Err(message),
        },
        Then::RemoveWorktree { target, keep } => match commands::resolve_worktree(
            &layout,
            target.as_str(),
        ) {
            Ok(id) => Ok(
                ask(ClientMessage::RemoveWorktreeWorkspace { id, keep }, Then::Id(id.0)),
            ),
            Err(message) => Err(message),
        },
        Then::FocusedPane { pane, json } => Ok(
            if json {
                Next::Show { document: Document::Pane(pane), json: true }
            } else {
                Next::Nothing
            },
        ),
        Then::Attach => Ok(Next::Attach),
        _ => Ok(Next::Nothing),
    }
}

/// What follows from a reply. An error reply ends every chain with its message.
pub open spec fn answered(then: Then, reply: ServerMessage) -> Result<Next, Seq<char>> {
    match reply {
        ServerMessage::Error { message } => Err(message@),
        _ => match then {
            Then::AnyThenFocused(message) => Ok(asks(message, Then::Focused)),
            Then::Id(id) => Ok(number(id)),
            Then::Text => match reply {
                ServerMessage::PaneText { text, .. } => Ok(
                    Next::Show { document: Document::Text(text), json: false },
                ),
                _ => Ok(Next::Unexpected(reply)),
            },
            Then::Stopped => match reply {
                ServerMessage::Shutdown => Ok(Next::Nothing),
                _ => match layout_reply(reply) {
                    Ok(_) => Ok(Next::Nothing),
                    Err(fault) => Err(fault),
                },
            },
            Then::Pane { json } => match reply {
                ServerMessage::Pane(pane) => Ok(
                    Next::Show { document: Document::Pane(pane), json },
                ),
                _ => Err(commands::unexpected(reply)),
            },
            Then::ReadText { pane, json } => match reply {
                ServerMessage::PaneText { text, .. } => Ok(
                    Next::Show { document: Document::Reading(pane, text), json },
                ),
                _ => Err(commands::unexpected(reply)),
            },
            Then::Prompted { pane, waits, until, json } => match reply {
                ServerMessage::Pane(_) => Ok(
                    if waits {
                        Next::WaitSettled { pane, until, json }
                    } else if json {
                        Next::Show { document: Document::Pane(pane), json: true }
                    } else {
                        Next::Nothing
                    },
                ),
                _ => Err(commands::unexpected(reply)),
            },
            Then::Manifests { json } => match reply {
                ServerMessage::Manifests(list) => Ok(
                    Next::Show { document: Document::Manifests(list), json },
                ),
                _ => match layout_reply(reply) {
                    Ok(_) => Ok(Next::Nothing),
                    Err(fault) => Err(fault),
                },
            },
            Then::Export { file } => match reply {
                ServerMessage::Session(layout) => Ok(Next::Export { layout, file }),
                _ => Err(commands::unexpected(reply)),
            },
            _ => match layout_reply(reply) {
                Ok(layout) => on_layout(then, layout),
                Err(fault) => Err(fault),
            },
        },
    }
}

/// Takes a reply and says what follows from it.
pub fn answer(then: Then, reply: ServerMessage) -> (r: Result<Next, String>)
    ensures
        !(then is AddWorktree || then is OpenWorktree) ==> outcome(r) == answered(then, reply),
        then is AddWorktree || then is OpenWorktree ==> (match layout_reply(reply) {
            Ok(layout) => worktree_step(then, layout, r),
            Err(fault) => text::fault(r) == Some(fault),
        }),
{
    let reply = match commands::checked_reply(reply) {
        Ok(reply) => reply,
        Err(message) => return Err(message),
    };
    match then {
        Then::AnyThenFocused(message) => Ok(ask(message, Then::Focused)),
        Then::Id(id) => Ok(Next::Show { document: Document::Number(id), json: false }),
        Then::Text => match reply {
            ServerMessage::PaneText { text, .. } => Ok(
                Next::Show { document: Document::Text(text), json: false },
            ),
            other => Ok(Next::Unexpected(other)),
        },
        Then::Stopped => match reply {
            ServerMessage::Shutdown => Ok(Next::Nothing),
            other => match commands::layout(other) {
                Ok(_) => Ok(Next::Nothing),
                Err(message) => Err(message),
            },
        },
        Then::Pane { json } => match commands::pane_snapshot(reply) {
            Ok(pane) => Ok(Next::Show { document: Document::Pane(pane), json }),
            Err(message) => Err(message),
        },
        Then::ReadText { pane, json } => match commands::pane_text(reply) {
            Ok(text) => Ok(Next::Show { document: Document::Reading(pane, text), json }),
            Err(message) => Err(message),
        },
        Then::Prompted { pane, waits, until, json } => match commands::pane_snapshot(reply) {
            Ok(_) => Ok(
                if waits {
                    Next::WaitSettled { pane, until, json }
                } else if json {
                    Next::Show { document: Document::Pane(pane), json: true }
                } else {
                    Next::Nothing
                },
            ),
            Err(message) => Err(message),
        },
        Then::Manifests { json } => match reply {
            ServerMessage::Manifests(list) => Ok(
                Next::Show { document: Document::Manifests(list), json },
            ),
            other => match commands::layout(other) {
                Ok(_) => Ok(Next::Nothing),
                Err(message) => Err(message),
            },
        },
        Then::Export { file } => match commands::session_file(reply) {
            Ok(layout) => Ok(Next::Export { layout, file }),
            Err(message) => Err(message),
        },
        other => match commands::layout(reply) {
            Ok(layout) => accept_layout(other, layout),
            Err(message) => Err(message),
        },
    }
}

// ----------------------------------------------------------------------------- commands

/// A pane opened in a workspace and a tab that are named; without a name nothing
/// is looked up.
pub open spec fn opening(
    workspace: Option<String>,
    tab: Option<String>,
    command: Option<Vec<String>>,
    name: Option<String>,
    started: Option<bool>,
) -> Next {
    if workspace is None && tab is None {
        opens((None, None), command, name, started)
    } else {
        asks(
            ClientMessage::Query(QueryKind::Layout),
            Then::NewPane { workspace, tab, command, name, started },
        )
    }
}

fn begin_pane(
    workspace: Option<String>,
    tab: Option<String>,
    command: Option<Vec<String>>,
    name: Option<String>,
    started: Option<bool>,
) -> (r: Next)
    ensures
        r == opening(workspace, tab, command, name, started),
{
    if workspace.is_none() && tab.is_none() {
        open((None, None), command, name, started)
    } else {
        ask_layout(Then::NewPane { workspace, tab, command, name, started })
    }
}

/// Focuses a pane, then sends a message that the daemon applies to the focused
/// pane.
pub open spec fn focus_then(pane: PaneId, message: ClientMessage) -> Next {
    asks(ClientMessage::FocusPaneId { id: pane }, Then::AcceptThen(message))
}

/// What a `pane` command begins with, except for those that send bytes.
pub open spec fn pane_start(command: PaneCommand) -> Next {
    match command {
        PaneCommand::Read { pane, lines, scrollback } => asks(
            ClientMessage::ReadPane { id: pane, scrollback, lines },
            Then::Text,
        ),
        PaneCommand::Ls { json } => asks(
            ClientMessage::Query(QueryKind::Layout),
            Then::Show { view: LayoutView::Panes, json },
        ),
        PaneCommand::PasteImage { pane, path } => Next::PasteImage { pane, path },
        PaneCommand::Kill { pane } => focus_then(pane, ClientMessage::ClosePane),
        PaneCommand::Focus { pane } => asks(
            ClientMessage::FocusPaneId { id: pane },
            Then::Accept,
        ),
        PaneCommand::Zoom { pane } => focus_then(pane, ClientMessage::ZoomPane),
        PaneCommand::Swap { pane, direction } => focus_then(
            pane,
            ClientMessage::SwapPane { direction: crate::cli::direction_of(direction) },
        ),
        PaneCommand::Resize { pane, direction, cells } => focus_then(
            pane,
            ClientMessage::ResizePane { direction: crate::cli::direction_of(direction), cells },
        ),
        PaneCommand::Move { pane, tab } => asks(
            ClientMessage::Query(QueryKind::Layout),
            Then::MovePane { pane, tab },
        ),
        _ => Next::Nothing,
    }
}

/// The bytes that key arguments stand for.
pub open spec fn typed(keys: Seq<String>, literal: bool) -> Result<Seq<u8>, Seq<char>> {
    if literal {
        Ok(vstd::utf8::encode_utf8(text::joined(text::texts(keys), " "@)))
    } else {
        keys::keys_input(text::texts(keys))
    }
}

/// The step sends these bytes to a pane.
pub open spec fn sends(r: Result<Next, String>, pane: PaneId, bytes: Seq<u8>) -> bool {
    r matches Ok(
        Next::Ask {
            request: Request::Message(ClientMessage::SendToPane { id, bytes: sent }),
            then: Then::Accept,
        },
    ) && id == pane && sent@ == bytes
}

fn type_keys(pane: PaneId, keys_to_send: &Vec<String>, literal: bool) -> (r: Result<Next, String>)
    ensures
        match typed(keys_to_send@, literal) {
            Ok(bytes) => sends(r, pane, bytes),
            Err(fault) => text::fault(r) == Some(fault),
        },
{
    let bytes = if literal {
        keys::literal(keys_to_send)
    } else {
        match keys::parse_all(keys_to_send.as_slice()) {
            Ok(bytes) => bytes,
            Err(message) => return Err(message),
        }
    };
    Ok(ask(ClientMessage::SendToPane { id: pane, bytes }, Then::Accept))
}

/// What a `pane` command begins with.
pub fn pane(command: PaneCommand) -> (r: Result<Next, String>)
    ensures
        match command {
            PaneCommand::SendKeys { pane, literal, keys } => match typed(keys@, literal) {
                Ok(bytes) => sends(r, pane, bytes),
                Err(fault) => text::fault(r) == Some(fault),
            },
            PaneCommand::WaitOutput { pane, text, regex, scrollback, timeout } => if regex
                && !commands::regex_compiles(text@) {
                text::fault(r) == Some("invalid --regex pattern"@)
            } else {
                &&& r matches Ok(
                    Next::WaitOutput { pane: id, matcher, scrollback: s, timeout: t },
                )
                &&& id == pane
                &&& s == scrollback
                &&& t == timeout
                &&& match matcher {
                    OutputMatcher::Regex(pattern) => regex && pattern@ == text@,
                    OutputMatcher::Literal(needle) => !regex && needle@ == text@,
                }
            },
            _ => r == Ok::<Next, String>(pane_start(command)),
        },
{
    match command {
        PaneCommand::Read { pane, lines, scrollback } => Ok(
            ask(ClientMessage::ReadPane { id: pane, scrollback, lines }, Then::Text),
        ),
        PaneCommand::Ls { json } => Ok(
            ask_layout(Then::Show { view: LayoutView::Panes, json }),
        ),
        PaneCommand::PasteImage { pane, path } => Ok(Next::PasteImage { pane, path }),
        PaneCommand::SendKeys { pane, literal, keys } => type_keys(pane, &keys, literal),
        PaneCommand::Kill { pane } => Ok(
            ask(
                ClientMessage::FocusPaneId { id: pane },
                Then::AcceptThen(ClientMessage::ClosePane),
            ),
        ),
        PaneCommand::Focus { pane } => Ok(
            ask(ClientMessage::FocusPaneId { id: pane }, Then::Accept),
        ),
        PaneCommand::Zoom { pane } => Ok(
            ask(
                ClientMessage::FocusPaneId { id: pane },
                Then::AcceptThen(ClientMessage::ZoomPane),
            ),
        ),
        PaneCommand::Swap { pane, direction } => Ok(
            ask(
                ClientMessage::FocusPaneId { id: pane },
                Then::AcceptThen(
                    ClientMessage::SwapPane { direction: Direction::from(direction) },
                ),
            ),
        ),
        PaneCommand::Resize { pane, direction, cells } => Ok(
            ask(
                ClientMessage::FocusPaneId { id: pane },
                Then::AcceptThen(
                    ClientMessage::ResizePane { direction: Direction::from(direction), cells },
                ),
            ),
        ),
        PaneCommand::Move { pane, tab } => Ok(ask_layout(Then::MovePane { pane, tab })),
        PaneCommand::WaitOutput { pane, text, regex, scrollback, timeout } => {
            match commands::output_matcher(text.as_str(), regex) {
                Ok(matcher) => Ok(Next::WaitOutput { pane, matcher, scrollback, timeout }),
                Err(message) => Err(message),
            }
        },
    }
}

/// What a `tab` command begins with.
pub open spec fn tab_start(command: TabCommand) -> Next {
    match command {
        TabCommand::Ls { json } => asks(
            ClientMessage::Query(QueryKind::Layout),
            Then::Show { view: LayoutView::Tabs, json },
        ),
        TabCommand::New { workspace, name } => opening(workspace, None, None, name, None),
        TabCommand::Close { tab } => asks(
            ClientMessage::Query(QueryKind::Layout),
            Then::CloseTab { tab },
        ),
        TabCommand::Rename { tab, name } => asks(
            ClientMessage::Query(QueryKind::Layout),
            Then::RenameTab { tab, name },
        ),
        TabCommand::Select { tab } => asks(
            ClientMessage::Query(QueryKind::Layout),
            Then::SelectTab { tab },
        ),
    }
}

pub fn tab(command: TabCommand) -> (r: Next)
    ensures
        r == tab_start(command),
{
    match command {
        TabCommand::Ls { json } => ask_layout(Then::Show { view: LayoutView::Tabs, json }),
        TabCommand::New { workspace, name } => begin_pane(workspace, None, None, name, None),
        TabCommand::Close { tab } => ask_layout(Then::CloseTab { tab }),
        TabCommand::Rename { tab, name } => ask_layout(Then::RenameTab { tab, name }),
        TabCommand::Select { tab } => ask_layout(Then::SelectTab { tab }),
    }
}

/// What a `workspace` command begins with.
pub open spec fn workspace_start(command: WorkspaceCommand) -> Next {
    asks(
        ClientMessage::Query(QueryKind::Layout),
        match command {
            WorkspaceCommand::Ls { json } => Then::Show { view: LayoutView::Workspaces, json },
            WorkspaceCommand::New { name, path, env } => Then::NewWorkspace {
                name,
                root: path,
                env,
            },
            WorkspaceCommand::Close { workspace } => Then::CloseWorkspace { workspace },
            WorkspaceCommand::Rename { workspace, name } => Then::RenameWorkspace {
                workspace,
                name,
            },
            WorkspaceCommand::Select { workspace } => Then::SelectWorkspace { workspace },
            WorkspaceCommand::Color { workspace, color } => Then::ColorWorkspace {
                workspace,
                color,
            },
        },
    )
}

pub fn workspace(command: WorkspaceCommand) -> (r: Next)
    ensures
        r == workspace_start(command),
{
    ask_layout(
        match command {
            WorkspaceCommand::Ls { json } => Then::Show { view: LayoutView::Workspaces, json },
            WorkspaceCommand::New { name, path, env } => Then::NewWorkspace {
                name,
                root: path,
                env,
            },
            WorkspaceCommand::Close { workspace } => Then::CloseWorkspace { workspace },
            WorkspaceCommand::Rename { workspace, name } => Then::RenameWorkspace {
                workspace,
                name,
            },
            WorkspaceCommand::Select { workspace } => Then::SelectWorkspace { workspace },
            WorkspaceCommand::Color { workspace, color } => Then::ColorWorkspace {
                workspace,
                color,
            },
        },
    )
}

/// What a `worktree` command begins with.
pub open spec fn worktree_start(command: WorktreeCommand) -> Next {
    asks(
        ClientMessage::Query(QueryKind::Layout),
        match command {
            WorktreeCommand::Add { branch, from, base, path, workspace } => Then::AddWorktree {
                branch,
                from: if base is Some {
                    base
                } else {
                    from
                },
                path,
                workspace,
            },
            WorktreeCommand::Open { path, workspace } => Then::OpenWorktree { path, workspace },
            WorktreeCommand::Remove { target, keep } => Then::RemoveWorktree { target, keep },
            WorktreeCommand::List { json } => Then::Show { view: LayoutView::Worktrees, json },
        },
    )
}

pub fn worktree(command: WorktreeCommand) -> (r: Next)
    ensures
        r == worktree_start(command),
{
    ask_layout(
        match command {
            WorktreeCommand::Add { branch, from, base, path, workspace } => Then::AddWorktree {
                branch,
                from: if base.is_some() {
                    base
                } else {
                    from
                },
                path,
                workspace,
            },
            WorktreeCommand::Open { path, workspace } => Then::OpenWorktree { path, workspace },
            WorktreeCommand::Remove { target, keep } => Then::RemoveWorktree { target, keep },
            WorktreeCommand::List { json } => Then::Show { view: LayoutView::Worktrees, json },
        },
    )
}

/// The native conversation that a report names, if it names one.
pub open spec fn native_of(
    source: String,
    agent: Option<String>,
    id: Option<String>,
    path: Option<String>,
) -> Option<NativeSession> {
    match agent {
        Some(agent) if id is Some || path is Some => Some(
            NativeSession { source, agent, id, path },
        ),
        _ => None,
    }
}

/// What an `agent` command begins with.
pub open spec fn agent_start(command: AgentCommand) -> Next {
    match command {
        AgentCommand::Guide => Next::Guide,
        AgentCommand::Ls { json } => asks(
            ClientMessage::Query(QueryKind::Layout),
            Then::Show { view: LayoutView::Agents, json },
        ),
        AgentCommand::Start { workspace, tab, name, json, command } => opening(
            workspace,
            tab,
            Some(command),
            name,
            Some(json),
        ),
        AgentCommand::Read { target, lines, scrollback, json } => Next::Target {
            target,
            work: TargetWork::Read { lines, scrollback, json },
        },
        AgentCommand::SendKeys { target, literal, keys } => Next::Target {
            target,
            work: TargetWork::SendKeys { literal, keys },
        },
        AgentCommand::Prompt { target, text, wait, until, timeout, json } => Next::Target {
            target,
            work: TargetWork::Prompt { text, wait, until, timeout, json },
        },
        AgentCommand::Focus { target, json } => Next::Target {
            target,
            work: TargetWork::Focus { json },
        },
        AgentCommand::Attach { target } => Next::Target { target, work: TargetWork::Attach },
        AgentCommand::Rename { target, name } => Next::Target {
            target,
            work: TargetWork::Rename { name },
        },
        AgentCommand::Explain { target, json } => Next::Target {
            target,
            work: TargetWork::Explain { json },
        },
        AgentCommand::UpdateManifests => Next::UpdateManifests,
        AgentCommand::Manifests { reload, json } => asks(
            if reload {
                ClientMessage::ReloadManifests
            } else {
                ClientMessage::Query(QueryKind::Manifests)
            },
            Then::Manifests { json },
        ),
        AgentCommand::ValidateManifest { path } => Next::ValidateManifest { path },
        AgentCommand::Wait { target, state, timeout } => Next::Target {
            target,
            work: TargetWork::Wait { state, timeout },
        },
        AgentCommand::Report {
            pane,
            state,
            source,
            native_agent,
            native_session_id,
            native_session_path,
            hook_json,
        } => asks(
            ClientMessage::AgentState {
                pane,
                state,
                source,
                native_session: native_of(
                    source,
                    native_agent,
                    native_session_id,
                    native_session_path,
                ),
            },
            Then::Accept,
        ),
    }
}

pub fn agent(command: AgentCommand) -> (r: Next)
    ensures
        r == agent_start(command),
{
    match command {
        AgentCommand::Guide => Next::Guide,
        AgentCommand::Ls { json } => ask_layout(Then::Show { view: LayoutView::Agents, json }),
        AgentCommand::Start { workspace, tab, name, json, command } => begin_pane(
            workspace,
            tab,
            Some(command),
            name,
            Some(json),
        ),
        AgentCommand::Read { target, lines, scrollback, json } => Next::Target {
            target,
            work: TargetWork::Read { lines, scrollback, json },
        },
        AgentCommand::SendKeys { target, literal, keys } => Next::Target {
            target,
            work: TargetWork::SendKeys { literal, keys },
        },
        AgentCommand::Prompt { target, text, wait, until, timeout, json } => Next::Target {
            target,
            work: TargetWork::Prompt { text, wait, until, timeout, json },
        },
        AgentCommand::Focus { target, json } => Next::Target {
            target,
            work: TargetWork::Focus { json },
        },
        AgentCommand::Attach { target } => Next::Target { target, work: TargetWork::Attach },
        AgentCommand::Rename { target, name } => Next::Target {
            target,
            work: TargetWork::Rename { name },
        },
        AgentCommand::Explain { target, json } => Next::Target {
            target,
            work: TargetWork::Explain { json },
        },
        AgentCommand::UpdateManifests => Next::UpdateManifests,
        AgentCommand::Manifests { reload, json } => ask(
            if reload {
                ClientMessage::ReloadManifests
            } else {
                ClientMessage::Query(QueryKind::Manifests)
            },
            Then::Manifests { json },
        ),
        AgentCommand::ValidateManifest { path } => Next::ValidateManifest { path },
        AgentCommand::Wait { target, state, timeout } => Next::Target {
            target,
            work: TargetWork::Wait { state, timeout },
        },
        AgentCommand::Report {
            pane,
            state,
            source,
            native_agent,
            native_session_id,
            native_session_path,
            hook_json,
        } => {
            let native_session = match native_agent {
                Some(agent) => if native_session_id.is_some() || native_session_path.is_some() {
                    Some(
                        NativeSession {
                            source: source.clone(),
                            agent,
                            id: native_session_id,
                            path: native_session_path,
                        },
                    )
                } else {
                    None
                },
                None => None,
            };
            ask(
                ClientMessage::AgentState { pane, state, source, native_session },
                Then::Accept,
            )
        },
    }
}

/// What is done with an agent's pane, except for keys and prompts.
pub open spec fn work_start(work: TargetWork, pane: PaneSnapshot) -> Next {
    match work {
        TargetWork::Read { lines, scrollback, json } => asks(
            ClientMessage::ReadPane { id: pane.id, scrollback, lines },
            Then::ReadText { pane, json },
        ),
        TargetWork::Focus { json } => asks(
            ClientMessage::FocusPaneId { id: pane.id },
            Then::FocusedPane { pane, json },
        ),
        TargetWork::Attach => asks(ClientMessage::FocusPaneId { id: pane.id }, Then::Attach),
        TargetWork::Rename { name } => asks(
            ClientMessage::RenamePaneId { id: pane.id, name },
            Then::Accept,
        ),
        TargetWork::Explain { json } => Next::Show {
            document: Document::Explanation(pane),
            json,
        },
        TargetWork::Wait { state, timeout } => Next::WaitState { pane: pane.id, state, timeout },
        _ => Next::Nothing,
    }
}

/// What is done with an agent once its pane is found. A target that is no
/// recognized agent is refused before anything is sent to it.
pub fn with_agent(work: TargetWork, pane: PaneSnapshot, target: &str) -> (r: Result<Next, String>)
    ensures
        pane.agent is None ==> text::fault(r) == Some(
            "target '"@ + target@ + "' is not a recognized agent pane"@,
        ),
        pane.agent is Some ==> (match work {
            TargetWork::SendKeys { literal, keys } => match typed(keys@, literal) {
                Ok(bytes) => sends(r, pane.id, bytes),
                Err(fault) => text::fault(r) == Some(fault),
            },
            TargetWork::Prompt { text, wait, until, timeout, json } =>
                match automation::prompt_fault(pane, target@, text@) {
                Some(fault) => text::fault(r) == Some(fault),
                None => {
                    &&& r matches Ok(
                        Next::Ask {
                            request: Request::Message(message),
                            then,
                        },
                    )
                    &&& automation::submits(message, pane, text@)
                    &&& then == (Then::Prompted {
                        pane,
                        waits: wait || until is Some,
                        until,
                        json,
                    })
                },
            },
            _ => r == Ok::<Next, String>(work_start(work, pane)),
        }),
{
    let pane = match automation::recognized(pane, target) {
        Ok(pane) => pane,
        Err(message) => return Err(message),
    };
    match work {
        TargetWork::Read { lines, scrollback, json } => {
            let id = pane.id;
            Ok(
                ask(
                    ClientMessage::ReadPane { id, scrollback, lines },
                    Then::ReadText { pane, json },
                ),
            )
        },
        TargetWork::SendKeys { literal, keys } => type_keys(pane.id, &keys, literal),
        TargetWork::Prompt { text, wait, until, timeout, json } => match automation::submission(
            &pane,
            target,
            text.as_str(),
        ) {
            Ok(message) => {
                let waits = automation::waits(wait, until);
                Ok(ask(message, Then::Prompted { pane, waits, until, json }))
            },
            Err(message) => Err(message),
        },
        TargetWork::Focus { json } => {
            let id = pane.id;
            Ok(ask(ClientMessage::FocusPaneId { id }, Then::FocusedPane { pane, json }))
        },
        TargetWork::Attach => Ok(
            ask(ClientMessage::FocusPaneId { id: pane.id }, Then::Attach),
        ),
        TargetWork::Rename { name } => Ok(
            ask(ClientMessage::RenamePaneId { id: pane.id, name }, Then::Accept),
        ),
        TargetWork::Explain { json } => Ok(
            Next::Show { document: Document::Explanation(pane), json },
        ),
        TargetWork::Wait { state, timeout } => Ok(
            Next::WaitState { pane: pane.id, state, timeout },
        ),
    }
}

/// Checks what is asked of an agent before it is looked up.
pub fn check_work(work: &TargetWork) -> (r: Result<(), String>)
    ensures
        text::fault(r) == (match *work {
            TargetWork::Prompt { wait: false, until: None, timeout: Some(_), .. } => Some(
                "--timeout requires --wait or --until"@,
            ),
            _ => None,
        }),
{
    match work {
        TargetWork::Prompt { wait, until, timeout, .. } => automation::check_prompt(
            *wait,
            *until,
            *timeout,
        ),
        _ => Ok(()),
    }
}

/// The bytes of `send`: the text, and Enter unless it is left out.
pub open spec fn sent_bytes(input: Seq<char>, no_newline: bool) -> Seq<u8> {
    vstd::utf8::encode_utf8(
        if no_newline {
            input
        } else {
            input + "\r"@
        },
    )
}

pub fn send(pane: PaneId, input: &str, no_newline: bool) -> (r: Result<Next, String>)
    ensures
        sends(r, pane, sent_bytes(input@, no_newline)),
{
    let bytes = if no_newline {
        input.as_bytes_vec()
    } else {
        text::cat(input, "\r").as_str().as_bytes_vec()
    };
    Ok(ask(ClientMessage::SendToPane { id: pane, bytes }, Then::Accept))
}

/// Creates a workspace, or selects it where the name exists.
pub fn new_workspace(name: String, path: Option<String>) -> (r: Next)
    ensures
        r matches Next::Ask {
            request: Request::Message(ClientMessage::Query(QueryKind::Layout)),
            then: Then::NewWorkspace { name: given, root, env },
        } && given == name && root == path && env@.len() == 0,
{
    ask_layout(Then::NewWorkspace { name, root: path, env: Vec::new() })
}

/// Runs a command in a new pane.
pub fn run(
    workspace: Option<String>,
    tab: Option<String>,
    name: Option<String>,
    command: Vec<String>,
) -> (r: Next)
    ensures
        r == opening(workspace, tab, Some(command), name, None),
{
    begin_pane(workspace, tab, Some(command), name, None)
}

pub fn new_tab(workspace: Option<String>, name: Option<String>) -> (r: Next)
    ensures
        r == opening(workspace, None, None, name, None),
{
    begin_pane(workspace, None, None, name, None)
}

/// Splits the focused pane, or the one that is given.
pub fn split(down: bool, pane: Option<PaneId>, command: Vec<String>) -> (r: Next)
    ensures
        ({
            let message = ClientMessage::NewPane {
                workspace: None,
                tab: None,
                split: Some(
                    if down {
                        SplitAxis::Vertical
                    } else {
                        SplitAxis::Horizontal
                    },
                ),
                command: if command@.len() == 0 {
                    None
                } else {
                    Some(command)
                },
                name: None,
                context: None,
            };
            r == (match pane {
                Some(id) => asks(
                    ClientMessage::FocusPaneId { id },
                    Then::AnyThenFocused(message),
                ),
                None => asks(message, Then::Focused),
            })
        }),
{
    let message = ClientMessage::NewPane {
        workspace: None,
        tab: None,
        split: Some(
            if down {
                SplitAxis::Vertical
            } else {
                SplitAxis::Horizontal
            },
        ),
        command: if command.len() == 0 {
            None
        } else {
            Some(command)
        },
        name: None,
        context: None,
    };
    match pane {
        Some(id) => ask(ClientMessage::FocusPaneId { id }, Then::AnyThenFocused(message)),
        None => ask(message, Then::Focused),
    }
}

pub fn list(json: bool) -> (r: Next)
    ensures
        r == asks(
            ClientMessage::Query(QueryKind::Layout),
            Then::Show { view: LayoutView::All, json },
        ),
{
    ask_layout(Then::Show { view: LayoutView::All, json })
}

pub fn kill_session() -> (r: Next)
    ensures
        r == asks(ClientMessage::KillSession, Then::Stopped),
{
    ask(ClientMessage::KillSession, Then::Stopped)
}

/// What a `session` command does on this host.
#[derive(Debug, Clone, PartialEq, Eq)]
pub enum SessionStep {
    /// Run the command on the remote host instead.
    Remote,
    /// Print the socket path.
    PrintSocket,
    /// Probe every socket.
    List { json: bool },
    /// Ask the session of that name, or this one.
    Ask { session: Option<String>, next: Next },
}

pub open spec fn session_start(remote: bool, command: SessionCommand) -> SessionStep {
    if remote {
        SessionStep::Remote
    } else {
        match command {
            SessionCommand::Path => SessionStep::PrintSocket,
            SessionCommand::Ls { json } => SessionStep::List { json },
            SessionCommand::Kill { name } => SessionStep::Ask {
                session: name,
                next: asks(ClientMessage::KillSession, Then::Stopped),
            },
            SessionCommand::Rename { name } => SessionStep::Ask {
                session: None,
                next: asks(ClientMessage::RenameSession { name }, Then::Accept),
            },
        }
    }
}

pub fn session_command(remote: bool, command: SessionCommand) -> (r: SessionStep)
    ensures
        r == session_start(remote, command),
{
    if remote {
        return SessionStep::Remote;
    }
    match command {
        SessionCommand::Path => SessionStep::PrintSocket,
        SessionCommand::Ls { json } => SessionStep::List { json },
        SessionCommand::Kill { name } => SessionStep::Ask { session: name, next: kill_session() },
        SessionCommand::Rename { name } => SessionStep::Ask {
            session: None,
            next: ask(ClientMessage::RenameSession { name }, Then::Accept),
        },
    }
}

/// What a `layout` command begins with.
pub fn layout_command(command: LayoutCommand) -> (r: Next)
    ensures
        r == (match command {
            LayoutCommand::Export { file } => asks(
                ClientMessage::Query(QueryKind::Session),
                Then::Export { file },
            ),
            LayoutCommand::Apply { file } => Next::Apply { file },
        }),
{
    match command {
        LayoutCommand::Export { file } => ask(
            ClientMessage::Query(QueryKind::Session),
            Then::Export { file },
        ),
        LayoutCommand::Apply { file } => Next::Apply { file },
    }
}

/// Rebuilds the session from a layout that was read.
pub fn apply(layout: crate::session_file::SessionFile) -> (r: Next)
    ensures
        r == asks(ClientMessage::ApplyLayout(layout), Then::Accept),
{
    ask(ClientMessage::ApplyLayout(layout), Then::Accept)
}

// ----------------------------------------------------------------- the target `current`

/// Why `current` cannot be used, and otherwise the pane that it means. It is only
/// meaningful inside a pane of this very session on this host.
pub open spec fn current_pane(
    socket: Seq<char>,
    session: Seq<char>,
    remote: bool,
    inherited_session: Option<Seq<char>>,
    inherited_socket: Seq<char>,
    inherited_pane: Option<Seq<char>>,
) -> Result<Seq<char>, Seq<char>> {
    let outside = "`current` requires KODADE_PANE inside a Ködade pane"@;
    if remote {
        Err("`current` cannot be used with --remote; pass an explicit pane target"@)
    } else {
        match inherited_session {
            None => Err(outside),
            Some(inherited) => if inherited != session {
                Err(
                    "`current` belongs to session '"@ + inherited + "', not '"@ + session + "'"@,
                )
            } else if !text::one_path(inherited_socket, socket) {
                Err("`current` cannot target a different socket; pass an explicit pane target"@)
            } else {
                match inherited_pane {
                    None => Err(outside),
                    Some(pane) => if text::parse_unsigned(pane) is None {
                        Err("KODADE_PANE is not a valid pane id"@)
                    } else {
                        Ok(pane)
                    },
                }
            },
        }
    }
}

/// Resolves the target `current`; every other target stands for itself.
/// `inherited_socket` is the socket of the inherited session.
pub fn contextual_agent_target(
    target: &str,
    socket: &str,
    session: &str,
    remote: bool,
    inherited_session: &Option<String>,
    inherited_socket: &str,
    inherited_pane: &Option<String>,
) -> (r: Result<String, String>)
    ensures
        target@ != "current"@ ==> (r matches Ok(given) && given@ == target@),
        target@ == "current"@ ==> crate::plugins::text_result(r) == current_pane(
            socket@,
            session@,
            remote,
            text::option_text(*inherited_session),
            inherited_socket@,
            text::option_text(*inherited_pane),
        ),
{
    if !text::same(target, "current") {
        return Ok(target.to_owned());
    }
    if remote {
        return Err(
            "`current` cannot be used with --remote; pass an explicit pane target".to_owned(),
        );
    }
    let inherited = match inherited_session {
        Some(name) => name,
        None => return Err("`current` requires KODADE_PANE inside a Ködade pane".to_owned()),
    };
    if !text::same(inherited.as_str(), session) {
        let mut message = text::cat3(
            "`current` belongs to session '",
            inherited.as_str(),
            "', not '",
        );
        message.append(session);
        message.append("'");
        return Err(message);
    }
    if !text::same_path(inherited_socket, socket) {
        return Err(
            "`current` cannot target a different socket; pass an explicit pane target".to_owned(),
        );
    }
    match inherited_pane {
        None => Err("`current` requires KODADE_PANE inside a Ködade pane".to_owned()),
        Some(pane) => if text::parse_u64(pane.as_str()).is_none() {
            Err("KODADE_PANE is not a valid pane id".to_owned())
        } else {
            Ok(pane.clone())
        },
    }
}

// --------------------------------------------------------------------------- documents

pub open spec fn manifest_line(m: ManifestInfo) -> Seq<char> {
    text::padded_to(m.name@, 16) + " "@ + text::padded_to(m.display@, 16) + " "@ + text::padded_to(
        m.source@,
        13,
    ) + " "@ + text::decimal(m.rules as nat) + " rules"@
}

fn manifest_text(m: &ManifestInfo) -> (r: String)
    ensures
        r@ == manifest_line(*m),
{
    let name = text::padded(m.name.as_str(), 16);
    let display = text::padded(m.display.as_str(), 16);
    let source = text::padded(m.source.as_str(), 13);
    let rules = text::decimal_text(m.rules as u64);
    let mut line = text::cat3(name.as_str(), " ", display.as_str());
    line.append(" ");
    line.append(source.as_str());
    line.append(" ");
    line.append(rules.as_str());
    line.append(" rules");
    line
}

fn manifest_lines(list: &Vec<ManifestInfo>) -> (r: String)
    ensures
        r@ == text::joined(list@.map_values(|m: ManifestInfo| manifest_line(m)), "\n"@),
{
    let mut lines: Vec<String> = Vec::new();
    let ghost all = list@.map_values(|m: ManifestInfo| manifest_line(m));
    let mut i: usize = 0;
    assert(text::texts(lines@) =~= all.take(0));
    while i < list.len()
        invariant
            i <= list@.len(),
            all == list@.map_values(|m: ManifestInfo| manifest_line(m)),
            text::texts(lines@) == all.take(i as int),
        decreases list@.len() - i,
    {
        let ghost before = text::texts(lines@);
        lines.push(manifest_text(&list[i]));
        assert(text::texts(lines@) =~= before.push(all[i as int]));
        assert(text::texts(lines@) =~= all.take(i + 1));
        i += 1;
    }
    assert(all.take(i as int) =~= all);
    text::join(&lines, "\n")
}

/// A document as plain text.
pub open spec fn plain(document: Document) -> Seq<char> {
    match document {
        Document::Layout(layout, view) => match view {
            LayoutView::All => text::joined(
                commands::ls_lines(layout, layout.workspaces@.len() as int),
                "\n"@,
            ) + (if layout.restored {
                "\n(restored)"@
            } else {
                ""@
            }),
            LayoutView::Panes => text::joined(
                commands::panes_by_id(layout.panes@, false).map_values(
                    |p: PaneSnapshot| commands::pane_line(p),
                ),
                "\n"@,
            ),
            LayoutView::Tabs => text::joined(
                layout.tabs@.map_values(|t: crate::proto::TabInfo| commands::tab_line(t)),
                "\n"@,
            ),
            LayoutView::Workspaces => text::joined(
                layout.workspaces@.map_values(
                    |w: crate::proto::WorkspaceInfo| commands::workspace_line(w),
                ),
                "\n"@,
            ),
            LayoutView::Agents => text::joined(
                commands::panes_by_id(layout.panes@, true).map_values(
                    |p: PaneSnapshot| commands::agent_line(p),
                ),
                "\n"@,
            ),
            LayoutView::Worktrees => text::joined(
                commands::branch_workspaces(layout.workspaces@).map_values(
                    |w: crate::proto::WorkspaceInfo|
                        commands::worktree_line(layout.workspaces@, w),
                ),
                "\n"@,
            ),
        },
        Document::Pane(pane) => text::decimal(pane.id.0 as nat),
        Document::Explanation(pane) => layout::state_text(pane.state) + "  "@ + pane.state_reason@
            + "\nagent: "@ + (match pane.agent {
            Some(agent) => agent@,
            None => "none"@,
        }) + "\nmatched window (bottom 8 lines):\n"@ + commands::last_lines(
            pane.screen.contents@,
            commands::EXPLAIN_LINES as int,
        ),
        Document::Reading(_, text) => text@,
        Document::Manifests(list) => text::joined(
            list@.map_values(|m: ManifestInfo| manifest_line(m)),
            "\n"@,
        ),
        Document::Number(id) => text::decimal(id as nat),
        Document::Text(text) => text@,
    }
}

/// Writes a document as plain text.
pub fn document_text(document: &Document) -> (r: String)
    ensures
        r@ == plain(*document),
{
    match document {
        Document::Layout(layout, view) => match view {
            LayoutView::All => {
                let mut out = commands::format_ls(layout);
                out.append(
                    if layout.restored {
                        "\n(restored)"
                    } else {
                        ""
                    },
                );
                out
            },
            LayoutView::Panes => commands::format_panes(layout),
            LayoutView::Tabs => commands::format_tabs(layout.tabs.as_slice()),
            LayoutView::Workspaces => commands::format_workspaces(layout.workspaces.as_slice()),
            LayoutView::Agents => commands::format_agents(layout),
            LayoutView::Worktrees => commands::format_worktrees(layout),
        },
        Document::Pane(pane) => text::decimal_text(pane.id.0),
        Document::Explanation(pane) => commands::format_explain(pane),
        Document::Reading(_, text) => text.clone(),
        Document::Manifests(list) => manifest_lines(list),
        Document::Number(id) => text::decimal_text(*id),
        Document::Text(text) => text.clone(),
    }
}

// --------------------------------------------------------------------------- handshake

/// What a client makes of the first messages of a daemon.
#[derive(Debug, Clone, PartialEq, Eq)]
pub enum Handshake {
    /// The daemon speaks this protocol; the session has this name.
    Ready(String),
    /// Wait for the next message.
    Ignore,
}

/// Checks an opening message. A daemon of another protocol version is refused
/// before the terminal is touched.
pub fn handshake(message: ServerMessage) -> (r: Result<Handshake, String>)
    ensures
        match message {
            ServerMessage::Welcome { session, version } => if version == PROTOCOL_VERSION {
                r == Ok::<Handshake, String>(Handshake::Ready(session))
            } else {
                text::fault(r) == Some(
                    "protocol version mismatch: client 1, daemon "@ + text::decimal(version as nat)
                        + " — upgrade kodade-cli on both ends"@,
                )
            },
            ServerMessage::Error { message: said } => text::fault(r) == Some(said@),
            _ => r == Ok::<Handshake, String>(Handshake::Ignore),
        },
{
    match message {
        ServerMessage::Welcome { session, version } => {
            if version != PROTOCOL_VERSION {
                let number = text::decimal_text(version as u64);
                return Err(
                    text::cat3(
                        "protocol version mismatch: client 1, daemon ",
                        number.as_str(),
                        " — upgrade kodade-cli on both ends",
                    ),
                );
            }
            Ok(Handshake::Ready(session))
        },
        ServerMessage::Error { message: said } => Err(said),
        _ => Ok(Handshake::Ignore),
    }
}

// ----------------------------------------------------------------------- configuration

/// What a `config` command prints, and whether it fails.
#[derive(Debug, Clone, PartialEq, Eq)]
pub struct ConfigReport {
    pub lines: Vec<String>,
    pub failed: bool,
}

/// The configuration as it was read.
#[derive(Debug, PartialEq, Eq)]
pub enum ConfigState {
    /// There is no file; the defaults apply.
    Missing,
    /// The file was read, with warnings about some of its values.
    Read(Vec<String>),
    Broken(String),
}

/// Checks a configuration file: a missing one is fine, warnings and errors are
/// not.
pub fn validate_config(path: &str, state: &ConfigState) -> (r: ConfigReport)
    ensures
        match *state {
            ConfigState::Missing => !r.failed && text::texts(r.lines@) == seq![
                path@ + ": not found (defaults in use)"@,
            ],
            ConfigState::Read(warnings) => if warnings@.len() == 0 {
                !r.failed && text::texts(r.lines@) == seq![path@ + ": ok"@]
            } else {
                r.failed && text::texts(r.lines@) == Seq::new(
                    warnings@.len(),
                    |i: int| path@ + ": "@ + warnings@[i]@,
                )
            },
            ConfigState::Broken(error) => r.failed && text::texts(r.lines@) == seq![error@],
        },
{
    match state {
        ConfigState::Missing => {
            let lines: Vec<String> = vec![text::cat(path, ": not found (defaults in use)")];
            assert(text::texts(lines@) =~= seq![path@ + ": not found (defaults in use)"@]);
            ConfigReport { lines, failed: false }
        },
        ConfigState::Read(warnings) => {
            if warnings.len() == 0 {
                let lines: Vec<String> = vec![text::cat(path, ": ok")];
                assert(text::texts(lines@) =~= seq![path@ + ": ok"@]);
                return ConfigReport { lines, failed: false };
            }
            let ghost all = Seq::new(
                warnings@.len(),
                |i: int| path@ + ": "@ + warnings@[i]@,
            );
            let mut lines: Vec<String> = Vec::new();
            let mut i: usize = 0;
            assert(text::texts(lines@) =~= all.take(0));
            while i < warnings.len()
                invariant
                    i <= warnings@.len(),
                    all == Seq::new(
                        warnings@.len(),
                        |i: int| path@ + ": "@ + warnings@[i]@,
                    ),
                    text::texts(lines@) == all.take(i as int),
                decreases warnings@.len() - i,
            {
                let ghost before = text::texts(lines@);
                lines.push(text::cat3(path, ": ", warnings[i].as_str()));
                assert(text::texts(lines@) =~= before.push(all[i as int]));
                assert(text::texts(lines@) =~= all.take(i + 1));
                i += 1;
            }
            assert(all.take(i as int) =~= all);
            ConfigReport { lines, failed: true }
        },
        ConfigState::Broken(error) => {
            let lines: Vec<String> = vec![error.clone()];
            assert(text::texts(lines@) =~= seq![error@]);
            ConfigReport { lines, failed: true }
        },
    }
}

} // verus!
