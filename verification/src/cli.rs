//! Command-line surface: what a command line asks for, and the values its
//! arguments must have.

use vstd::prelude::*;

use crate::commands;
use crate::proto::{AgentStateKind, Direction, PaneId};
use crate::text;

verus! {

/// Session used when none is named.
pub const DEFAULT_SESSION: &'static str = "default";

/// Shells that completion scripts are written for.
#[derive(Debug, Clone, Copy, PartialEq, Eq, Structural)]
pub enum Shell {
    Bash,
    Elvish,
    Fish,
    PowerShell,
    Zsh,
}

/// A parsed command line.


#[derive(Debug, Clone, PartialEq, Eq)]
pub struct Cli {
    /// Session to attach to or query.
    pub session: String,

    /// Attach to or query a daemon on `USER@HOST` over an SSH-forwarded socket
    /// instead of the local one. Requires `kodade-cli` on the remote host.
    pub remote: Option<String>,

    /// Use this daemon socket directly (overrides inherited pane context).
    pub socket: Option<String>,
    pub command: Option<Command>,
}

#[derive(Debug, Clone, PartialEq, Eq)]
pub enum Command {
    /// Check the selected release channel or install a verified standalone update.
    Update {
        check: bool,
        channel: Option<String>,
        /// Print the persisted update channel and exit.
        show_channel: bool,
        install_to: Option<String>,
    },
    /// Manage local, versioned command extensions.
    Plugin {
        command: PluginCommand,
    },
    /// Run the session daemon (started automatically when attaching).
    Daemon {
        /// Session name; defaults to the global --session value.
        session: Option<String>,
    },
    /// Diagnose configuration, tools, and daemon health without starting a session.
    Doctor {
        json: bool,
    },
    /// List workspaces, tabs, panes, and their states.
    Ls {
        /// Print the layout snapshot as JSON.
        json: bool,
    },
    /// Inspect and control agent panes.
    Agent {
        command: AgentCommand,
    },
    /// Send text to a pane, followed by a newline.
    Send {
        pane: PaneId,
        text: String,
        /// Send the text without a trailing newline.
        no_newline: bool,
    },
    /// Create a workspace with an optional root directory; prints its id.
    New {
        /// Workspace name. Selects the workspace if one already has this name.
        workspace: String,
        /// Root directory new panes in the workspace start in.
        path: Option<String>,
    },
    /// Run a command in a new pane through the login shell; prints the pane id.
    Run {
        /// Workspace name or id to run in (defaults to the active workspace).
        workspace: Option<String>,
        /// Tab name or id to run in (defaults to a new tab).
        tab: Option<String>,
        /// Pane title (defaults to the command's basename).
        name: Option<String>,
        /// The command and its arguments, after `--`.
        command: Vec<String>,
    },
    /// Split the focused (or given) pane into a new pane; prints the pane id.
    Split {
        /// Split downward instead of to the right.
        down: bool,
        /// Pane to split (defaults to the focused pane).
        pane: Option<PaneId>,
        /// Optional command to run in the new pane, after `--`.
        command: Vec<String>,
    },
    /// Open a new tab in a workspace; prints the new pane id.
    NewTab {
        /// Workspace name or id (defaults to the active workspace).
        workspace: Option<String>,
        /// Pane title for the new tab.
        name: Option<String>,
    },
    /// Manage git-worktree workspaces.
    Worktree {
        command: WorktreeCommand,
    },
    /// Stop the session and its daemon.
    KillSession,
    /// Inspect the configuration file.
    Config {
        command: ConfigCommand,
    },
    /// Print the key bindings, generated from the current config.
    Keys {
        /// Print the bindings as JSON instead of aligned text.
        json: bool,
    },
    /// Print or install agent CLI integrations.
    Integrate {
        target: IntegrateCommand,
    },
    /// Inspect and control panes.
    Pane {
        command: PaneCommand,
    },
    /// Inspect and control tabs (TAB is a name or an id).
    Tab {
        command: TabCommand,
    },
    /// Inspect and control workspaces (WS is a name or an id).
    Workspace {
        command: WorkspaceCommand,
    },
    /// Inspect and control sessions.
    Session {
        command: SessionCommand,
    },
    /// Manage saved SSH machine profiles stored on this client.
    Machine {
        command: MachineCommand,
    },
    /// Export or apply a session layout (the persistence JSON).
    Layout {
        command: LayoutCommand,
    },
    /// Stream session events until interrupted.
    Events {
        /// Print each event as a JSON object instead of a text line.
        json: bool,
    },
    /// Print a shell completion script.
    Completion {
        shell: Shell,
    },
}

#[derive(Debug, Clone, PartialEq, Eq)]
pub enum PaneCommand {
    /// Paste a PNG path without submitting. With no PATH, use the host clipboard.
    PasteImage {
        pane: PaneId,
        path: Option<String>,
    },
    /// Print a pane's text. Defaults to the visible screen; `--scrollback`
    /// includes the full history and `--lines N` keeps only the last N lines.
    Read {
        pane: PaneId,
        /// Keep only the last N lines.
        lines: Option<usize>,
        /// Include the full scrollback, not just the visible screen.
        scrollback: bool,
    },
    /// List the panes of the active tab.
    Ls {
        /// Print the pane snapshots as JSON.
        json: bool,
    },
    /// Send key names (`Enter`, `C-c`, `M-x`, `F5`) or literal text to a pane.
    ///
    /// A capitalized word that is not a known key name is an error; pass
    /// `--literal` to send such text verbatim.
    SendKeys {
        pane: PaneId,
        /// Send every argument as text, joined by spaces (no key names).
        literal: bool,
        keys: Vec<String>,
    },
    /// Close a pane.
    Kill {
        pane: PaneId,
    },
    /// Focus a pane, activating its tab and workspace.
    Focus {
        pane: PaneId,
    },
    /// Toggle zoom on a pane's tab, with that pane focused.
    Zoom {
        pane: PaneId,
    },
    /// Swap a pane with its neighbour in a direction.
    Swap {
        pane: PaneId,
        direction: DirectionArg,
    },
    /// Move a pane into another tab.
    Move {
        pane: PaneId,
        /// Destination tab name or id.
        tab: String,
    },
    /// Resize a pane by N cells in a direction.
    Resize {
        pane: PaneId,
        direction: DirectionArg,
        cells: i16,
    },
    /// Wait until a pane's visible screen contains TEXT.
    ///
    /// The match is a plain substring unless `--regex` is set.
    WaitOutput {
        pane: PaneId,
        text: String,
        /// Match TEXT as a regular expression instead of a literal substring.
        regex: bool,
        /// Search the full scrollback instead of only the visible screen.
        scrollback: bool,
        /// Give up after S seconds and exit 2.
        timeout: Option<u64>,
    },
}

#[derive(Debug, Clone, PartialEq, Eq)]
pub enum TabCommand {
    /// List the tabs of the active workspace.
    Ls {
        json: bool,
    },
    /// Open a new tab; prints its pane id.
    New {
        /// Workspace name or id (defaults to the active workspace).
        workspace: Option<String>,
        /// Pane title for the new tab.
        name: Option<String>,
    },
    /// Close a tab and its panes.
    Close {
        tab: String,
    },
    /// Rename a tab.
    Rename {
        tab: String,
        name: String,
    },
    /// Activate a tab.
    Select {
        tab: String,
    },
}

#[derive(Debug, Clone, PartialEq, Eq)]
pub enum WorkspaceCommand {
    /// List workspaces.
    Ls {
        json: bool,
    },
    /// Create a workspace with an optional root directory; prints its id.
    New {
        name: String,
        path: Option<String>,
        /// Environment inherited by panes created in this workspace (KEY=VALUE).
        env: Vec<(String, String)>,
    },
    /// Close a workspace and its tabs.
    Close {
        workspace: String,
    },
    /// Rename a workspace.
    Rename {
        workspace: String,
        name: String,
    },
    /// Activate a workspace.
    Select {
        workspace: String,
    },
    /// Set a workspace's sidebar color, or `off` to clear it.
    Color {
        workspace: String,
        /// A `#rrggbb` hex color, or `off`.
        color: String,
    },
}

#[derive(Debug, Clone, PartialEq, Eq)]
pub enum SessionCommand {
    /// Print the daemon socket path for the session. `--remote` prints the
    /// remote host's path (used to set up the forwarded socket).
    Path,
    /// List every session socket in the runtime directory and probe it.
    Ls {
        json: bool,
    },
    /// Stop a session (defaults to the current one).
    Kill {
        name: Option<String>,
    },
    /// Rename the current session; its socket and state file move with it.
    Rename {
        name: String,
    },
}

#[derive(Debug, Clone, PartialEq, Eq)]
pub enum MachineCommand {
    List {
        json: bool,
    },
    Add {
        target: String,
        label: String,
        session: Option<String>,
        /// Download and install a verified standalone binary when the host needs one.
        install: bool,
    },
    /// Check a saved host and optionally install a verified standalone binary.
    Prepare {
        id: String,
        install: bool,
    },
    Rename {
        id: String,
        label: String,
    },
    Enable {
        id: String,
    },
    Disable {
        id: String,
    },
    Remove {
        id: String,
    },
}

#[derive(Debug, Clone, PartialEq, Eq)]
pub enum LayoutCommand {
    /// Write the session layout as JSON to FILE (default: stdout).
    Export {
        file: Option<String>,
    },
    /// Rebuild the session layout from a file written by `layout export`.
    Apply {
        file: String,
    },
}

/// Direction words accepted by `pane swap` / `pane resize`.

#[derive(Debug, Clone, Copy, PartialEq, Eq, Structural)]
pub enum DirectionArg {
    Up,
    Down,
    Left,
    Right,
}

#[derive(Debug, Clone, PartialEq, Eq)]
pub enum AgentCommand {
    /// Print the versioned local automation guide without connecting to a session.
    Guide,
    /// List recognized agents and their states.
    Ls {
        /// Print the matching pane snapshots as JSON.
        json: bool,
    },
    /// Start a command in a new pane. Never types into an existing shell.
    Start {
        /// Workspace name or id (defaults to the active workspace).
        workspace: Option<String>,
        /// Open in this tab (or a new tab when omitted).
        tab: Option<String>,
        /// Pane title (defaults to the command's basename).
        name: Option<String>,
        /// Print the new pane snapshot as JSON.
        json: bool,
        /// Command and arguments, after `--`.
        command: Vec<String>,
    },
    /// Read an agent pane by numeric id, unique agent name, pane title, or `current`.
    Read {
        target: String,
        lines: Option<usize>,
        scrollback: bool,
        json: bool,
    },
    /// Send terminal key names or literal text to an agent target.
    SendKeys {
        target: String,
        literal: bool,
        keys: Vec<String>,
    },
    /// Submit a sanitized, bracketed prompt to an unblocked recognized agent.
    Prompt {
        target: String,
        text: String,
        /// Wait for fresh output or a working state, then a settled state.
        wait: bool,
        /// Wait for fresh activity, then this exact state.
        until: Option<AgentStateKind>,
        /// Give up after S seconds and exit 2 (only valid with --wait/--until).
        timeout: Option<u64>,
        /// Print the final pane snapshot as JSON.
        json: bool,
    },
    /// Focus an agent target without attaching the TUI.
    Focus {
        target: String,
        json: bool,
    },
    /// Focus a pane and attach the TUI to its session.
    Attach {
        target: String,
    },
    /// Rename a pane.
    Rename {
        target: String,
        name: String,
    },
    /// Print a pane's agent state and the reason for it.
    Explain {
        target: String,
        /// Print the pane snapshot as JSON.
        json: bool,
    },
    /// Refresh agent-detection manifests from the repo (opt-in network call).
    UpdateManifests,
    /// Inspect the active manifest cache, or atomically reload local overrides.
    Manifests {
        /// Re-read bundled and user override manifests without restarting.
        reload: bool,
        /// Print JSON instead of an aligned table.
        json: bool,
    },
    /// Validate a manifest file against the daemon schema without installing it.
    ValidateManifest {
        path: String,
    },
    /// Wait until a pane reaches an agent state; exits 2 on timeout.
    Wait {
        target: String,
        /// One of: blocked, working, done, idle, unknown.
        state: AgentStateKind,
        /// Give up after S seconds and exit 2.
        timeout: Option<u64>,
    },
    /// Report an agent state to the daemon (used by agent hooks).
    Report {
        pane: PaneId,
        /// One of: blocked, working, done, idle, unknown.
        state: AgentStateKind,
        /// Name recorded as the source of the report.
        source: String,
        /// Canonical agent name associated with a native conversation id.
        native_agent: Option<String>,
        /// Agent-native conversation id reported by an integration hook.
        native_session_id: Option<String>,
        /// Agent-native session path reported by an integration hook.
        native_session_path: Option<String>,
        /// Read one bounded JSON hook payload from a pipe and extract this
        /// integration's documented native session field.
        hook_json: bool,
    },
}

#[derive(Debug, Clone, PartialEq, Eq)]
pub enum WorktreeCommand {
    /// Add a worktree workspace for BRANCH, rooted in the given workspace's repo.
    Add {
        /// Branch to check out (created from `--from` when it does not exist).
        branch: String,
        /// Base ref for a new branch (defaults to the repo's current HEAD).
        from: Option<String>,
        /// Alias for --from, naming the starting ref explicitly.
        base: Option<String>,
        /// Explicit directory for the new checkout.
        path: Option<String>,
        /// Workspace whose root repo to branch from (defaults to the active one).
        workspace: Option<String>,
    },
    /// Open an existing linked worktree without creating or copying it.
    Open {
        path: String,
        /// Workspace whose root repo owns the worktree (defaults to active).
        workspace: Option<String>,
    },
    /// Remove a worktree workspace by workspace name/id or branch name.
    Remove {
        /// Workspace name, workspace id, or branch of the worktree to remove.
        target: String,
        /// Close the workspace but leave the worktree directory on disk.
        keep: bool,
    },
    /// List worktree workspaces, showing their root and parent workspace.
    List {
        /// Print the matching workspaces as JSON.
        json: bool,
    },
}

#[derive(Debug, Clone, PartialEq, Eq)]
pub enum ConfigCommand {
    /// Write a documented starter configuration when no file exists.
    Init,
    /// Print the path of the config file.
    Path,
    /// Print the effective configuration as TOML.
    Show,
    /// Check the config file, exiting non-zero when it has problems.
    Validate,
}

#[derive(Debug, Clone, PartialEq, Eq)]
pub enum IntegrateCommand {
    /// List available integrations and whether their config directory exists.
    List,
    /// Hooks in the agent's settings file that report its state to the daemon.
    ClaudeCode {
        /// Merge the hooks into the settings file instead of printing them.
        write: bool,
        /// Remove only Ködade-managed hooks from the settings file.
        remove: bool,
    },
    /// Gemini CLI hooks that report agent state.
    GeminiCli {
        /// Merge the hooks into ~/.gemini/settings.json instead of printing them.
        write: bool,
        /// Remove only Ködade-managed hooks from the settings file.
        remove: bool,
    },
    /// Codex lifecycle hooks that report agent state without replacing `notify`.
    Codex {
        /// Merge the entries into ~/.codex/hooks.json instead of printing them.
        write: bool,
        /// Retained for compatibility; Codex hooks never replace `notify`.
        force: bool,
        /// Remove only Ködade-managed hooks from ~/.codex/hooks.json.
        remove: bool,
    },
    /// GitHub Copilot CLI lifecycle hooks.
    Copilot {
        write: bool,
        remove: bool,
    },
    /// Cursor lifecycle hooks.
    Cursor {
        write: bool,
        remove: bool,
    },
    /// Factory Droid lifecycle hooks.
    Droid {
        write: bool,
        remove: bool,
    },
    /// Kimi Code lifecycle hooks.
    Kimi {
        write: bool,
        remove: bool,
    },
    /// Qwen Code lifecycle hooks.
    Qwen {
        write: bool,
        remove: bool,
    },
    /// OpenCode local plugin (official API documented; fixture-tested here).
    OpenCode {
        write: bool,
        remove: bool,
    },
    /// Pi global extension (verified against installed Pi 0.85.1 docs).
    Pi {
        write: bool,
        remove: bool,
    },
    /// Oh My Pi global extension.
    Omp {
        write: bool,
        remove: bool,
    },
    /// Kilo global lifecycle plugin.
    Kilo {
        write: bool,
        remove: bool,
    },
    /// Hermes global lifecycle plugin.
    Hermes {
        write: bool,
        remove: bool,
    },
}

#[derive(Debug, Clone, PartialEq, Eq)]
pub enum PluginCommand {
    /// List installed extensions and whether they are enabled.
    List {
        json: bool,
    },
    /// Register a local extension directory without copying it.
    Link { path: String },
    /// Clone a GitHub OWNER/REPO[/SUBDIR] extension into Ködade's managed directory.
    Install { source: String },
    /// Stop loading an extension while retaining its files and registry entry.
    Disable { id: String },
    /// Re-enable a registered extension.
    Enable { id: String },
    /// Remove a local link from the registry; its source directory remains untouched.
    Unlink { id: String },
    /// Remove a managed extension and its registry entry. Linked directories are protected.
    Uninstall { id: String },
    /// Run an extension action in the current workspace/pane context.
    Run { id: String, action: String },
    /// Open a named extension pane in a new Ködade tab.
    Pane { id: String, pane: String },
}


pub open spec fn direction_of(value: DirectionArg) -> Direction {
    match value {
        DirectionArg::Up => Direction::Up,
        DirectionArg::Down => Direction::Down,
        DirectionArg::Left => Direction::Left,
        DirectionArg::Right => Direction::Right,
    }
}

impl vstd::std_specs::convert::FromSpecImpl<DirectionArg> for Direction {
    open spec fn obeys_from_spec() -> bool {
        true
    }

    open spec fn from_spec(value: DirectionArg) -> Direction {
        direction_of(value)
    }
}

impl From<DirectionArg> for Direction {
    fn from(value: DirectionArg) -> (r: Self) {
        match value {
            DirectionArg::Up => Direction::Up,
            DirectionArg::Down => Direction::Down,
            DirectionArg::Left => Direction::Left,
            DirectionArg::Right => Direction::Right,
        }
    }
}

/// A shell-style identifier: a letter or `_`, then letters, digits and `_`.
pub open spec fn is_identifier(s: Seq<char>) -> bool {
    &&& s.len() > 0
    &&& !text::ascii_digit(s[0])
    &&& forall|i: int| 0 <= i < s.len() ==> s[i] == '_' || #[trigger] text::ascii_alnum(s[i])
}

fn identifier(s: &str) -> (r: bool)
    ensures
        r == is_identifier(s@),
{
    let chars = text::chars_of(s);
    if chars.len() == 0 || text::is_ascii_digit(chars[0]) {
        return false;
    }
    let mut i: usize = 0;
    while i < chars.len()
        invariant
            chars@ == s@,
            i <= chars@.len(),
            forall|k: int| 0 <= k < i ==> s@[k] == '_' || #[trigger] text::ascii_alnum(s@[k]),
        decreases chars@.len() - i,
    {
        if chars[i] != '_' && !text::is_ascii_alnum(chars[i]) {
            assert(!text::ascii_alnum(s@[i as int]));
            return false;
        }
        i += 1;
    }
    true
}

/// Parses a `KEY=VALUE` argument.
pub fn env_assignment(value: &str) -> (r: Result<(String, String), String>)
    ensures
        match text::cut_at(value@, '=') {
            None => text::fault(r) == Some("environment must be KEY=VALUE"@),
            Some((key, rest)) => if is_identifier(key) {
                r matches Ok(got) && text::pair_text(Some(got)) == Some((key, rest))
            } else {
                text::fault(r) == Some("environment key must be a shell-style identifier"@)
            },
        },
{
    match text::split_once(value, '=') {
        None => Err("environment must be KEY=VALUE".to_owned()),
        Some((key, rest)) => if identifier(key.as_str()) {
            Ok((key, rest))
        } else {
            Err("environment key must be a shell-style identifier".to_owned())
        },
    }
}

/// Parses a pane id.
pub fn pane_id(value: &str) -> (r: Result<PaneId, String>)
    ensures
        match text::parse_unsigned(value@) {
            Some(id) => r == Ok::<PaneId, String>(PaneId(id)),
            None => text::fault(r) == Some("invalid pane id '"@ + value@ + "'"@),
        },
{
    match text::parse_u64(value) {
        Some(id) => Ok(PaneId(id)),
        None => Err(text::cat3("invalid pane id '", value, "'")),
    }
}

/// Parses an agent state, with the names that every other command uses.
pub fn agent_state(value: &str) -> (r: Result<AgentStateKind, String>)
    ensures
        match commands::state_named(value@) {
            Some(state) => r == Ok::<AgentStateKind, String>(state),
            None => text::fault(r) == Some("unknown agent state '"@ + value@ + "'"@),
        },
{
    commands::parse_state(value)
}

} // verus!
