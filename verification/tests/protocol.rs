use kodade_cli::proto::{
    client_message_name, client_message_names, schema_message, server_message_name,
    server_message_names, AgentStateKind, ClientMessage, Direction, Event, ImageData,
    LayoutSnapshot, LayoutTree, ManifestInfo, Notification, PaneId, PaneSnapshot, QueryKind, Screen,
    ServerMessage, SplitAxis, TabId, WorkspaceId, PROTOCOL_VERSION,
};
use kodade_cli::session_file::{PaneFile, SessionFault, SessionFile, TabFile, WorkspaceFile};

fn half() -> u32 {
    0.5f32.to_bits()
}

fn sample_session_file() -> SessionFile {
    SessionFile {
        version: 1,
        name: "demo".into(),
        active_workspace: 1,
        workspaces: vec![WorkspaceFile {
            id: 1,
            name: "one".into(),
            root: None,
            color: None,
            active_tab: 2,
            tabs: vec![TabFile {
                id: 2,
                name: "agents".into(),
                zoomed: false,
                focused: 3,
                tree: LayoutTree::Split {
                    axis: SplitAxis::Horizontal,
                    ratio: half(),
                    first: Box::new(LayoutTree::Leaf { pane: PaneId(3) }),
                    second: Box::new(LayoutTree::Leaf { pane: PaneId(4) }),
                },
                panes: vec![
                    PaneFile {
                        id: 3,
                        title: "codex".into(),
                        cwd: None,
                        command: None,
                        native_session: None,
                    },
                    PaneFile {
                        id: 4,
                        title: "shell".into(),
                        cwd: None,
                        command: None,
                        native_session: None,
                    },
                ],
            }],
        }],
    }
}

#[test]
fn validate_rejects_duplicate_ids_anywhere_in_the_file() {
    sample_session_file().validate().expect("sample is valid");

    // Two workspaces sharing an id would collapse into one on apply.
    let mut file = sample_session_file();
    let mut second = file.workspaces[0].clone();
    second.tabs[0].id = 20;
    second.tabs[0].panes[0].id = 30;
    second.tabs[0].panes[1].id = 40;
    second.tabs[0].focused = 30;
    second.tabs[0].tree = LayoutTree::Split {
        axis: SplitAxis::Horizontal,
        ratio: half(),
        first: Box::new(LayoutTree::Leaf { pane: PaneId(30) }),
        second: Box::new(LayoutTree::Leaf { pane: PaneId(40) }),
    };
    file.workspaces.push(second);
    assert!(file.validate().is_err(), "duplicate workspace id accepted");

    // Same for a repeated pane id in two different tabs.
    let mut file = sample_session_file();
    let mut second = file.workspaces[0].clone();
    second.id = 10;
    second.tabs[0].id = 20;
    file.workspaces.push(second);
    let error = file.validate().expect_err("duplicate pane id accepted");
    assert!(error.message().contains("duplicate pane id"), "{error:?}");
}

#[test]
fn validate_rejects_panes_outside_the_tree() {
    let mut file = sample_session_file();
    // Drop the second leaf but keep its pane entry: it would be spawned and
    // never drawn.
    file.workspaces[0].tabs[0].tree = LayoutTree::Leaf { pane: PaneId(3) };
    let error = file.validate().expect_err("orphan pane accepted");
    assert!(error.message().contains("outside its tree"), "{error:?}");
}

#[test]
fn every_rule_of_a_session_file_is_reported() {
    let mut file = sample_session_file();
    file.version = 9;
    assert_eq!(file.validate(), Err(SessionFault::Version(9)));
    let mut file = sample_session_file();
    file.workspaces.clear();
    assert_eq!(file.validate(), Err(SessionFault::NoWorkspaces));
    let mut file = sample_session_file();
    file.workspaces[0].tabs.clear();
    assert_eq!(file.validate(), Err(SessionFault::NoTabs(1)));
    let mut file = sample_session_file();
    let again = file.workspaces[0].tabs[0].clone();
    file.workspaces[0].tabs.push(again);
    assert_eq!(file.validate(), Err(SessionFault::DuplicateTab(2)));
    let mut file = sample_session_file();
    file.workspaces[0].tabs[0].panes.clear();
    assert_eq!(file.validate(), Err(SessionFault::NoPanes(2)));
}

#[test]
fn the_schema_names_each_message_once() {
    for names in [client_message_names(), server_message_names()] {
        let mut sorted = names.clone();
        sorted.sort();
        sorted.dedup();
        assert_eq!(sorted.len(), names.len());
    }
    match schema_message() {
        ServerMessage::Schema {
            client_messages, ..
        } => assert!(client_messages.iter().any(|name| name == "SplitRight")),
        other => panic!("{other:?}"),
    }
}

/// One value per kind of message.
fn every_client_message() -> Vec<ClientMessage> {
    let pane = PaneId(1);
    let tab = TabId(2);
    let workspace = WorkspaceId(3);
    vec![
        ClientMessage::Query(QueryKind::Layout),
        ClientMessage::Subscribe,
        ClientMessage::ApplyLayout(SessionFile {
            version: 1,
            name: "demo".into(),
            active_workspace: 3,
            workspaces: Vec::new(),
        }),
        ClientMessage::Hello {
            cols: 80,
            rows: 24,
            version: PROTOCOL_VERSION,
        },
        ClientMessage::Input { bytes: vec![1] },
        ClientMessage::Resize { cols: 80, rows: 24 },
        ClientMessage::SetCompactView { enabled: true },
        ClientMessage::SplitRight,
        ClientMessage::SplitDown,
        ClientMessage::ClosePane,
        ClientMessage::CloseTab { id: tab },
        ClientMessage::CloseWorkspace { id: workspace },
        ClientMessage::FocusPane {
            direction: Direction::Up,
        },
        ClientMessage::FocusPaneId { id: pane },
        ClientMessage::SendToPane {
            id: pane,
            bytes: vec![1],
        },
        ClientMessage::PasteImage {
            pane,
            data: "test".into(),
        },
        ClientMessage::PromptAgent {
            pane,
            expected_agent: "Codex".into(),
            expected_generation: 1,
            bytes: vec![1],
        },
        ClientMessage::RenamePaneId {
            id: pane,
            name: "a".into(),
        },
        ClientMessage::KillSession,
        ClientMessage::RenameSession { name: "a".into() },
        ClientMessage::NewTab,
        ClientMessage::NextTab,
        ClientMessage::PrevTab,
        ClientMessage::SelectTab { id: tab },
        ClientMessage::SelectTabIndex { index: 1 },
        ClientMessage::MoveTab { delta: 1 },
        ClientMessage::MovePaneToTab { pane, tab },
        ClientMessage::SwapPane {
            direction: Direction::Left,
        },
        ClientMessage::BreakPane,
        ClientMessage::EqualizeLayout,
        ClientMessage::FocusPaneCycle { forward: true },
        ClientMessage::SelectWorkspaceDelta { delta: 1 },
        ClientMessage::RenameTabId {
            id: tab,
            name: "a".into(),
        },
        ClientMessage::RenameWorkspaceId {
            id: workspace,
            name: "a".into(),
        },
        ClientMessage::NewWorkspace {
            name: "a".into(),
            root: None,
        },
        ClientMessage::NewPane {
            workspace: None,
            tab: None,
            split: None,
            command: None,
            name: None,
            context: None,
        },
        ClientMessage::SelectWorkspace { id: workspace },
        ClientMessage::RenamePane { name: "a".into() },
        ClientMessage::RenameTab { name: "a".into() },
        ClientMessage::RenameWorkspace { name: "a".into() },
        ClientMessage::ResizePane {
            direction: Direction::Up,
            cells: 1,
        },
        ClientMessage::ScrollPane { id: pane, delta: 1 },
        ClientMessage::ReadPane {
            id: pane,
            scrollback: true,
            lines: Some(5),
        },
        ClientMessage::ZoomPane,
        ClientMessage::AgentState {
            pane,
            state: AgentStateKind::Idle,
            source: "test".into(),
            native_session: None,
        },
        ClientMessage::SetWorkspaceColor {
            id: workspace,
            color: Some("#e7a33b".into()),
        },
        ClientMessage::NewWorktreeWorkspace {
            repo_root: "/tmp/repo".into(),
            branch: "feat-a".into(),
            from: Some("main".into()),
        },
        ClientMessage::RemoveWorktreeWorkspace {
            id: workspace,
            keep: false,
        },
        ClientMessage::ReloadManifests,
    ]
}

fn every_server_message() -> Vec<ServerMessage> {
    let notification = || Notification {
        pane: PaneId(1),
        workspace: WorkspaceId(3),
        tab: TabId(2),
        agent: "codex".into(),
        state: AgentStateKind::Blocked,
        seq: 1,
    };
    vec![
        ServerMessage::ImagePasted {
            pane: PaneId(1),
            path: "/tmp/image.png".into(),
        },
        ServerMessage::Welcome {
            session: "demo".into(),
            version: PROTOCOL_VERSION,
        },
        ServerMessage::Version {
            version: PROTOCOL_VERSION,
        },
        ServerMessage::Layout(LayoutSnapshot {
            active_workspace: WorkspaceId(3),
            active_tab: TabId(2),
            workspaces: Vec::new(),
            tabs: Vec::new(),
            tree: LayoutTree::Leaf { pane: PaneId(1) },
            panes: Vec::new(),
            zoomed: false,
            restored: false,
        }),
        ServerMessage::Notification(notification()),
        ServerMessage::PaneText {
            id: PaneId(1),
            text: "hi".into(),
            scrollback_lines: 1,
        },
        ServerMessage::Pane(PaneSnapshot {
            id: PaneId(1),
            title: "zsh".into(),
            focused: true,
            scroll_offset: 0,
            screen: Screen::default(),
            agent: None,
            agent_generation: 0,
            activity_revision: 0,
            state: AgentStateKind::Idle,
            state_reason: "no agent process".into(),
            state_age_secs: 0,
            cwd: None,
        }),
        ServerMessage::Image {
            pane: PaneId(1),
            image: ImageData {
                id: 7,
                revision: 1,
                format: 24,
                width: 1,
                height: 1,
                data: "AAAA".into(),
            },
        },
        ServerMessage::Event(Event::Notification(notification())),
        ServerMessage::Session(SessionFile {
            version: 1,
            name: "demo".into(),
            active_workspace: 3,
            workspaces: Vec::new(),
        }),
        schema_message(),
        ServerMessage::Manifests(vec![ManifestInfo {
            name: "codex".into(),
            display: "Codex".into(),
            process: vec!["codex".into()],
            title: vec!["Codex".into()],
            rules: 2,
            source: "builtin".into(),
        }]),
        ServerMessage::Error {
            message: "boom".into(),
        },
        ServerMessage::Shutdown,
    ]
}

#[test]
fn schema_lists_every_message_exactly_once() {
    let client = every_client_message();
    let names = client_message_names();
    assert_eq!(client.len(), names.len());
    for message in &client {
        let name = client_message_name(message).to_string();
        assert!(names.contains(&name), "{name} missing");
    }
    let server = every_server_message();
    let names = server_message_names();
    assert_eq!(server.len(), names.len());
    for message in &server {
        let name = server_message_name(message).to_string();
        assert!(names.contains(&name), "{name} missing");
    }
}
