use kodade_cli::automation::{
    check_prompt, has_fresh_activity, recognized, submission, target_query, TargetQuery, WaitStep,
    Waiter, MAX_PROMPT_BYTES,
};
use kodade_cli::cli::{agent_state, env_assignment, pane_id, Cli, Command, PaneCommand, TabCommand};
use kodade_cli::clipboard::{
    command, copy, image_command, limit, native_payload, platform, use_native, windows_text,
    CopyPlan, Platform,
};
use kodade_cli::connection::{
    connect_failure, daemon_log, first_connect, inherited_context, may_start, start_step,
    FirstConnect, StartStep,
};
use kodade_cli::dispatch::{
    answer, check_remote, creates, handshake, needs_socket, pane, send, tab, validate_config,
    ConfigState, Document, Handshake, Next, Request,
};
use kodade_cli::doctor::{
    candidates, configuration_check, daemon_check, run, tool_check, tools, DaemonAnswer, Severity,
};
use kodade_cli::guide::heading;
use kodade_cli::image_paste::{
    clipboard_image, needs_program, note, paste_request, pasted, Clipboard,
};
use kodade_cli::local_endpoint::{
    connection_ended, incoming, restoration, Incoming, LocalStep, Outgoing, Viewport,
};
use kodade_cli::mode::OSC52_LIMIT;
use kodade_cli::proto::{
    AgentInfo, AgentStateKind, ClientMessage, LayoutSnapshot, LayoutTree, PaneId, PaneSnapshot,
    Screen, ServerMessage, SidebarTabInfo, TabId, TabInfo, WorkspaceId, WorkspaceInfo,
    PROTOCOL_VERSION,
};
use kodade_cli::reconnect_view::SavedView;

fn snapshot(state: AgentStateKind) -> PaneSnapshot {
    PaneSnapshot {
        id: PaneId(1),
        title: "agent".into(),
        focused: true,
        scroll_offset: 0,
        screen: Screen::default(),
        agent: Some("Codex".into()),
        agent_generation: 1,
        activity_revision: 0,
        state,
        state_reason: "idle".into(),
        state_age_secs: 1,
        cwd: None,
    }
}

fn layout() -> LayoutSnapshot {
    LayoutSnapshot {
        active_workspace: WorkspaceId(1),
        active_tab: TabId(2),
        workspaces: vec![WorkspaceInfo {
            id: WorkspaceId(1),
            name: "repo".into(),
            active: true,
            state: AgentStateKind::Idle,
            root: None,
            color: None,
            branch: None,
            parent: None,
            tabs: vec![SidebarTabInfo {
                id: TabId(2),
                name: "agents".into(),
                state: AgentStateKind::Idle,
                agents: vec![AgentInfo {
                    pane: PaneId(1),
                    name: "Codex".into(),
                    state: AgentStateKind::Idle,
                    state_age_secs: 0,
                }],
            }],
        }],
        tabs: vec![TabInfo {
            id: TabId(2),
            name: "agents".into(),
            active: true,
            state: AgentStateKind::Idle,
        }],
        tree: LayoutTree::Leaf { pane: PaneId(1) },
        panes: vec![snapshot(AgentStateKind::Idle)],
        zoomed: false,
        restored: false,
    }
}

#[test]
fn stale_idle_or_done_cannot_satisfy_a_new_prompt_wait() {
    let mut snapshot = snapshot(AgentStateKind::Idle);
    assert!(!has_fresh_activity(&snapshot, ""));
    snapshot.state = AgentStateKind::Done;
    assert!(!has_fresh_activity(&snapshot, ""));
    snapshot.state = AgentStateKind::Working;
    assert!(has_fresh_activity(&snapshot, ""));
}

#[test]
fn a_wait_settles_once_the_agent_worked_and_rests() {
    let mut waiter = Waiter::new(&snapshot(AgentStateKind::Idle), None);
    assert_eq!(
        waiter.observe(&snapshot(AgentStateKind::Idle)),
        Ok(WaitStep::Again)
    );
    assert_eq!(
        waiter.observe(&snapshot(AgentStateKind::Working)),
        Ok(WaitStep::Again)
    );
    assert_eq!(
        waiter.observe(&snapshot(AgentStateKind::Done)),
        Ok(WaitStep::Settled)
    );
    let mut other = snapshot(AgentStateKind::Done);
    other.agent_generation = 2;
    assert!(waiter.observe(&other).is_err());
}

#[test]
fn prompts_are_checked_before_they_are_sent() {
    assert!(check_prompt(false, None, Some(5)).is_err());
    assert!(check_prompt(true, None, Some(5)).is_ok());
    let idle = snapshot(AgentStateKind::Idle);
    match submission(&idle, "Codex", "run the tests").unwrap() {
        ClientMessage::PromptAgent {
            pane,
            expected_agent,
            expected_generation,
            bytes,
        } => {
            assert_eq!((pane, expected_generation), (PaneId(1), 1));
            assert_eq!(expected_agent, "Codex");
            assert!(bytes.starts_with(b"run the tests"));
            assert_eq!(bytes.last(), Some(&b'\r'));
        }
        other => panic!("{other:?}"),
    }
    assert!(submission(&idle, "Codex", &"x".repeat(MAX_PROMPT_BYTES + 1)).is_err());
    let mut shell = idle;
    shell.agent = None;
    assert!(recognized(shell, "7").is_err());
    assert_eq!(target_query(&layout(), "7"), TargetQuery::One(PaneId(7)));
    assert_eq!(
        target_query(&layout(), "Codex"),
        TargetQuery::Each(vec![PaneId(1)])
    );
}

#[test]
fn limits_at_a_character_boundary() {
    let text = format!("{}é", "x".repeat(OSC52_LIMIT));
    let (limited, truncated) = limit(&text);
    assert!(truncated);
    assert_eq!(limited.len(), OSC52_LIMIT);
}

#[test]
fn remote_copy_never_selects_a_native_program() {
    assert!(!use_native(true, false, false));
    assert!(!use_native(false, true, false));
    assert!(use_native(false, false, false));
}

#[test]
fn native_payload_preserves_unicode() {
    let text = "Ködade 日本語 🚀";
    assert_eq!(native_payload(text, false), text.as_bytes());
    let mut expected = vec![0xff, 0xfe];
    expected.extend(text.encode_utf16().flat_map(u16::to_le_bytes));
    assert_eq!(native_payload(text, true), expected);
}

#[test]
fn the_windows_clipboard_takes_text_up_to_a_zero() {
    assert_eq!(windows_text("a🚀"), Ok(vec![0x61, 0xd83d, 0xde80, 0]));
    assert_eq!(
        windows_text("a\0b"),
        Err("clipboard text contains a null character".to_string())
    );
}

#[test]
fn copies_go_through_a_program_or_the_terminal() {
    assert_eq!(platform(true, false, false), Platform::MacOs);
    assert_eq!(command(Platform::MacOs), vec!["pbcopy"]);
    assert_eq!(image_command(Platform::MacOs), vec!["pngpaste", "-"]);
    match copy("hi", false, false) {
        CopyPlan::Terminal(sequence) => assert_eq!(sequence, "\x1b]52;c;aGk=\x07"),
        other => panic!("{other:?}"),
    }
    assert!(matches!(
        copy("hi", true, false),
        CopyPlan::Native { bytes, .. } if bytes == b"hi"
    ));
}

fn arguments(session: &str, remote: Option<&str>) -> Cli {
    Cli {
        session: session.to_string(),
        remote: remote.map(str::to_owned),
        socket: None,
        command: None,
    }
}

#[test]
fn explicit_endpoint_overrides_inherited_pane_context() {
    for (explicit, mut cli) in [
        (true, arguments("other", None)),
        (false, arguments("default", Some("buildbox"))),
    ] {
        inherited_context(
            &mut cli,
            explicit,
            Some("caller".into()),
            Some("/tmp/caller.sock".into()),
            None,
        )
        .unwrap();
        assert_ne!(cli.session, "caller");
        assert!(cli.socket.is_none());
    }
    let mut cli = arguments("default", None);
    cli.command = Some(Command::Ls { json: false });
    inherited_context(
        &mut cli,
        false,
        Some("caller".into()),
        Some("/tmp/caller.sock".into()),
        None,
    )
    .unwrap();
    assert_eq!(cli.session, "caller");
    assert_eq!(cli.socket, Some("/tmp/caller.sock".to_string()));
}

#[test]
fn a_daemon_is_started_only_where_none_answers() {
    assert_eq!(first_connect(true, true, false), FirstConnect::Connected);
    assert_eq!(first_connect(false, true, true), FirstConnect::Start);
    assert_eq!(first_connect(false, false, true), FirstConnect::Fail);
    assert!(may_start("/run/work.sock", "/run/work.sock"));
    assert!(!may_start("/run/work.sock", "/run/other.sock"));
    assert!(connect_failure("/run/work.sock").contains("/run/work.sock"));
    assert_eq!(daemon_log("/run/work.sock"), "/run/work.log");
    for path in [
        "work", "a.b/work", "a/.work", "a/work.", "a/work.sock/", "a/work.x.y/./",
        "/", "..", "a/..", "", ".", "./",
    ] {
        let expected = std::path::Path::new(path).with_extension("log");
        assert_eq!(daemon_log(path), expected.to_str().unwrap());
    }
    assert_eq!(
        start_step(false, &None, false, "10s", "/run/work.log"),
        StartStep::Again
    );
    assert!(matches!(
        start_step(false, &Some("exit status: 1".into()), false, "10s", "/run/work.log"),
        StartStep::Exited(message) if message.contains("exit status: 1")
    ));
    assert!(matches!(
        start_step(false, &None, true, "10s", "/run/work.log"),
        StartStep::TimedOut(_)
    ));
}

#[test]
fn arguments_are_read_one_by_one() {
    assert_eq!(
        env_assignment("KEY=a=b"),
        Ok(("KEY".to_string(), "a=b".to_string()))
    );
    assert!(env_assignment("KEY").is_err());
    assert_eq!(pane_id("7"), Ok(PaneId(7)));
    assert!(pane_id("seven").is_err());
    assert_eq!(agent_state("idle"), Ok(AgentStateKind::Idle));
    assert!(agent_state("busy").is_err());
}

#[test]
fn commands_become_requests_and_answers() {
    let list = Some(Command::Ls { json: false });
    assert!(needs_socket(&list));
    assert!(!creates(&list));
    assert!(check_remote(&list, true).is_ok());
    match pane(PaneCommand::Kill { pane: PaneId(3) }).unwrap() {
        Next::Ask { request, .. } => assert!(matches!(request, Request::Message(_))),
        other => panic!("{other:?}"),
    }
    match tab(TabCommand::Ls { json: false }) {
        Next::Ask { then, .. } => match answer(then, ServerMessage::Layout(layout())).unwrap() {
            Next::Show { document, json } => {
                assert!(!json);
                assert!(matches!(document, Document::Layout(..)));
            }
            other => panic!("{other:?}"),
        },
        other => panic!("{other:?}"),
    }
    assert!(matches!(
        send(PaneId(1), "echo", false),
        Ok(Next::Ask { .. })
    ));
    assert!(matches!(
        handshake(ServerMessage::Welcome {
            session: "work".into(),
            version: PROTOCOL_VERSION
        }),
        Ok(Handshake::Ready(session)) if session == "work"
    ));
    assert!(handshake(ServerMessage::Welcome {
        session: "work".into(),
        version: PROTOCOL_VERSION + 1
    })
    .is_err());
    let report = validate_config("/c/config.toml", &ConfigState::Broken("bad".into()));
    assert!(report.failed);
    assert!(!validate_config("/c/config.toml", &ConfigState::Missing).failed);
}

#[test]
fn the_doctor_sums_up_its_checks() {
    let good = configuration_check("/c/config.toml", &ConfigState::Read(Vec::new()));
    assert_eq!(good.status, Severity::Good);
    let bad = configuration_check("/c/config.toml", &ConfigState::Broken("bad".into()));
    assert_eq!(bad.status, Severity::Error);
    let git = tool_check("Git", "git", true, &Some("/usr/bin/git".into()));
    assert_eq!(git.status, Severity::Good);
    assert_ne!(
        tool_check("Git", "git", true, &None).status,
        Severity::Good
    );
    let daemon = daemon_check(&DaemonAnswer::TimedOut);
    let report = run(bad, git, Vec::new(), daemon, None, "work", "/run/work.sock");
    assert!(report.verdict().is_err());
    assert!(report.lines().len() >= 3);
    assert!(candidates("git", &vec!["/usr/bin".to_string()])
        .contains(&"/usr/bin/git".to_string()));
    let commands: Vec<_> = tools("cline-code").into_iter().map(|tool| tool.1).collect();
    assert_eq!(
        commands,
        vec!["git", "ssh", "curl", "codex", "cline", "gemini", "opencode", "pi"]
    );
    assert_eq!(
        heading(),
        "Ködade CLI 0.2.1 · automation guide 1 · protocol 1\n"
    );
}

#[test]
fn images_are_pasted_one_at_a_time() {
    match paste_request(PaneId(2), b"abc") {
        ClientMessage::PasteImage { pane, data } => {
            assert_eq!(pane, PaneId(2));
            assert_eq!(data, "YWJj");
        }
        other => panic!("{other:?}"),
    }
    assert_eq!(
        pasted(
            ServerMessage::ImagePasted {
                pane: PaneId(2),
                path: "/tmp/a.png".into()
            },
            PaneId(2)
        ),
        Ok("/tmp/a.png".to_string())
    );
    assert!(pasted(ServerMessage::Shutdown, PaneId(2)).is_err());
    assert!(clipboard_image(vec![0; 11], 10, true).is_err());
    assert!(clipboard_image(Vec::new(), 10, true).is_err());
    assert_eq!(clipboard_image(vec![1], 10, true), Ok(vec![1]));
    assert!(needs_program("pngpaste").contains("pngpaste"));
    assert!(note(&Err("no image".to_string())).contains("no image"));
    let mut clipboard = Clipboard { busy: false };
    assert!(clipboard.start());
    assert!(!clipboard.start());
    clipboard.finish();
    assert!(clipboard.start());
}

#[test]
fn a_reconnected_client_looks_as_it_did() {
    let mut view = SavedView::default();
    let mut seen = layout();
    seen.panes[0].scroll_offset = 4;
    view.observe(&seen);
    let messages = view.restore();
    assert!(messages
        .iter()
        .all(|message| !matches!(message, ClientMessage::Input { .. })));
    assert_eq!(
        messages.last(),
        Some(&ClientMessage::FocusPaneId { id: PaneId(1) })
    );
    assert!(messages.contains(&ClientMessage::ScrollPane {
        id: PaneId(1),
        delta: 4
    }));
}

#[test]
fn queued_input_is_dropped_on_a_reconnect() {
    let mut viewport = Viewport {
        cols: 80,
        rows: 24,
        compact: false,
        colors: Some("rgb:1111/2222/3333".to_string()),
    };
    viewport.drain(&vec![
        ClientMessage::Input { bytes: vec![1] },
        ClientMessage::Resize {
            cols: 100,
            rows: 30,
        },
    ]);
    assert_eq!((viewport.cols, viewport.rows), (100, 30));
    let colors = Outgoing::SetTerminalColors {
        colors: viewport.colors.clone(),
    };
    assert_eq!(
        viewport.resume(),
        vec![
            Outgoing::Message(ClientMessage::Resize {
                cols: 100,
                rows: 30
            }),
            Outgoing::Message(ClientMessage::SetCompactView { enabled: false }),
            colors.clone(),
        ]
    );
    assert!(matches!(
        viewport.hello(),
        ClientMessage::Hello {
            cols: 100,
            rows: 30,
            ..
        }
    ));
    let restored = restoration(&viewport, &SavedView::default());
    assert_eq!(restored[1], colors);
    assert_eq!(
        restored.last(),
        Some(&Outgoing::Message(ClientMessage::Subscribe))
    );
    assert!(!restored
        .iter()
        .any(|message| matches!(message, Outgoing::Message(ClientMessage::Input { .. }))));
    let mut socket = "/run/work.sock".to_string();
    let mut view = SavedView::default();
    assert!(matches!(
        incoming(Incoming::Upgrading, &mut view, &mut socket),
        LocalStep::Reconnect(_)
    ));
    assert!(matches!(
        incoming(
            Incoming::Message(ServerMessage::Shutdown),
            &mut view,
            &mut socket
        ),
        LocalStep::Stop(_)
    ));
    let (first, second) = connection_ended("broken pipe");
    assert_ne!(first, second);
}
