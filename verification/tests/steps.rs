use kodade_cli::cli::{LayoutCommand, SessionCommand};
use kodade_cli::dispatch::{
    check_work, contextual_agent_target, document_text, layout_command, manifests_updated,
    session_command,    update_choice, with_agent, Document, LayoutView, Next, Request, SessionStep, TargetWork, Then,
    UpdateChoice,
};
use kodade_cli::doctor::{log_check, Severity};
use kodade_cli::endpoints::{EndpointId, Manager, Router};
use kodade_cli::machines::MachineProfile;
use kodade_cli::mode::{CopyMode, Cursor, SelectKind};
use kodade_cli::picker::{goto_items, Picker};
use kodade_cli::plugins::{action_failure, InstalledPlugin, PluginRegistry};
use kodade_cli::proto::{
    AgentInfo, AgentStateKind, ClientMessage, LayoutSnapshot, LayoutTree, ManifestInfo, PaneId,
    PaneSnapshot, Screen, SidebarTabInfo, TabId, TabInfo, WorkspaceId, WorkspaceInfo,
};
use kodade_cli::remote::{
    control_path, doctor_args, probe_args, session_args, session_failure, OpenAction, OpenEvent,
    OpenPhase, Opener, PROBE,
};

fn pane(agent: Option<&str>) -> PaneSnapshot {
    PaneSnapshot {
        id: PaneId(4),
        title: "shell".into(),
        focused: true,
        scroll_offset: 0,
        screen: Screen::default(),
        agent: agent.map(str::to_owned),
        agent_generation: 3,
        activity_revision: 0,
        state: AgentStateKind::Idle,
        state_reason: "no rule".into(),
        state_age_secs: 0,
        cwd: None,
    }
}

fn layout() -> LayoutSnapshot {
    LayoutSnapshot {
        active_workspace: WorkspaceId(1),
        active_tab: TabId(2),
        workspaces: vec![WorkspaceInfo {
            id: WorkspaceId(1),
            name: "repo".into(),
            active: true,
            state: AgentStateKind::Working,
            root: None,
            color: None,
            branch: None,
            parent: None,
            tabs: vec![SidebarTabInfo {
                id: TabId(2),
                name: "agents".into(),
                state: AgentStateKind::Working,
                agents: vec![AgentInfo {
                    pane: PaneId(4),
                    name: "Codex".into(),
                    state: AgentStateKind::Working,
                    state_age_secs: 1,
                }],
            }],
        }],
        tabs: vec![TabInfo {
            id: TabId(2),
            name: "agents".into(),
            active: true,
            state: AgentStateKind::Working,
        }],
        tree: LayoutTree::Leaf { pane: PaneId(4) },
        panes: vec![pane(Some("Codex"))],
        zoomed: false,
        restored: true,
    }
}

// ----------------------------------------------------------------- opening a tunnel

fn ran(success: bool, output: &str, errors: &str) -> OpenEvent {
    OpenEvent::Ran {
        success,
        output: output.to_string(),
        errors: errors.to_string(),
    }
}

fn polled(connected: bool, exit: Option<&str>, past_deadline: bool) -> OpenEvent {
    OpenEvent::Polled {
        connected,
        exit: exit.map(str::to_owned),
        past_deadline,
        socket: "/run/s.sock".to_string(),
    }
}

fn last_word(action: OpenAction) -> String {
    match action {
        OpenAction::Run(words) => words.last().expect("a word").clone(),
        other => panic!("{other:?}"),
    }
}

#[test]
fn a_tunnel_opens_step_by_step() {
    let mut opener = Opener::new("buildbox", "work", "/run/cm-%C");
    let begin = OpenEvent::Begin {
        session_fault: None,
    };
    assert!(last_word(opener.step(begin)).contains("kodade-cli --version"));
    assert!(last_word(opener.step(ran(true, "kodade-cli 0.2.1\n", ""))).starts_with("nohup sh -c"));
    // A daemon that runs already makes the start fail, which is no fault.
    assert!(last_word(opener.step(ran(false, "", "taken"))).contains("session path -s work"));
    assert_eq!(
        opener.step(ran(true, "/run/work.sock\n", "")),
        OpenAction::Forward("/run/work.sock".to_string())
    );
    assert_eq!(opener.step(polled(false, None, false)), OpenAction::Again);
    assert_eq!(opener.step(polled(true, None, false)), OpenAction::Ready);
    assert_eq!(opener.phase, OpenPhase::Ended);
}

#[test]
fn each_way_to_fail_has_its_message() {
    let fails = |phase: OpenPhase, event: OpenEvent| {
        let mut opener = Opener::new("buildbox", "work", "/run/cm-%C");
        opener.phase = phase;
        match opener.step(event) {
            OpenAction::Fail(message) => {
                assert_eq!(opener.phase, OpenPhase::Ended);
                message
            }
            other => panic!("{other:?}"),
        }
    };
    assert!(fails(OpenPhase::Probing, ran(false, "", " refused\n"))
        .starts_with("could not run kodade-cli on buildbox: refused\nIf it is missing"));
    assert_eq!(
        fails(OpenPhase::Asking, ran(false, "", "")),
        "could not read the remote socket path from buildbox"
    );
    assert_eq!(
        fails(OpenPhase::Asking, ran(true, "work.sock", "")),
        "buildbox returned an invalid Unix socket path"
    );
    assert_eq!(
        fails(OpenPhase::Forwarding, polled(false, Some("exit status: 255"), true)),
        "SSH tunnel to buildbox exited with exit status: 255"
    );
    assert_eq!(
        fails(OpenPhase::Forwarding, polled(false, None, true)),
        "timed out waiting for the SSH tunnel to buildbox (socket /run/s.sock)"
    );
    assert!(fails(OpenPhase::Fresh, ran(true, "", "")).contains("out of order"));
    let begin = OpenEvent::Begin {
        session_fault: Some("invalid session name".to_string()),
    };
    assert_eq!(fails(OpenPhase::Fresh, begin.clone()), "invalid session name");
    let mut bad = Opener::new("-oProxy", "work", "/run/cm-%C");
    assert!(matches!(bad.step(begin), OpenAction::Fail(message) if message.contains("SSH target")));
}

#[test]
fn remote_words_follow_the_command() {
    assert_eq!(control_path("/run/ssh"), "/run/ssh/cm-%C");
    assert_eq!(
        probe_args("/run/cm-%C", "host").last().map(String::as_str),
        Some(PROBE)
    );
    assert_eq!(doctor_args("work", true), vec!["doctor", "-s", "work", "--json"]);
    assert_eq!(
        session_args("work", &SessionCommand::Ls { json: false }),
        (vec!["session", "ls"], true)
    );
    assert_eq!(
        session_args("work", &SessionCommand::Kill { name: None }),
        (vec!["session", "kill", "-s", "work"], false)
    );
    assert_eq!(
        session_failure("host", " no such session\n"),
        "remote `session` command on host failed: no such session"
    );
}

// ----------------------------------------------------------------------- command steps

#[test]
fn targets_are_checked_before_they_are_written_to() {
    let prompt = |wait: bool, timeout: Option<u64>| TargetWork::Prompt {
        text: "go".into(),
        wait,
        until: None,
        timeout,
        json: false,
    };
    assert!(check_work(&prompt(false, Some(3))).is_err());
    assert!(check_work(&prompt(true, Some(3))).is_ok());
    assert_eq!(
        with_agent(prompt(false, None), pane(None), "shell"),
        Err("target 'shell' is not a recognized agent pane".to_string())
    );
    match with_agent(prompt(true, None), pane(Some("Codex")), "Codex") {
        Ok(Next::Ask {
            request: Request::Message(ClientMessage::PromptAgent { pane, .. }),
            then: Then::Prompted { waits, .. },
        }) => {
            assert_eq!(pane, PaneId(4));
            assert!(waits);
        }
        other => panic!("{other:?}"),
    }
    let named = |session: Option<&str>, socket: &str, pane: Option<&str>, remote: bool| {
        contextual_agent_target(
            "current",
            "/run/work.sock",
            "work",
            remote,
            &session.map(str::to_owned),
            socket,
            &pane.map(str::to_owned),
        )
    };
    assert_eq!(
        named(Some("work"), "/run/work.sock", Some("7"), false),
        Ok("7".to_string())
    );
    assert!(named(Some("work"), "/run/work.sock", Some("7"), true).is_err());
    assert!(named(Some("other"), "/run/work.sock", Some("7"), false).is_err());
    assert!(named(Some("work"), "/run/other.sock", Some("7"), false).is_err());
    assert!(named(Some("work"), "/run/work.sock", Some("x"), false).is_err());
    assert!(named(None, "/run/work.sock", Some("7"), false).is_err());
}

#[test]
fn documents_are_written_as_lines() {
    let all = document_text(&Document::Layout(layout(), LayoutView::All));
    assert!(all.starts_with("repo (working)\n  agents (working)\n    4 · shell · Codex · idle"));
    assert!(all.ends_with("\n(restored)"));
    assert_eq!(document_text(&Document::Number(12)), "12");
    assert_eq!(
        document_text(&Document::Manifests(vec![ManifestInfo {
            name: "codex".into(),
            display: "Codex".into(),
            process: vec![],
            title: vec![],
            rules: 2,
            source: "builtin".into(),
        }])),
        "codex            Codex            builtin       2 rules"
    );
}

#[test]
fn sessions_layouts_and_updates_begin_with_their_step() {
    assert_eq!(
        session_command(true, SessionCommand::Path),
        SessionStep::Remote
    );
    assert_eq!(
        session_command(false, SessionCommand::Path),
        SessionStep::PrintSocket
    );
    assert!(matches!(
        session_command(false, SessionCommand::Kill { name: Some("old".into()) }),
        SessionStep::Ask { session: Some(name), .. } if name == "old"
    ));
    assert!(matches!(
        layout_command(LayoutCommand::Apply { file: "l.json".into() }),
        Next::Apply { file } if file == "l.json"
    ));
    assert_eq!(update_choice(true, false, true), UpdateChoice::Report);
    assert_eq!(update_choice(false, false, false), UpdateChoice::Current);
    assert_eq!(update_choice(false, true, false), UpdateChoice::Install);
    assert_eq!(log_check("/run/work.log").status, Severity::Info);
}

// ------------------------------------------------------------------------------ others

#[test]
fn machines_show_their_status_and_can_go_offline() {
    let profiles = vec![MachineProfile {
        id: "m-1".into(),
        label: "Build".into(),
        target: "build".into(),
        session: None,
        enabled: false,
    }];
    let manager = Manager::new(&profiles);
    let shown: Vec<(String, String)> = manager
        .sidebar_machines()
        .into_iter()
        .map(|machine| (machine.label, machine.status))
        .collect();
    assert_eq!(
        shown,
        vec![
            ("Local".to_string(), "connecting".to_string()),
            ("Build".to_string(), "disabled".to_string()),
        ]
    );
    let mut router = Router::new(EndpointId::Local);
    router.register(EndpointId::Local);
    router.mark_online(EndpointId::Local);
    router.mark_offline(&EndpointId::Local);
    assert_eq!(router.send(), Ok(None));
}

#[test]
fn copy_mode_moves_inside_its_window() {
    let lines: Vec<String> = (0..10).map(|n| format!("  line {n}")).collect();
    let mut copy = CopyMode::new(PaneId(1), lines, 4);
    copy.goto_top();
    copy.viewport_bottom();
    assert_eq!(copy.cursor.row, 3);
    copy.viewport_middle();
    assert_eq!(copy.cursor.row, 1);
    copy.viewport_top();
    assert_eq!(copy.cursor.row, 0);
    copy.goto_line_end();
    copy.goto_line_start();
    assert_eq!(copy.cursor.col, 0);
    copy.anchor = Some(Cursor { row: 0, col: 2 });
    copy.select = SelectKind::Char;
    copy.cursor = Cursor { row: 0, col: 4 };
    assert_eq!(copy.selection_span(0), Some((2, 4)));
    assert_eq!(copy.selection_span(1), None);
    copy.set_search("line", true);
    assert!(copy.search.is_some());
    copy.clear_search();
    assert!(copy.search.is_none());
}

#[test]
fn pickers_know_the_state_of_each_row() {
    let picker = Picker::new("go to", goto_items(&layout()));
    assert_eq!(picker.state_at(0), AgentStateKind::Working);
    assert_eq!(picker.state_at(99), AgentStateKind::Unknown);
}

#[test]
fn registries_are_kept_in_order() {
    let plugin = |version: &str| InstalledPlugin {
        path: "/p".into(),
        linked: true,
        enabled: true,
        version: version.into(),
    };
    let registry = PluginRegistry::from_entries(&vec![
        ("b".to_string(), plugin("1")),
        ("a".to_string(), plugin("2")),
        ("b".to_string(), plugin("3")),
    ]);
    let ids: Vec<&str> = registry.plugins.iter().map(|(id, _)| id.as_str()).collect();
    assert_eq!(ids, vec!["a", "b"]);
    assert_eq!(registry.get("b").map(|p| p.version.as_str()), Some("3"));
    let action = kodade_cli::manifest::PluginAction {
        id: "hello".into(),
        name: "Hello".into(),
        command: "true".into(),
        description: String::new(),
        pane: false,
        contexts: vec![],
    };
    assert_eq!(
        action_failure(&action, "exit status: 1"),
        "plugin action hello failed with exit status: 1"
    );
}

#[test]
fn a_running_daemon_reads_updated_manifests_again() {
    assert_eq!(
        manifests_updated(true),
        Next::Ask {
            request: Request::Message(ClientMessage::ReloadManifests),
            then: Then::Manifests { json: false },
        }
    );
    assert_eq!(
        manifests_updated(false),
        Next::Show {
            document: Document::Text(
                "updated manifests; reload them when the daemon is running".to_string()
            ),
            json: false,
        }
    );
}
