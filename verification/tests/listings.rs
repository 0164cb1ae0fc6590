use kodade_cli::commands::{
    checked_reply, focused_pane, format_agents, format_event, format_explain, format_ls,
    format_panes, format_sessions, format_tabs, format_workspaces, format_worktrees,
    is_session_socket, output_matcher, parse_state, pick_agent_target, poll_step, resolve_tab,
    resolve_tab_anywhere, resolve_workspace, resolve_worktree, session_entry, state_name,
    stream_step, worktree_workspaces, PollStep, SessionEntry, StreamStep,
};
use kodade_cli::proto::{
    AgentStateKind, Event, LayoutSnapshot, LayoutTree, PaneId, PaneSnapshot, Screen, ServerMessage,
    SidebarTabInfo, TabId, TabInfo, WorkspaceId, WorkspaceInfo,
};

fn fixture() -> LayoutSnapshot {
    LayoutSnapshot {
        active_workspace: WorkspaceId(1),
        active_tab: TabId(2),
        workspaces: vec![WorkspaceInfo {
            id: WorkspaceId(1),
            name: "repo".into(),
            active: true,
            state: AgentStateKind::Blocked,
            root: None,
            color: None,
            branch: None,
            parent: None,
            tabs: vec![SidebarTabInfo {
                id: TabId(2),
                name: "agents".into(),
                state: AgentStateKind::Blocked,
                agents: vec![],
            }],
        }],
        tabs: vec![TabInfo {
            id: TabId(2),
            name: "agents".into(),
            active: true,
            state: AgentStateKind::Blocked,
        }],
        tree: LayoutTree::Leaf { pane: PaneId(7) },
        panes: vec![PaneSnapshot {
            id: PaneId(7),
            title: "codex task".into(),
            focused: true,
            scroll_offset: 0,
            screen: Screen::default(),
            agent: Some("Codex".into()),
            agent_generation: 1,
            activity_revision: 0,
            state: AgentStateKind::Blocked,
            state_reason: "manifest rule 'Allow?' matched".into(),
            state_age_secs: 0,
            cwd: None,
        }],
        zoomed: false,
        restored: false,
    }
}

#[test]
fn resolves_workspaces_and_tabs_by_name_or_id() {
    let layout = fixture();
    assert_eq!(resolve_workspace(&layout, "repo").unwrap(), WorkspaceId(1));
    assert_eq!(resolve_workspace(&layout, "1").unwrap(), WorkspaceId(1));
    assert!(resolve_workspace(&layout, "missing").is_err());
    assert_eq!(resolve_tab(&layout, None, "agents").unwrap(), TabId(2));
    assert_eq!(
        resolve_tab(&layout, Some(WorkspaceId(1)), "2").unwrap(),
        TabId(2)
    );
    assert!(resolve_tab(&layout, None, "nope").is_err());
    assert_eq!(focused_pane(&layout).unwrap(), PaneId(7));
}

#[test]
fn formats_layout_and_agents_for_scripts() {
    let layout = fixture();
    assert_eq!(
        format_ls(&layout),
        "repo (blocked)\n  agents (blocked)\n    7 · codex task · Codex · blocked"
    );
    assert_eq!(
        format_agents(&layout),
        "7  Codex  blocked  manifest rule 'Allow?' matched"
    );
}

#[test]
fn worktree_list_and_resolve_by_branch() {
    let mut layout = fixture();
    layout.workspaces[0].branch = Some("main".into());
    layout.workspaces.push(WorkspaceInfo {
        id: WorkspaceId(2),
        name: "repo:feat-a".into(),
        active: false,
        state: AgentStateKind::Idle,
        root: Some("/tmp/wt/repo/feat-a".into()),
        color: None,
        branch: Some("feat-a".into()),
        parent: Some(WorkspaceId(1)),
        tabs: vec![],
    });
    // Both branch workspaces are listed; the child shows its parent.
    assert_eq!(worktree_workspaces(&layout).len(), 2);
    let text = format_worktrees(&layout);
    assert!(text.contains("⎇ feat-a"));
    assert!(text.contains("parent repo"));
    // Remove resolves by branch, workspace id, or name.
    assert_eq!(resolve_worktree(&layout, "feat-a").unwrap(), WorkspaceId(2));
    assert_eq!(resolve_worktree(&layout, "2").unwrap(), WorkspaceId(2));
    assert!(resolve_worktree(&layout, "nope").is_err());
}

#[test]
fn parses_reported_agent_states() {
    assert_eq!(parse_state("done").unwrap(), AgentStateKind::Done);
    assert!(parse_state("busy").is_err());
}

#[test]
fn output_matchers_keep_literal_default_and_validate_regexes() {
    assert!(output_matcher("build [42]", false)
        .unwrap()
        .matches("build [42] complete"));
    assert!(output_matcher(r"build \d+", true)
        .unwrap()
        .matches("build 42 complete"));
    assert!(output_matcher("[", true).is_err());
}

#[test]
fn explain_shows_bottom_window_and_reason() {
    let mut layout = fixture();
    layout.panes[0].screen.contents = (1..=10)
        .map(|line| format!("line {line}"))
        .collect::<Vec<_>>()
        .join("\n");
    let text = format_explain(&layout.panes[0]);
    assert!(text.contains("manifest rule 'Allow?' matched"));
    assert!(text.contains("matched window (bottom 8 lines):"));
    assert!(text.contains("line 3")); // first of the last 8 lines
    assert!(!text.contains("line 2"));
}

#[test]
fn formats_pane_tab_and_workspace_listings() {
    let layout = fixture();
    let panes = format_panes(&layout);
    assert!(
        panes.starts_with("7*  codex task  Codex  blocked"),
        "{panes}"
    );
    assert_eq!(format_tabs(&layout.tabs), "2*  agents  blocked");
    assert_eq!(
        format_workspaces(&layout.workspaces),
        "1*  repo  blocked  1 tab(s)"
    );
}

#[test]
fn session_listings_mark_dead_and_restored_sockets() {
    let entries = vec![
        SessionEntry {
            name: "default".into(),
            path: "/tmp/default.sock".into(),
            alive: true,
            restored: false,
            workspaces: 1,
            tabs: 2,
            panes: 3,
        },
        SessionEntry {
            name: "work".into(),
            path: "/tmp/work.sock".into(),
            alive: true,
            restored: true,
            workspaces: 1,
            tabs: 1,
            panes: 1,
        },
        SessionEntry {
            name: "stale".into(),
            path: "/tmp/stale.sock".into(),
            alive: false,
            restored: false,
            workspaces: 0,
            tabs: 0,
            panes: 0,
        },
    ];
    let text = format_sessions(&entries);
    assert_eq!(
        text,
        "default  1 workspace(s)  2 tab(s)  3 pane(s)\n\
         work  1 workspace(s)  1 tab(s)  1 pane(s) (restored)\n\
         stale  0 workspace(s)  0 tab(s)  0 pane(s) (dead)"
    );
}

#[test]
fn events_render_as_one_line_each() {
    assert_eq!(
        format_event(&Event::AgentStateChanged {
            pane: PaneId(3),
            from: AgentStateKind::Working,
            to: AgentStateKind::Blocked,
        }),
        "agent_state_changed  pane 3  working -> blocked"
    );
    assert_eq!(
        format_event(&Event::TabRenamed {
            tab: TabId(2),
            name: "agents".into(),
        }),
        "tab_renamed  tab 2  agents"
    );
}
#[test]
fn tab_names_and_ids_resolve_across_workspaces() {
    let mut layout = fixture();
    // A second workspace with its own tab, as `pane move --tab` would see.
    layout.workspaces.push(WorkspaceInfo {
        id: WorkspaceId(9),
        name: "other".into(),
        active: false,
        state: AgentStateKind::Idle,
        root: None,
        color: None,
        branch: None,
        parent: None,
        tabs: vec![SidebarTabInfo {
            id: TabId(11),
            name: "notes".into(),
            state: AgentStateKind::Idle,
            agents: vec![],
        }],
    });
    assert_eq!(
        resolve_tab_anywhere(&layout, "notes").expect("name in another workspace"),
        TabId(11)
    );
    assert_eq!(
        resolve_tab_anywhere(&layout, "11").expect("id in another workspace"),
        TabId(11)
    );
    // The active-workspace resolver used by `-t` cannot see it.
    assert!(resolve_tab(&layout, None, "notes").is_err());
    assert!(resolve_tab_anywhere(&layout, "nope").is_err());
}

#[test]
fn only_socket_files_are_sessions() {
    assert!(is_session_socket("work.sock"));
    assert!(!is_session_socket("hooks"));
    let entry = session_entry("work.sock", "/tmp/work.sock", &Some(fixture()));
    assert_eq!((entry.alive, entry.workspaces, entry.tabs), (true, 1, 1));
    assert_eq!(entry.name, "work");
    assert!(!session_entry("work.sock", "/tmp/work.sock", &None).alive);
}

#[test]
fn state_names_parse_back() {
    for state in [
        AgentStateKind::Blocked,
        AgentStateKind::Working,
        AgentStateKind::Done,
        AgentStateKind::Idle,
    ] {
        assert_eq!(parse_state(state_name(state)), Ok(state));
    }
}

#[test]
fn agent_targets_are_found_or_ambiguous() {
    let pane = fixture().panes[0].clone();
    let panes = vec![pane.clone()];
    assert_eq!(pick_agent_target(&panes, "Codex"), Ok(0));
    assert!(pick_agent_target(&panes, "Gemini").is_err());
    let mut second = pane;
    second.id = PaneId(8);
    let panes = vec![panes[0].clone(), second];
    assert!(pick_agent_target(&panes, "Codex").is_err());
}

#[test]
fn replies_and_waits_end_as_they_should() {
    assert_eq!(
        checked_reply(ServerMessage::Error {
            message: "no such pane".into()
        }),
        Err("no such pane".to_string())
    );
    assert_eq!(poll_step(true, Some(true)), PollStep::Finish(true));
    assert_eq!(poll_step(false, Some(true)), PollStep::Finish(false));
    assert_eq!(poll_step(false, None), PollStep::Sleep);
    assert!(matches!(
        stream_step(ServerMessage::Shutdown),
        StreamStep::End
    ));
}
