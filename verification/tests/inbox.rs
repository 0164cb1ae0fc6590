use kodade_cli::attention::Attention;
use kodade_cli::proto::{
    AgentStateKind, LayoutSnapshot, LayoutTree, Notification, PaneId, TabId, WorkspaceId,
};

#[test]
fn attention_sorts_blocked_before_completed_work() {
    let blocked = Notification {
        pane: PaneId(1),
        workspace: WorkspaceId(1),
        tab: TabId(1),
        agent: "Codex".into(),
        state: AgentStateKind::Blocked,
        seq: 1,
    };
    let done = Notification {
        pane: PaneId(2),
        workspace: WorkspaceId(1),
        tab: TabId(1),
        agent: "Cline".into(),
        state: AgentStateKind::Done,
        seq: 2,
    };
    let layout = LayoutSnapshot {
        active_workspace: WorkspaceId(1),
        active_tab: TabId(1),
        workspaces: vec![],
        tabs: vec![],
        panes: vec![],
        tree: LayoutTree::Leaf { pane: PaneId(1) },
        zoomed: false,
        restored: false,
    };
    let attention = Attention::new(&[done, blocked], &layout);
    assert!(attention.overlay.rows[0].label.contains("blocked"));
    assert_eq!(attention.current_pane(), Some(PaneId(1)));
}

#[test]
fn attention_has_a_clear_empty_state() {
    let layout = LayoutSnapshot {
        active_workspace: WorkspaceId(1),
        active_tab: TabId(1),
        workspaces: vec![],
        tabs: vec![],
        panes: vec![],
        tree: LayoutTree::Leaf { pane: PaneId(1) },
        zoomed: false,
        restored: false,
    };
    let attention = Attention::new(&[], &layout);
    assert_eq!(
        attention.overlay.rows[0].label.trim(),
        "no unread agent alerts"
    );
    assert_eq!(attention.current_pane(), None);
}

#[test]
fn refresh_keeps_the_selected_pane_when_rows_update() {
    let notifications = [
        Notification {
            pane: PaneId(1),
            workspace: WorkspaceId(1),
            tab: TabId(1),
            agent: "Codex".into(),
            state: AgentStateKind::Blocked,
            seq: 2,
        },
        Notification {
            pane: PaneId(2),
            workspace: WorkspaceId(1),
            tab: TabId(1),
            agent: "Cline".into(),
            state: AgentStateKind::Blocked,
            seq: 1,
        },
    ];
    let layout = LayoutSnapshot {
        active_workspace: WorkspaceId(1),
        active_tab: TabId(1),
        workspaces: vec![],
        tabs: vec![],
        panes: vec![],
        tree: LayoutTree::Leaf { pane: PaneId(1) },
        zoomed: false,
        restored: false,
    };
    let mut attention = Attention::new(&notifications, &layout);
    attention.overlay.selected = 1;
    assert_eq!(attention.current_pane(), Some(PaneId(2)));

    attention.refresh(&notifications, &layout);
    assert_eq!(attention.current_pane(), Some(PaneId(2)));
}
