use kodade_cli::notify::{Effect, Notifier, NotifyToast};
use kodade_cli::proto::{
    AgentInfo, AgentStateKind, LayoutSnapshot, LayoutTree, Notification, PaneId, PaneSnapshot,
    SidebarTabInfo, TabId, TabInfo, WorkspaceId, WorkspaceInfo,
};

fn layout(focused_pane: PaneId) -> LayoutSnapshot {
    LayoutSnapshot {
        active_workspace: WorkspaceId(1),
        active_tab: TabId(2),
        workspaces: vec![WorkspaceInfo {
            id: WorkspaceId(1),
            name: "kodade-cli".into(),
            active: true,
            state: AgentStateKind::Blocked,
            root: None,
            color: None,
            branch: None,
            parent: None,
            tabs: vec![SidebarTabInfo {
                id: TabId(2),
                name: "agents".into(),
                state: AgentStateKind::Blocked,
                agents: vec![AgentInfo {
                    pane: PaneId(3),
                    name: "codex".into(),
                    state: AgentStateKind::Blocked,
                    state_age_secs: 0,
                }],
            }],
        }],
        tabs: vec![TabInfo {
            id: TabId(2),
            name: "agents".into(),
            active: true,
            state: AgentStateKind::Blocked,
        }],
        tree: LayoutTree::Leaf { pane: PaneId(3) },
        panes: vec![PaneSnapshot {
            id: PaneId(3),
            title: "codex".into(),
            focused: PaneId(3) == focused_pane,
            scroll_offset: 0,
            screen: Default::default(),
            agent: Some("codex".into()),
            agent_generation: 0,
            activity_revision: 0,
            state: AgentStateKind::Blocked,
            state_reason: String::new(),
            state_age_secs: 0,
            cwd: None,
        }],
        zoomed: false,
        restored: false,
    }
}

fn notification(state: AgentStateKind) -> Notification {
    Notification {
        pane: PaneId(3),
        workspace: WorkspaceId(1),
        tab: TabId(2),
        agent: "codex".into(),
        state,
        seq: 1,
    }
}

fn notifier() -> Notifier {
    Notifier {
        enabled: true,
        on: vec![AgentStateKind::Blocked, AgentStateKind::Done],
        toast: NotifyToast::Status,
        bell: true,
        sound: String::new(),
        only_when_unfocused: true,
        jump_hint: "N".into(),
        unread: Vec::new(),
    }
}

#[test]
fn status_toast_and_bell_when_unfocused() {
    let mut notifier = notifier();
    // Focused pane is a different one, so the target pane is off screen.
    let effects = notifier.handle(&notification(AgentStateKind::Blocked), &layout(PaneId(9)));
    assert_eq!(
        effects,
        vec![
            Effect::Toast(
                "● codex blocked in kodade-cli/agents · prefix N to jump".to_string()
            ),
            Effect::Bell,
        ]
    );
    assert!(notifier.pop_unread().is_some());
}

#[test]
fn only_when_unfocused_skips_the_focused_pane() {
    let mut notifier = notifier();
    let effects = notifier.handle(&notification(AgentStateKind::Blocked), &layout(PaneId(3)));
    assert!(effects.is_empty());
    assert!(notifier.pop_unread().is_none());
}

#[test]
fn system_toast_emits_osc_and_sound() {
    let mut notifier = notifier();
    notifier.toast = NotifyToast::System;
    notifier.sound = "afplay ding.aiff".into();
    let effects = notifier.handle(&notification(AgentStateKind::Done), &layout(PaneId(9)));
    assert_eq!(
        effects,
        vec![
            Effect::Osc777 {
                title: "Ködade".to_string(),
                body: "● codex done in kodade-cli/agents · prefix N to jump".to_string(),
            },
            Effect::Bell,
            Effect::Sound("afplay ding.aiff".to_string()),
        ]
    );
}

#[test]
fn state_not_in_on_is_ignored() {
    let mut notifier = notifier();
    notifier.on = vec![AgentStateKind::Done];
    assert!(notifier
        .handle(&notification(AgentStateKind::Blocked), &layout(PaneId(9)))
        .is_empty());
}

#[test]
fn disabled_notifier_does_nothing() {
    let mut notifier = notifier();
    notifier.enabled = false;
    assert!(notifier
        .handle(&notification(AgentStateKind::Blocked), &layout(PaneId(9)))
        .is_empty());
}

#[test]
fn repeated_pane_keeps_one_unread_entry() {
    let mut notifier = notifier();
    let _ = notifier.handle(&notification(AgentStateKind::Blocked), &layout(PaneId(9)));
    let _ = notifier.handle(&notification(AgentStateKind::Done), &layout(PaneId(9)));
    assert_eq!(
        notifier.pop_unread().map(|n| n.state),
        Some(AgentStateKind::Done)
    );
    assert!(notifier.pop_unread().is_none());
}
