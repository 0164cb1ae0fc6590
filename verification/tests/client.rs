use kodade_cli::app::{
    bytes, close_tab_prompt, close_workspace_prompt, pane_cols, parse_workspace_prompt, App, Flow,
};
use kodade_cli::config::Config;
use kodade_cli::event::{KeyCode, KeyEvent, KeyModifiers, MouseButton, MouseEventKind};
use kodade_cli::geometry::Rect;
use kodade_cli::help::BoundAction;
use kodade_cli::mode::{Menu, MenuTarget};
use kodade_cli::proto::{
    AgentInfo, AgentStateKind, ClientMessage, Direction, LayoutSnapshot, LayoutTree, PaneId,
    PaneSnapshot, Screen, SidebarTabInfo, SplitAxis, TabId, TabInfo, WorkspaceId, WorkspaceInfo,
};
use kodade_cli::render::sidebar_width;

fn key(code: KeyCode) -> KeyEvent {
    KeyEvent {
        code,
        modifiers: KeyModifiers::none(),
    }
}

fn control(c: char) -> KeyEvent {
    KeyEvent {
        code: KeyCode::Char(c),
        modifiers: KeyModifiers {
            shift: false,
            control: true,
            alt: false,
        },
    }
}

fn agent(state: AgentStateKind) -> AgentInfo {
    AgentInfo {
        pane: PaneId(1),
        name: "codex".into(),
        state,
        state_age_secs: 0,
    }
}

fn tab(states: &[AgentStateKind]) -> SidebarTabInfo {
    SidebarTabInfo {
        id: TabId(2),
        name: "agents".into(),
        state: AgentStateKind::Idle,
        agents: states.iter().copied().map(agent).collect(),
    }
}

fn pane(id: u64, focused: bool) -> PaneSnapshot {
    PaneSnapshot {
        id: PaneId(id),
        title: "zsh".into(),
        focused,
        scroll_offset: 0,
        screen: Screen {
            contents: "first\nsecond".into(),
            rows: vec![vec![], vec![]],
            ..Screen::default()
        },
        agent: None,
        agent_generation: 0,
        activity_revision: 0,
        state: AgentStateKind::Idle,
        state_reason: String::new(),
        state_age_secs: 0,
        cwd: Some("/Users/keith/src/repo".into()),
    }
}

fn layout(states: &[AgentStateKind], focused: u64) -> LayoutSnapshot {
    LayoutSnapshot {
        active_workspace: WorkspaceId(1),
        active_tab: TabId(2),
        workspaces: vec![WorkspaceInfo {
            id: WorkspaceId(1),
            name: "main".into(),
            active: true,
            state: AgentStateKind::Idle,
            root: None,
            color: None,
            branch: None,
            parent: None,
            tabs: vec![tab(states)],
        }],
        tabs: vec![TabInfo {
            id: TabId(2),
            name: "agents".into(),
            active: true,
            state: AgentStateKind::Idle,
        }],
        tree: LayoutTree::Split {
            axis: SplitAxis::Horizontal,
            ratio: 0.5f32.to_bits(),
            first: Box::new(LayoutTree::Leaf { pane: PaneId(1) }),
            second: Box::new(LayoutTree::Leaf { pane: PaneId(3) }),
        },
        panes: vec![pane(1, focused == 1), pane(3, focused == 3)],
        zoomed: false,
        restored: false,
    }
}

fn app() -> App {
    let mut app = App::new(Config::default(), "work");
    app.handle_layout(layout(&[AgentStateKind::Working], 1));
    app
}

fn press(app: &mut App, event: KeyEvent) -> Vec<ClientMessage> {
    app.handle_key(event, 100, 30, &None).messages
}

#[test]
fn pane_cols_reserve_the_sidebar() {
    assert_eq!(pane_cols(100, true), 100 - sidebar_width(true).min(100));
    assert_eq!(pane_cols(1, true), 1);
}

#[test]
fn close_prompts_appear_only_for_busy_agents() {
    assert_eq!(close_tab_prompt(&tab(&[AgentStateKind::Idle])), None);
    assert_eq!(
        close_tab_prompt(&tab(&[AgentStateKind::Working, AgentStateKind::Working])),
        Some("close tab \"agents\" with 2 working agents? y/n".into())
    );
    // Blocked panes do not block a tab close, but they do a workspace close.
    let workspace = WorkspaceInfo {
        id: WorkspaceId(1),
        name: "main".into(),
        active: true,
        state: AgentStateKind::Blocked,
        root: None,
        color: None,
        branch: None,
        parent: None,
        tabs: vec![tab(&[AgentStateKind::Blocked, AgentStateKind::Idle])],
    };
    assert_eq!(close_tab_prompt(&workspace.tabs[0]), None);
    assert_eq!(
        close_workspace_prompt(&workspace),
        Some("close workspace \"main\" with 1 active agent? y/n".into())
    );
}

#[test]
fn workspace_prompt_parses_name_and_path() {
    let home = Some("/Users/keith".to_string());
    let cwd = Some("/Users/keith/src/repo".to_string());
    // NAME PATH, with ~ expansion.
    assert_eq!(
        parse_workspace_prompt("api ~/src/api", &cwd, &home),
        ("api".to_owned(), Some("/Users/keith/src/api".to_owned()))
    );
    // Lone name → path defaults to the focused cwd.
    assert_eq!(
        parse_workspace_prompt("api", &cwd, &home),
        ("api".to_owned(), Some("/Users/keith/src/repo".to_owned()))
    );
    // Lone path → name defaults to its basename.
    assert_eq!(
        parse_workspace_prompt("/tmp/thing", &cwd, &home),
        ("thing".to_owned(), Some("/tmp/thing".to_owned()))
    );
    // Empty → cwd basename as the name.
    assert_eq!(
        parse_workspace_prompt("", &cwd, &home),
        ("repo".to_owned(), Some("/Users/keith/src/repo".to_owned()))
    );
    assert_eq!(
        parse_workspace_prompt("", &None, &home),
        ("workspace".to_owned(), None)
    );
}

#[test]
fn key_bytes_encode_control_and_alt() {
    assert_eq!(bytes(control('c')), Some(vec![3]));
    assert_eq!(
        bytes(KeyEvent {
            code: KeyCode::Char('b'),
            modifiers: KeyModifiers {
                shift: false,
                control: false,
                alt: true,
            },
        }),
        Some(vec![27, b'b'])
    );
    assert_eq!(bytes(key(KeyCode::Up)), Some(b"\x1b[A".to_vec()));
    assert_eq!(bytes(key(KeyCode::F(4))), Some(b"\x1bOS".to_vec()));
    assert_eq!(bytes(key(KeyCode::F(11))), Some(b"\x1b[23~".to_vec()));
    assert_eq!(bytes(key(KeyCode::F(13))), None);
    assert_eq!(bytes(key(KeyCode::Char('é'))), Some("é".as_bytes().to_vec()));
}

#[test]
fn keys_reach_the_pane_unless_the_prefix_comes_first() {
    let mut app = app();
    assert_eq!(
        press(&mut app, key(KeyCode::Char('a'))),
        vec![ClientMessage::Input {
            bytes: b"a".to_vec()
        }]
    );
    assert!(press(&mut app, control('b')).is_empty());
    assert!(app.prefix);
    assert_eq!(
        press(&mut app, key(KeyCode::Char('%'))),
        vec![ClientMessage::SplitRight]
    );
    // The prefix twice is passed on.
    press(&mut app, control('b'));
    assert_eq!(
        press(&mut app, control('b')),
        vec![ClientMessage::Input { bytes: vec![2] }]
    );
    press(&mut app, control('b'));
    let effect = app.handle_key(key(KeyCode::Char('d')), 100, 30, &None);
    assert_eq!(effect.flow, Flow::Detach);
}

#[test]
fn busy_tabs_are_closed_only_after_a_yes() {
    let mut app = app();
    let (sent, _) = app.perform(BoundAction::CloseTab, 100, 30);
    assert!(sent.is_empty());
    assert!(press(&mut app, key(KeyCode::Char('n'))).is_empty());
    assert!(app.confirm.is_none());
    app.perform(BoundAction::CloseTab, 100, 30);
    assert_eq!(
        press(&mut app, key(KeyCode::Char('y'))),
        vec![ClientMessage::CloseTab { id: TabId(2) }]
    );
    // Without a working agent nothing is asked.
    app.handle_layout(layout(&[AgentStateKind::Idle], 1));
    let (sent, _) = app.perform(BoundAction::CloseTab, 100, 30);
    assert_eq!(sent, vec![ClientMessage::CloseTab { id: TabId(2) }]);
}

#[test]
fn names_are_typed_and_given() {
    let mut app = app();
    app.perform(BoundAction::RenameTab, 100, 30);
    press(&mut app, key(KeyCode::Char('a')));
    press(&mut app, key(KeyCode::Char('b')));
    press(&mut app, key(KeyCode::Backspace));
    assert_eq!(
        press(&mut app, key(KeyCode::Enter)),
        vec![ClientMessage::RenameTabId {
            id: TabId(2),
            name: "a".into()
        }]
    );
    assert!(!app.rename);
    app.perform(BoundAction::NewWorkspace, 100, 30);
    press(&mut app, key(KeyCode::Char('x')));
    assert_eq!(
        press(&mut app, key(KeyCode::Enter)),
        vec![ClientMessage::NewWorkspace {
            name: "x".into(),
            root: Some("/Users/keith/src/repo".into())
        }]
    );
}

#[test]
fn the_last_pane_is_remembered() {
    let mut app = app();
    assert_eq!(app.perform(BoundAction::LastPane, 100, 30).0, vec![]);
    app.handle_layout(layout(&[], 3));
    assert_eq!(
        app.perform(BoundAction::LastPane, 100, 30).0,
        vec![ClientMessage::FocusPaneId { id: PaneId(1) }]
    );
}

#[test]
fn copy_mode_marks_and_copies() {
    let mut app = app();
    app.perform(BoundAction::CopyMode, 100, 30);
    press(&mut app, key(KeyCode::Char('k')));
    press(&mut app, key(KeyCode::Char('v')));
    press(&mut app, key(KeyCode::Char('l')));
    assert_eq!(
        press(&mut app, control('u')),
        vec![ClientMessage::ScrollPane {
            id: PaneId(1),
            delta: 20
        }]
    );
    let effect = app.handle_key(key(KeyCode::Char('y')), 100, 30, &None);
    assert!(effect.clipboard.unwrap().starts_with("\x1b]52;c;"));
    assert_eq!(app.note.as_deref(), Some(" copied"));
    assert!(app.copy.is_none());
}

#[test]
fn resize_mode_stays_until_it_is_left() {
    let mut app = app();
    app.perform(BoundAction::ResizeMode, 100, 30);
    assert_eq!(
        press(&mut app, key(KeyCode::Char('L'))),
        vec![ClientMessage::ResizePane {
            direction: Direction::Right,
            cells: 5
        }]
    );
    assert!(app.resize);
    press(&mut app, key(KeyCode::Esc));
    assert!(!app.resize);
}

#[test]
fn the_sidebar_is_walked_and_left() {
    let mut app = app();
    app.perform(BoundAction::Navigate, 100, 30);
    press(&mut app, key(KeyCode::Char('j')));
    assert_eq!(app.navigate, Some(1));
    assert_eq!(
        press(&mut app, key(KeyCode::Enter)),
        vec![ClientMessage::SelectTab { id: TabId(2) }]
    );
    assert_eq!(app.navigate, None);
}

#[test]
fn menus_run_the_entry_under_the_pointer() {
    let mut app = app();
    app.menu = Some(Menu {
        target: MenuTarget::Pane(PaneId(3)),
        x: 10,
        y: 5,
        selected: 0,
    });
    let sent = app.handle_mouse(
        MouseEventKind::Down(MouseButton::Left),
        11,
        6,
        (100, 30),
    );
    assert_eq!(
        sent,
        vec![
            ClientMessage::FocusPaneId { id: PaneId(3) },
            ClientMessage::SplitDown
        ]
    );
    assert!(app.menu.is_none());
}

#[test]
fn clicks_find_panes_tabs_and_borders() {
    let mut app = app();
    let content = Rect::new(sidebar_width(app.sidebar), 0, 100 - sidebar_width(app.sidebar), 30);
    let down = MouseEventKind::Down(MouseButton::Left);
    // The left half of the content holds the first pane.
    assert_eq!(
        app.handle_mouse(down, content.x + 5, 10, (100, 30)),
        vec![ClientMessage::FocusPaneId { id: PaneId(1) }]
    );
    // The border between the panes is dragged.
    let border = content.x + content.width / 2;
    app.handle_mouse(down, border, 10, (100, 30));
    assert_eq!(
        app.handle_mouse(
            MouseEventKind::Drag(MouseButton::Left),
            border + 3,
            10,
            (100, 30)
        ),
        vec![ClientMessage::ResizePane {
            direction: Direction::Left,
            cells: 3
        }]
    );
    app.handle_mouse(MouseEventKind::Up(MouseButton::Left), border + 3, 10, (100, 30));
    assert!(app.drag.is_none());
    // The wheel scrolls the pane under the pointer.
    assert_eq!(
        app.handle_mouse(MouseEventKind::ScrollUp, content.x + 5, 10, (100, 30)),
        vec![ClientMessage::ScrollPane {
            id: PaneId(1),
            delta: 3
        }]
    );
    // The first tab starts behind the name of the workspace.
    assert_eq!(
        app.handle_mouse(down, content.x + 18, 0, (100, 30)),
        vec![ClientMessage::SelectTab { id: TabId(2) }]
    );
    // Without the mouse nothing happens.
    app.config.mouse = false;
    assert!(app
        .handle_mouse(down, content.x + 5, 10, (100, 30))
        .is_empty());
}
