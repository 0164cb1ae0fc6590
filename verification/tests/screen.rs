use kodade_cli::config::Config;
use kodade_cli::geometry::Rect;
use kodade_cli::help::config_bindings;
use kodade_cli::input::{
    border_at, drag_delta, pane_at, tab_at, tab_spans, DragBorder, TabSpan,
};
use kodade_cli::mode::{Menu, MenuTarget};
use kodade_cli::proto::{
    AgentInfo, AgentStateKind, CellColor, Direction, LayoutSnapshot, LayoutTree, PaneId,
    PaneSnapshot, Run, Screen, SidebarTabInfo, SplitAxis, TabId, TabInfo, WorkspaceId,
    WorkspaceInfo, ATTR_BOLD, ATTR_DIM, ATTR_INVERSE, ATTR_ITALIC, ATTR_UNDERLINE,
};
use kodade_cli::render::{
    active_tab_name, blocked_count, border_color, content_area, cursor_cell, cursor_char,
    format_age, menu_lines, pane_directory, pane_flash, pane_lines, pane_rects_for, pane_title,
    sidebar_lines, sidebar_row_at, sidebar_rows, sidebar_width, status_left, status_right_spans,
    tab_bar_spans, tab_bar_start, tab_label, tab_scroll_offset, tab_spans_for, truncate_ellipsis,
    SidebarTarget, StatusWidget, Ui, SIDEBAR_WIDTH, TAB_PREFIX,
};
use kodade_cli::selection::{Selection, SelectionMode};
use kodade_cli::share::first_cells;
use kodade_cli::theme::{Color, Theme};

fn theme() -> Theme {
    let color = |n: u8| Color::Rgb(n, n, n);
    Theme {
        name: "test".into(),
        accent: color(1),
        border: color(2),
        text: color(3),
        dim: color(4),
        blocked: color(5),
        working: color(6),
        done: color(7),
        idle: color(8),
        tabbar_bg: color(9),
        status_bg: color(10),
        bg: color(11),
        surface: color(12),
        selection: color(13),
        cursor: color(14),
        menu_bg: color(15),
        menu_fg: color(16),
        tab_active_fg: color(17),
        tab_active_bg: color(18),
        sidebar_bg: color(19),
        ansi: (0..16).map(|n| Color::Rgb(0, n, 0)).collect(),
    }
}

fn snapshot() -> LayoutSnapshot {
    LayoutSnapshot {
        active_workspace: WorkspaceId(1),
        active_tab: TabId(2),
        workspaces: vec![
            WorkspaceInfo {
                id: WorkspaceId(1),
                name: "active".into(),
                active: true,
                state: AgentStateKind::Blocked,
                root: Some("/Users/keith/src/active".into()),
                color: None,
                branch: None,
                parent: None,
                tabs: vec![SidebarTabInfo {
                    id: TabId(2),
                    name: "agents".into(),
                    state: AgentStateKind::Blocked,
                    agents: vec![AgentInfo {
                        pane: PaneId(3),
                        name: "Codex".into(),
                        state: AgentStateKind::Blocked,
                        state_age_secs: 245,
                    }],
                }],
            },
            WorkspaceInfo {
                id: WorkspaceId(4),
                name: "other".into(),
                active: false,
                state: AgentStateKind::Done,
                root: None,
                color: None,
                branch: None,
                parent: None,
                tabs: vec![SidebarTabInfo {
                    id: TabId(5),
                    name: "hidden".into(),
                    state: AgentStateKind::Done,
                    agents: vec![],
                }],
            },
        ],
        tabs: vec![],
        tree: LayoutTree::Leaf { pane: PaneId(3) },
        panes: vec![],
        zoomed: false,
        restored: false,
    }
}

fn pane() -> PaneSnapshot {
    PaneSnapshot {
        id: PaneId(3),
        title: "zsh".into(),
        focused: true,
        scroll_offset: 0,
        screen: Screen::default(),
        agent: None,
        agent_generation: 0,
        activity_revision: 0,
        state: AgentStateKind::Idle,
        state_reason: String::new(),
        state_age_secs: 0,
        cwd: Some("/home/keith/src".into()),
    }
}

fn run(text: &str, fg: CellColor, bg: CellColor, attrs: u8) -> Run {
    Run {
        text: text.into(),
        fg,
        bg,
        attrs,
    }
}

fn tab(id: u64, name: &str, active: bool) -> TabInfo {
    TabInfo {
        id: TabId(id),
        name: name.into(),
        active,
        state: AgentStateKind::Idle,
    }
}

#[test]
fn tab_hit_testing_uses_rendered_spans() {
    let tabs = vec![tab(1, "shell", true), tab(2, "logs", false)];
    let spans = tab_spans(10, &tabs);
    assert_eq!(
        spans[0],
        TabSpan {
            id: TabId(1),
            start: 10,
            end: 17
        }
    );
    assert_eq!(tab_at(&spans, 16), Some(TabId(1)));
    assert_eq!(tab_at(&spans, 17), None);
    assert_eq!(tab_at(&spans, 18), Some(TabId(2)));
}

#[test]
fn border_hit_testing_and_drag_delta_are_cell_accurate() {
    let rects = [
        (PaneId(1), Rect::new(0, 1, 40, 10)),
        (PaneId(2), Rect::new(40, 1, 40, 10)),
    ];
    assert_eq!(
        border_at(&rects, 39, 4),
        Some(DragBorder {
            pane: PaneId(1),
            direction: Direction::Left,
            vertical: true
        })
    );
    assert_eq!(border_at(&rects, 42, 4), None);
    assert_eq!(drag_delta(40, 46), 6);
    assert_eq!(drag_delta(46, 40), -6);
    assert_eq!(pane_at(&rects, 41, 4), Some(PaneId(2)));
    assert_eq!(pane_at(&rects, 41, 0), None);
}

#[test]
fn sidebar_rows_expand_only_the_active_workspace_and_hit_test_targets() {
    let rows = sidebar_rows(&snapshot());
    assert_eq!(rows.len(), 4);
    assert_eq!(rows[0].label, "▾ active");
    assert_eq!(rows[1].target, SidebarTarget::Tab(TabId(2)));
    assert_eq!(rows[2].target, SidebarTarget::Pane(PaneId(3)));
    // Blocked agent rows carry a compact age label.
    assert_eq!(rows[2].label, "    Codex 4m");
    assert_eq!(rows[3].label, "▸ other");
    // Screen row 0 is the `workspaces` heading; the list starts at row 1.
    assert_eq!(sidebar_row_at(&rows, 0), None);
    assert_eq!(
        sidebar_row_at(&rows, 1).map(|row| &row.target),
        Some(&SidebarTarget::Workspace(WorkspaceId(1)))
    );
    assert_eq!(
        sidebar_row_at(&rows, 3).map(|row| &row.target),
        Some(&SidebarTarget::Pane(PaneId(3)))
    );
    assert_eq!(sidebar_row_at(&rows, 5), None);
}

#[test]
fn workspace_row_appends_a_differing_root_basename() {
    let mut layout = snapshot();
    layout.workspaces[0].name = "app".into();
    layout.workspaces[0].root = Some("/Users/keith/src/webapp".into());
    let rows = sidebar_rows(&layout);
    assert_eq!(rows[0].label, "▾ app  webapp");
    // A basename equal to the name is not repeated.
    layout.workspaces[0].root = Some("/Users/keith/src/app".into());
    assert_eq!(sidebar_rows(&layout)[0].label, "▾ app");
}

#[test]
fn tab_bar_spans_match_hit_test_span_widths() {
    let tabs = vec![
        TabInfo {
            id: TabId(1),
            name: "shell".into(),
            active: true,
            state: AgentStateKind::Idle,
        },
        TabInfo {
            id: TabId(2),
            name: "logs".into(),
            active: false,
            state: AgentStateKind::Working,
        },
    ];
    let workspace = "active";
    let mut layout = snapshot();
    layout.tabs = tabs.clone();
    // Rendered wordmark + workspace + 2 spaces before the first tab. A wide
    // area means no overflow, so the scroll offset is zero.
    let area = Rect::new(0, 0, 200, 24);
    let start = area.x + (TAB_PREFIX.chars().count() + workspace.chars().count() + 2) as u16;
    let spans = tab_spans_for(&layout, area);
    // Each hit-test span must be exactly as wide as the rendered label, and
    // the labels must be the ones tab_bar_spans draws.
    let mut column = start;
    for (span, tab) in spans.iter().zip(&tabs) {
        let label = tab_label(&tab.name, tab.active, tab.state);
        assert_eq!(span.start, column);
        assert_eq!(span.end - span.start, label.chars().count() as u16);
        column = span.end + 1; // single-space separator between tabs
    }
    assert_eq!(spans.len(), 2);
}

#[test]
fn runs_map_colors_through_the_theme_and_attributes_to_modifiers() {
    let theme = theme();
    let screen = Screen {
        rows: vec![vec![
            run("a", CellColor::Indexed(2), CellColor::Default, ATTR_BOLD),
            run(
                "b",
                CellColor::Indexed(200),
                CellColor::Rgb(1, 2, 3),
                ATTR_ITALIC | ATTR_UNDERLINE | ATTR_DIM | ATTR_INVERSE,
            ),
            run("c", CellColor::Default, CellColor::Default, 0),
        ]],
        ..Screen::default()
    };
    let lines = pane_lines(&screen, &theme, &None);
    let spans = &lines[0];
    // 0–15 come from the theme palette; 16+ stay terminal-indexed.
    assert_eq!(spans[0].style.fg, Some(theme.ansi[2]));
    assert_eq!(spans[0].style.bg, Some(theme.bg));
    assert!(spans[0].style.bold);
    assert_eq!(spans[1].style.fg, Some(Color::Indexed(200)));
    assert_eq!(spans[1].style.bg, Some(Color::Rgb(1, 2, 3)));
    let style = spans[1].style;
    assert!(style.italic && style.underlined && style.dim && style.reversed && !style.bold);
    // Default fg/bg fall back to the theme's text and pane background.
    assert_eq!(spans[2].style.fg, Some(theme.text));
    assert_eq!(spans[2].style.bg, Some(theme.bg));
    let style = spans[2].style;
    assert!(!style.bold && !style.italic && !style.underlined && !style.dim && !style.reversed);
}

#[test]
fn selected_cells_take_the_theme_selection_background() {
    let theme = theme();
    let screen = Screen {
        contents: "hello".into(),
        rows: vec![vec![run(
            "hello",
            CellColor::Default,
            CellColor::Default,
            0,
        )]],
        ..Screen::default()
    };
    let mut selection = Selection::new(PaneId(1), (0, 1), SelectionMode::Char, &screen);
    selection.set_head((0, 2), &screen);
    let lines = pane_lines(&screen, &theme, &Some(selection));
    let spans = &lines[0];
    // The run splits into before / selected / after.
    assert_eq!(spans.len(), 3);
    assert_eq!(spans[0].text, "h");
    assert_eq!(spans[0].style.bg, Some(theme.bg));
    assert_eq!(spans[1].text, "el");
    assert_eq!(spans[1].style.bg, Some(theme.selection));
    assert_eq!(spans[2].text, "lo");
    assert_eq!(spans[2].style.bg, Some(theme.bg));
}

#[test]
fn cursor_char_counts_wide_cells_as_two_columns() {
    let screen = Screen {
        cursor_row: 0,
        cursor_col: 2,
        rows: vec![vec![run("宽x", CellColor::Default, CellColor::Default, 0)]],
        ..Screen::default()
    };
    assert_eq!(cursor_char(&screen), Some('x'));
    let past_end = Screen {
        cursor_col: 9,
        ..screen
    };
    assert_eq!(cursor_char(&past_end), None);
}

#[test]
fn the_block_cursor_stays_inside_the_border() {
    let mut screen = Screen {
        cursor_row: 0,
        cursor_col: 0,
        cursor_visible: true,
        rows: vec![vec![run("宽x", CellColor::Default, CellColor::Default, 0)]],
        ..Screen::default()
    };
    let rect = Rect::new(4, 2, 6, 5);
    assert_eq!(cursor_cell(&screen, rect), Some((5, 3, 2)));
    screen.cursor_col = 4;
    assert_eq!(cursor_cell(&screen, rect), None);
    screen.cursor_col = 0;
    screen.cursor_visible = false;
    assert_eq!(cursor_cell(&screen, rect), None);
}

#[test]
fn focused_pane_draws_styled_cells_and_a_block_cursor() {
    let theme = theme();
    let mut layout = snapshot();
    layout.panes = vec![PaneSnapshot {
        screen: Screen {
            contents: "ok".into(),
            cursor_row: 0,
            cursor_col: 1,
            cursor_visible: true,
            rows: vec![vec![run("ok", CellColor::Indexed(1), CellColor::Default, 0)]],
            ..Screen::default()
        },
        ..pane()
    }];
    let screen = &layout.panes[0].screen;
    // Pane content starts one row below the tab bar and one cell inside the
    // border; `o` is themed red and `k` sits under the block cursor.
    let rects = pane_rects_for(&layout, content_area(Rect::new(0, 0, 40, 10), false));
    let rect = rects[0].1;
    assert_eq!((rect.inner().x, rect.inner().y), (2, 2));
    let lines = pane_lines(screen, &theme, &None);
    assert!(lines[0][0].text.starts_with('o'));
    assert_eq!(lines[0][0].style.fg, Some(theme.ansi[1]));
    assert_eq!(cursor_cell(screen, rect), Some((3, 2, 1)));
    assert_eq!(cursor_char(screen), Some('k'));
}

#[test]
fn format_age_uses_compact_units() {
    assert_eq!(format_age(4), "4s");
    assert_eq!(format_age(59), "59s");
    assert_eq!(format_age(245), "4m");
    assert_eq!(format_age(3600), "1h");
    assert_eq!(format_age(7300), "2h");
}

#[test]
fn content_area_leaves_a_sidebar_or_gutter() {
    let area = Rect::new(0, 0, 80, 24);
    assert_eq!(
        content_area(area, true),
        Rect::new(SIDEBAR_WIDTH, 0, 56, 24)
    );
    assert_eq!(content_area(area, false), Rect::new(1, 0, 79, 24));
    // Content width + sidebar/gutter width must cover the whole row so
    // `pane_cols` never drifts by the collapsed 1-col gutter.
    for sidebar in [true, false] {
        assert_eq!(
            content_area(area, sidebar).width + sidebar_width(sidebar),
            area.width
        );
    }
}

#[test]
fn narrow_screens_keep_a_cell_for_the_content() {
    assert_eq!(content_area(Rect::new(0, 0, 24, 5), true), Rect::new(23, 0, 1, 5));
    assert_eq!(content_area(Rect::new(3, 0, 10, 5), true), Rect::new(12, 0, 1, 5));
    assert_eq!(content_area(Rect::new(0, 0, 1, 5), false), Rect::new(0, 0, 1, 5));
    assert_eq!(content_area(Rect::new(0, 0, 0, 5), true), Rect::new(0, 0, 0, 5));
    let layout = snapshot_of(LayoutTree::Leaf { pane: PaneId(1) });
    assert_eq!(pane_rects_for(&layout, Rect::new(0, 2, 9, 3))[0].1, Rect::new(0, 3, 9, 1));
    let two = pane_rects_for(&layout, Rect::new(0, 2, 9, 2))[0].1;
    assert!(two == Rect::new(0, 2, 9, 1) || two == Rect::new(0, 3, 9, 1));
    assert_eq!(pane_rects_for(&layout, Rect::new(0, 2, 9, 1))[0].1, Rect::new(0, 2, 9, 1));
    assert_eq!(pane_rects_for(&layout, Rect::new(0, 2, 9, 0))[0].1, Rect::new(0, 2, 9, 0));
    let split = snapshot_of(LayoutTree::Split {
        axis: SplitAxis::Horizontal,
        ratio: 1.0f32.to_bits(),
        first: Box::new(LayoutTree::Leaf { pane: PaneId(1) }),
        second: Box::new(LayoutTree::Leaf { pane: PaneId(2) }),
    });
    for width in [1u16, 2, 3, 100, 4000, 65535] {
        let rects = pane_rects_for(&split, Rect::new(0, 0, width, 5));
        assert_eq!(rects[0].1, Rect::new(0, 1, width - 1, 3));
        assert_eq!(rects[1].1, Rect::new(width - 1, 1, 1, 3));
    }
    // Columns that no coordinate can say are not there.
    let wide = Rect { x: 65530, y: 0, width: 100, height: 5 };
    assert_eq!(content_area(wide, false), Rect { x: 65531, y: 0, width: 4, height: 5 });
    assert_eq!(content_area(wide, true), Rect { x: 65534, y: 0, width: 1, height: 5 });
}

#[test]
fn truncate_ellipsis_appends_a_marker_only_on_overflow() {
    assert_eq!(truncate_ellipsis("short", 10), "short");
    assert_eq!(truncate_ellipsis("exact", 5), "exact");
    assert_eq!(truncate_ellipsis("overlong", 5), "over…");
    assert_eq!(truncate_ellipsis("x", 0), "");
}

#[test]
fn tab_bar_scrolls_to_keep_the_active_tab_visible() {
    let mut layout = snapshot();
    layout.tabs = (1..=8)
        .map(|i| tab(i, &format!("tab{i}"), i == 6))
        .collect();
    // Narrow content area forces overflow (8 tabs, ~6 cols each).
    let area = Rect::new(0, 0, 40, 24);
    let start = tab_bar_start("active");
    let available = area.width - start;
    let spans = tab_spans_for(&layout, area);
    let active = spans
        .iter()
        .find(|span| span.id == TabId(6))
        .expect("active tab is drawn");
    // The active tab lands fully inside the visible tab strip.
    assert!(active.start >= area.x + start);
    assert!(active.end <= area.x + start + available);
    let label = tab_label("tab6", true, AgentStateKind::Idle);
    assert_eq!(active.end - active.start, label.chars().count() as u16);
    // The first tab scrolled off the left edge (absent or left-clipped).
    let first = spans.iter().find(|span| span.id == TabId(1));
    assert!(first.is_none_or(|span| span.start == area.x + start));
    assert!(tab_scroll_offset(&layout.tabs, available) > 0);
}

fn snapshot_of(tree: LayoutTree) -> LayoutSnapshot {
    let mut layout = snapshot();
    layout.tree = tree;
    layout
}

#[test]
fn panes_fill_the_area_between_the_bars() {
    let mut layout = snapshot();
    layout.tree = LayoutTree::Split {
        axis: SplitAxis::Horizontal,
        ratio: 0.5f32.to_bits(),
        first: Box::new(LayoutTree::Leaf { pane: PaneId(9) }),
        second: Box::new(LayoutTree::Split {
            axis: SplitAxis::Vertical,
            ratio: 0.25f32.to_bits(),
            first: Box::new(LayoutTree::Leaf { pane: PaneId(3) }),
            second: Box::new(LayoutTree::Leaf { pane: PaneId(4) }),
        }),
    };
    let rects = pane_rects_for(&layout, Rect::new(1, 0, 81, 22));
    assert_eq!(
        rects,
        vec![
            (PaneId(3), Rect::new(41, 1, 41, 5)),
            (PaneId(4), Rect::new(41, 6, 41, 15)),
            (PaneId(9), Rect::new(1, 1, 40, 20)),
        ]
    );
}

#[test]
fn shares_are_cut_as_single_precision_products_are() {
    for span in [0u16, 1, 2, 7, 40, 79, 80, 81, 200, 1000, 65535] {
        for ratio in [
            0.0f32,
            0.1,
            0.25,
            1.0 / 3.0,
            0.5,
            0.7,
            0.99999994,
            1.0,
            1.5,
            3.0e4,
            1.0e30,
            f32::MIN_POSITIVE,
            1.0e-45,
            -0.5,
            -0.0,
            f32::NAN,
            f32::INFINITY,
            f32::NEG_INFINITY,
        ] {
            let expected = ((span as f32 * ratio) as u16).max(1);
            assert_eq!(
                first_cells(span, ratio.to_bits()),
                expected,
                "{span} * {ratio}"
            );
        }
    }
}

#[test]
fn titles_name_the_pane_and_its_state() {
    let theme = theme();
    let mut shown = pane();
    let texts = |pane: &PaneSnapshot| {
        pane_title(pane, &theme)
            .into_iter()
            .map(|span| span.text)
            .collect::<String>()
    };
    assert_eq!(texts(&shown), "#3 zsh — idle");
    shown.agent = Some("Codex".into());
    shown.scroll_offset = 4;
    assert_eq!(texts(&shown), "#3 Codex — idle [scroll]");
    assert_eq!(pane_directory(&shown, 30), Some("src".to_string()));
    assert_eq!(pane_directory(&shown, 29), None);
    assert_eq!(
        border_color(&theme, AgentStateKind::Blocked, true),
        theme.blocked
    );
    assert_eq!(border_color(&theme, AgentStateKind::Idle, true), theme.accent);
    assert_eq!(
        border_color(&theme, AgentStateKind::Idle, false),
        theme.border
    );
    assert_eq!(
        pane_flash(PaneId(42), Rect::new(10, 4, 20, 6)),
        Some((" 42 ".to_string(), 18, 7, 4))
    );
    assert_eq!(pane_flash(PaneId(42), Rect::new(10, 4, 2, 6)), None);
}

#[test]
fn the_status_bar_shows_a_mode_or_the_place() {
    let layout = snapshot();
    let bindings = config_bindings(&Config::default());
    let mut ui = Ui {
        prefix: false,
        rename: false,
        new_workspace: false,
        name: "api".into(),
        navigate: false,
        copy: false,
        resize: false,
        confirm: None,
        session: "work".into(),
        sidebar_hint: false,
    };
    assert_eq!(status_left(&ui, &layout, &bindings), " work · active · agents");
    ui.sidebar_hint = true;
    assert_eq!(
        status_left(&ui, &layout, &bindings),
        " ▸ prefix b · sidebar · work · active · agents"
    );
    ui.prefix = true;
    assert!(status_left(&ui, &layout, &bindings).starts_with(" prefix: %"));
    assert_eq!(
        status_left(&ui, &layout, &bindings),
        " prefix: % \" c x z n W r d ?"
    );
    assert_eq!(status_left(&ui, &layout, &Vec::new()), " prefix: ");
    ui.copy = true;
    assert!(status_left(&ui, &layout, &bindings).starts_with(" copy mode"));
    ui.rename = true;
    assert_eq!(status_left(&ui, &layout, &bindings), " rename pane: api");
    ui.confirm = Some("close? y/n".into());
    assert_eq!(status_left(&ui, &layout, &bindings), " close? y/n");
    assert_eq!(active_tab_name(&layout), "agents");
}

#[test]
fn widgets_are_parted_by_two_columns() {
    let theme = theme();
    let mut layout = snapshot();
    assert_eq!(blocked_count(&layout), 1);
    let texts = |layout: &LayoutSnapshot, widgets: &Vec<StatusWidget>| {
        status_right_spans(widgets, layout, "box", "12:30", &theme)
            .into_iter()
            .map(|span| span.text)
            .collect::<String>()
    };
    let all = vec![
        StatusWidget::Zoom,
        StatusWidget::Blocked,
        StatusWidget::Hostname,
        StatusWidget::Time,
    ];
    assert_eq!(texts(&layout, &all), "● 1 blocked  box  12:30 ");
    layout.zoomed = true;
    assert_eq!(texts(&layout, &vec![StatusWidget::Zoom]), "[zoom] ");
    layout.zoomed = false;
    assert_eq!(texts(&layout, &vec![StatusWidget::Zoom]), "");
}

#[test]
fn sidebar_and_menu_lines_stop_at_the_end_of_their_area() {
    let theme = theme();
    let rows = sidebar_rows(&snapshot());
    let lines = sidebar_lines(&rows, Rect::new(0, 0, 10, 3), Some(1), &theme);
    assert_eq!(lines.len(), 2);
    assert_eq!(lines[0].0.text, "▾ active ●");
    assert_eq!(lines[0].1, 1);
    assert_eq!(lines[0].0.style.fg, Some(theme.blocked));
    assert_eq!(lines[1].0.style.bg, Some(theme.accent));
    let menu = Menu {
        target: MenuTarget::Workspace(WorkspaceId(1)),
        x: 70,
        y: 22,
        selected: 0,
    };
    let (lines, x, width) = menu_lines(&menu, Rect::new(0, 0, 80, 24), &theme);
    assert_eq!((x, width, lines.len()), (56, 14, 2));
    assert_eq!(lines[0].0.text, "Rename");
    assert_eq!(lines[0].0.style.bg, Some(theme.accent));
}

#[test]
fn blocked_state_tints_border_tab_and_workspace_row() {
    let theme = theme();
    let mut layout = snapshot();
    // The active workspace, its tab, and the pane are all blocked.
    layout.tabs = vec![tab(2, "agents", true)];
    layout.tabs[0].state = AgentStateKind::Blocked;
    layout.panes = vec![PaneSnapshot {
        agent: Some("Codex".into()),
        state: AgentStateKind::Blocked,
        ..pane()
    }];
    // Pane border.
    assert_eq!(
        border_color(&theme, layout.panes[0].state, layout.panes[0].focused),
        theme.blocked
    );
    // The tab bar carries the blocked tab label.
    assert!(tab_bar_spans(&layout.tabs, &theme)
        .iter()
        .any(|span| span.style.fg == Some(theme.blocked)));
    // The workspace row, below the heading, is tinted blocked.
    let rows = sidebar_rows(&layout);
    let lines = sidebar_lines(&rows, Rect::new(0, 0, SIDEBAR_WIDTH, 12), None, &theme);
    assert!(lines
        .iter()
        .any(|(span, row)| *row == 1 && span.style.fg == Some(theme.blocked)));
}

#[test]
fn blocked_tabs_are_tinted() {
    let theme = theme();
    let mut blocked = tab(1, "agents", true);
    blocked.state = AgentStateKind::Blocked;
    let spans = tab_bar_spans(&vec![blocked, tab(2, "logs", false)], &theme);
    let texts: Vec<&str> = spans.iter().map(|span| span.text.as_str()).collect();
    assert_eq!(texts, vec!["● [agents]", " ", " logs "]);
    assert_eq!(spans[0].style.fg, Some(theme.blocked));
    assert!(spans[0].style.bold);
    assert_eq!(spans[2].style.fg, Some(theme.text));
}
