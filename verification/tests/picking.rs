use kodade_cli::picker::{
    filter, fuzzy_score, goto_items, workspace_items, PickTarget, Picker,
};
use kodade_cli::proto::{
    AgentInfo, AgentStateKind, LayoutSnapshot, LayoutTree, PaneId, SidebarTabInfo, TabId, TabInfo,
    WorkspaceId, WorkspaceInfo,
};

fn agent(name: &str, pane: u64, state: AgentStateKind) -> AgentInfo {
    AgentInfo {
        pane: PaneId(pane),
        name: name.into(),
        state,
        state_age_secs: 0,
    }
}

fn snapshot() -> LayoutSnapshot {
    let workspaces = vec![
        WorkspaceInfo {
            id: WorkspaceId(1),
            name: "alpha".into(),
            active: true,
            state: AgentStateKind::Idle,
            root: Some("/home/keith/repos/alpha-src".into()),
            color: None,
            branch: None,
            parent: None,
            tabs: vec![SidebarTabInfo {
                id: TabId(1),
                name: "edit".into(),
                state: AgentStateKind::Working,
                agents: vec![
                    agent("Cline", 10, AgentStateKind::Working),
                    agent("Codex", 11, AgentStateKind::Idle),
                ],
            }],
        },
        WorkspaceInfo {
            id: WorkspaceId(2),
            name: "beta".into(),
            active: false,
            state: AgentStateKind::Blocked,
            root: None,
            color: None,
            branch: None,
            parent: None,
            tabs: vec![
                SidebarTabInfo {
                    id: TabId(2),
                    name: "run".into(),
                    state: AgentStateKind::Blocked,
                    agents: vec![agent("Grok", 20, AgentStateKind::Blocked)],
                },
                SidebarTabInfo {
                    id: TabId(3),
                    name: "logs".into(),
                    state: AgentStateKind::Idle,
                    agents: vec![],
                },
            ],
        },
    ];
    LayoutSnapshot {
        active_workspace: WorkspaceId(1),
        active_tab: TabId(1),
        workspaces,
        tabs: vec![TabInfo {
            id: TabId(1),
            name: "edit".into(),
            active: true,
            state: AgentStateKind::Working,
        }],
        tree: LayoutTree::Leaf { pane: PaneId(10) },
        panes: vec![],
        zoomed: false,
        restored: false,
    }
}

#[test]
fn workspace_items_carry_counts_and_root_basename() {
    let items = workspace_items(&snapshot());
    assert_eq!(items.len(), 2);
    assert_eq!(items[0].label, "alpha");
    assert_eq!(items[0].detail, "1 tab · alpha-src");
    // beta has no root and two tabs.
    assert_eq!(items[1].detail, "2 tabs");
    assert_eq!(items[1].state, AgentStateKind::Blocked);
}

#[test]
fn goto_items_flatten_every_level_with_breadcrumbs() {
    let items = goto_items(&snapshot());
    // 2 workspaces + 3 tabs + 3 agents.
    assert_eq!(items.len(), 8);
    assert!(items.iter().any(|item| item.label == "alpha › edit › Codex"
        && item.target == PickTarget::Pane(PaneId(11))));
    assert!(items
        .iter()
        .any(|item| item.label == "beta › run" && item.target == PickTarget::Tab(TabId(2))));
}

#[test]
fn cod_lands_the_codex_pane_first() {
    let items = goto_items(&snapshot());
    let ranked = filter(&items, "cod");
    assert_eq!(ranked[0].target, PickTarget::Pane(PaneId(11)));
    assert!(ranked[0].label.contains("Codex"));
}

#[test]
fn blocked_entries_sort_to_the_top() {
    let items = goto_items(&snapshot());
    // Empty query keeps original order but floats blocked entries up.
    let ranked = filter(&items, "");
    assert_eq!(ranked.len(), items.len());
    assert_eq!(ranked[0].state, AgentStateKind::Blocked);
    // The two blocked rows (beta workspace + run tab + Grok pane) lead.
    let blocked = ranked
        .iter()
        .take_while(|item| item.state == AgentStateKind::Blocked)
        .count();
    assert_eq!(blocked, 3);
}

#[test]
fn empty_query_keeps_original_order_within_a_group() {
    let items = workspace_items(&snapshot());
    let ranked = filter(&items, "");
    // beta is blocked so it leads; alpha (idle) follows, order preserved.
    assert_eq!(ranked[0].label, "beta");
    assert_eq!(ranked[1].label, "alpha");
}

#[test]
fn fuzzy_score_rewards_word_starts_and_runs() {
    // A contiguous, word-start match beats a scattered one.
    let tight = fuzzy_score("cl", "Cline").unwrap();
    let loose = fuzzy_score("cl", "canonical").unwrap();
    assert!(tight > loose);
    // Non-subsequence returns None.
    assert!(fuzzy_score("zzz", "Cline").is_none());
    // Empty query always matches.
    assert_eq!(fuzzy_score("", "anything"), Some(0));
}

#[test]
fn picker_filter_rebuilds_rows_and_maps_selection() {
    let mut picker = Picker::new("goto", goto_items(&snapshot()));
    picker.overlay.filter = Some("cod".into());
    picker.apply_filter();
    assert!(!picker.overlay.rows.is_empty());
    picker.overlay.selected = 0;
    assert_eq!(picker.current_target(), Some(PickTarget::Pane(PaneId(11))));
}

#[test]
fn an_empty_query_keeps_every_entry() {
    let items = goto_items(&snapshot());
    assert_eq!(filter(&items, "").len(), items.len());
    // What is shown holds the letters of the query in order.
    for item in filter(&items, "br") {
        let lower = item.label.to_lowercase();
        let b = lower.find('b').expect("a b");
        assert!(lower[b..].contains('r'), "{lower}");
    }
}
