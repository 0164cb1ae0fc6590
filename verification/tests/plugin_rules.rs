use kodade_cli::manifest::{
    plugin_id, plugin_version_gt, InvocationContext, PluginAction, PluginActionContext,
    PluginLinkHandler, PluginManifest, PluginPane,
};
use kodade_cli::plugins::{
    action, github_source, install_plan, installed, managed_install_root_in, palette_actions,
    pane_command, run_request, validate_manifest, ActionRun, InstallAction, InstallEvent,
    InstallPhase, InstalledPlugin, Installer, LoadedPlugin, PluginRegistry, ReadPlugin,
};
use kodade_cli::proto::{
    AgentStateKind, LayoutSnapshot, LayoutTree, PaneId, TabId, WorkspaceId, WorkspaceInfo,
};

fn manifest() -> PluginManifest {
    PluginManifest {
        manifest_version: 1,
        id: "demo-plugin".into(),
        name: "Demo".into(),
        version: "0.1.0".into(),
        min_kodade_version: None,
        build: None,
        actions: vec![PluginAction {
            id: "hello".into(),
            name: "Hello".into(),
            command: "printf hello".into(),
            description: String::new(),
            pane: false,
            contexts: vec![],
        }],
        startup: vec![],
        events: vec![],
        panes: vec![],
        link_handlers: vec![],
    }
}

fn loaded() -> LoadedPlugin {
    LoadedPlugin {
        manifest: manifest(),
        installed: InstalledPlugin {
            path: "/plugins/demo".into(),
            linked: true,
            enabled: true,
            version: "0.1.0".into(),
        },
    }
}

fn layout() -> LayoutSnapshot {
    LayoutSnapshot {
        active_workspace: WorkspaceId(1),
        active_tab: TabId(2),
        workspaces: vec![WorkspaceInfo {
            id: WorkspaceId(1),
            name: "repo".into(),
            active: true,
            state: AgentStateKind::Idle,
            root: None,
            color: None,
            branch: None,
            parent: None,
            tabs: vec![],
        }],
        tabs: vec![],
        tree: LayoutTree::Leaf { pane: PaneId(3) },
        panes: vec![],
        zoomed: false,
        restored: false,
    }
}

#[test]
fn manifest_rejects_unsupported_versions_and_duplicate_actions() {
    let mut invalid = manifest();
    invalid.manifest_version = 2;
    assert!(validate_manifest(&invalid).is_err());
    let mut duplicate = manifest();
    duplicate.actions.push(duplicate.actions[0].clone());
    assert!(validate_manifest(&duplicate).is_err());
    assert!(validate_manifest(&manifest()).is_ok());
}

#[test]
fn github_sources_are_constrained() {
    assert_eq!(
        github_source("owner/repo/subdir").unwrap(),
        ("owner".into(), "repo".into(), Some("subdir".into()))
    );
    assert!(github_source("Kodade/ExamplePlugin").is_ok());
    assert!(github_source("owner/../repo").is_err());
    assert!(github_source("https://github.com/owner/repo").is_err());
}

#[test]
fn pane_wrapper_preserves_context_without_interpolating_command() {
    let command = pane_command(
        "demo-plugin",
        "/tmp/demo plugin",
        "printf '%s' \"$KODADE_PLUGIN\"",
        Some("hello"),
        "work",
        "42",
    );
    assert_eq!(command[0], "env");
    assert!(command.contains(&"KODADE_PLUGIN=demo-plugin".into()));
    assert!(command.contains(&"KODADE_ACTION=hello".into()));
    assert!(command.contains(&"KODADE_TARGET_PANE=42".into()));
    assert!(!command
        .iter()
        .any(|value| value.starts_with("KODADE_PANE=")));
    assert!(command.contains(&"KODADE_PLUGIN_COMMAND=printf '%s' \"$KODADE_PLUGIN\"".into()));
    assert_eq!(
        command.last().map(String::as_str),
        Some("cd \"$KODADE_PLUGIN_DIR\" && sh -lc \"$KODADE_PLUGIN_COMMAND\"")
    );
}

#[test]
fn registered_plugins_are_found_until_they_are_removed() {
    let mut registry = PluginRegistry::default();
    registry
        .register(&manifest(), "/plugins/demo".into(), true)
        .unwrap();
    assert!(registry.get("demo-plugin").unwrap().enabled);
    assert!(registry
        .register(&manifest(), "/other".into(), true)
        .is_err());
    registry.set_enabled("demo-plugin", false).unwrap();
    assert!(!registry.get("demo-plugin").unwrap().enabled);
    assert!(registry.set_enabled("gone", true).is_err());
    assert!(registry.managed_path("demo-plugin").is_err());
    registry.unlink("demo-plugin").unwrap();
    assert!(registry.get("demo-plugin").is_none());
}

#[test]
fn managed_installs_lead_to_their_whole_clone() {
    assert_eq!(
        managed_install_root_in("/c/plugins/managed", "/c/plugins/managed/owner-repo/sub"),
        Ok("/c/plugins/managed/owner-repo".to_string())
    );
    assert!(managed_install_root_in("/c/plugins/managed", "/elsewhere").is_err());
}

#[test]
fn actions_run_with_data_kept_out_of_the_shell() {
    let plugins = vec![loaded()];
    assert_eq!(palette_actions(&plugins).len(), 1);
    let (plugin, found) = action(&plugins, "demo-plugin", "hello").unwrap();
    match run_request(plugin, found, &layout(), "work", "/tmp/s.sock") {
        ActionRun::Process {
            arguments,
            directory,
            environment,
        } => {
            assert_eq!(directory, "/plugins/demo");
            assert!(arguments.contains(&"printf hello".to_string()));
            assert!(environment
                .iter()
                .any(|(name, value)| name == "KODADE_SESSION" && value == "work"));
        }
        other => panic!("{other:?}"),
    }
    assert!(action(&plugins, "demo-plugin", "gone").is_err());
    let mut disabled = loaded();
    disabled.installed.enabled = false;
    assert!(palette_actions(&vec![disabled]).is_empty());
}

#[test]
fn installed_plugins_must_match_their_entries() {
    let read = |id: &str, manifest| ReadPlugin {
        id: id.to_string(),
        installed: loaded().installed,
        manifest,
    };
    assert_eq!(
        installed(vec![read("demo-plugin", Ok(manifest()))])
            .unwrap()
            .len(),
        1
    );
    assert!(installed(vec![read("other", Ok(manifest()))]).is_err());
    assert!(installed(vec![read("demo-plugin", Err("unreadable".to_string()))]).is_err());
}

#[test]
fn an_installation_goes_step_by_step() {
    let plan = install_plan("owner/repo", "/c/plugins/managed", "7").unwrap();
    assert!(plan.clone_arguments().contains(&plan.staging));
    let mut installer = Installer::start(plan, PluginRegistry::default());
    assert_eq!(
        installer.step(InstallEvent::Checked { exists: false }),
        InstallAction::Clone
    );
    assert_eq!(
        installer.step(InstallEvent::Exited { success: true }),
        InstallAction::ReadManifest
    );
    let mut built = manifest();
    built.build = Some("make".into());
    assert_eq!(
        installer.step(InstallEvent::Manifest(built.clone())),
        InstallAction::Build("make".into())
    );
    assert_eq!(
        installer.step(InstallEvent::Exited { success: true }),
        InstallAction::Publish
    );
    assert!(installer.registry.get("demo-plugin").is_none());
    assert_eq!(
        installer.step(InstallEvent::Finished),
        InstallAction::WriteRegistry
    );
    let entry = installer.registry.get("demo-plugin").expect("an entry");
    assert_eq!(entry.path, "/c/plugins/managed/owner-repo");
    assert!(entry.enabled && !entry.linked);
    assert_eq!(installer.step(InstallEvent::Finished), InstallAction::Done);
    assert_eq!(installer.manifest, Some(built));
}

#[test]
fn an_installation_refuses_what_is_registered() {
    let plan = install_plan("owner/repo", "/c/plugins/managed", "7").unwrap();
    let mut registry = PluginRegistry::default();
    registry.register(&manifest(), "/plugins/demo".into(), true).unwrap();
    let mut installer = Installer::start(plan, registry.clone());
    installer.step(InstallEvent::Checked { exists: false });
    installer.step(InstallEvent::Exited { success: true });
    match installer.step(InstallEvent::Manifest(manifest())) {
        InstallAction::Fail { message, .. } => {
            assert_eq!(message, "plugin demo-plugin is already registered")
        }
        other => panic!("{other:?}"),
    }
    assert_eq!(installer.manifest, None);
    assert_eq!(installer.registry, registry);
}

#[test]
fn a_failed_installation_removes_its_staging() {
    let plan = install_plan("owner/repo", "/c/plugins/managed", "7").unwrap();
    let staging = plan.staging.clone();
    let mut installer = Installer {
        plan,
        registry: PluginRegistry::default(),
        phase: InstallPhase::Starting,
        manifest: None,
    };
    installer.step(InstallEvent::Checked { exists: false });
    match installer.step(InstallEvent::Exited { success: false }) {
        InstallAction::Fail { remove, .. } => assert_eq!(remove, Some(staging)),
        other => panic!("{other:?}"),
    }
}

#[test]
fn manifest_rules_are_each_reported() {
    assert!(plugin_id("demo-plugin"));
    assert!(!plugin_id("Demo Plugin"));
    assert_eq!(plugin_version_gt("0.3.0", "0.2.1"), Ok(true));
    assert_eq!(plugin_version_gt("0.2.1", "0.2.1"), Ok(false));
    assert!(plugin_version_gt("latest", "0.2.1").is_err());
    let mut newer = manifest();
    newer.min_kodade_version = Some("9.0.0".into());
    assert!(validate_manifest(&newer).is_err());
    let mut unnamed = manifest();
    unnamed.panes.push(PluginPane {
        name: String::new(),
        command: "true".into(),
    });
    assert!(validate_manifest(&unnamed).is_err());
    let mut handler = manifest();
    handler.link_handlers.push(PluginLinkHandler {
        id: "open".into(),
        title: "Open".into(),
        pattern: "https://example.com/*".into(),
        action: "gone".into(),
    });
    assert!(validate_manifest(&handler).is_err());
}

#[test]
fn contexts_limit_where_an_action_is_offered() {
    let mut context = InvocationContext::default();
    let mut action = manifest().actions[0].clone();
    assert!(context.supports(&action));
    action.contexts = vec![PluginActionContext::Selection];
    assert!(!context.supports(&action));
    context.selected_text = Some("text".into());
    assert!(context.supports(&action));
}
