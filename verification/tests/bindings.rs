use kodade_cli::app::{App, Flow};
use kodade_cli::config::{parse_key_chord, Action, Config, FileConfig};
use kodade_cli::geometry::Rect;
use kodade_cli::help::{
    attach_hint, chords_for, config_bindings, help_table, key_entries, keys_text, label_of, mark_seen,
    markdown_table, overlay, prefix_hint, render_chord, state_seen, Binding, BoundAction, Group,
};
use kodade_cli::manifest::{
    InvocationContext, PluginAction, PluginActionContext, PluginManifest,
};
use kodade_cli::overlay::render_overlay;
use kodade_cli::palette::{known_agents, Palette, PaletteTarget};
use kodade_cli::plugins::{palette_actions_for, InstalledPlugin, LoadedPlugin};
use kodade_cli::proto::ClientMessage;
use kodade_cli::theme::{Color, Theme};

/// The configuration that a file makes.
fn from_toml_str(source: &str) -> Config {
    let table = source.parse::<toml::Table>().expect("a configuration");
    let keys = table["keys"].as_table().expect("a key table");
    let texts = |value: &toml::Value| match value {
        toml::Value::Array(list) => list
            .iter()
            .map(|chord| chord.as_str().expect("a chord").to_string())
            .collect(),
        other => vec![other.as_str().expect("a chord").to_string()],
    };
    Config::from_file(FileConfig {
        keys: Some(
            keys.iter()
                .map(|(name, value)| (name.clone(), texts(value)))
                .collect(),
        ),
        ..FileConfig::default()
    })
}

/// A configuration that overrides split_right to a global chord and remaps help.
fn remapped() -> Vec<Binding> {
    let config =
        from_toml_str("\n[keys]\nsplit_right = [\"ctrl+alt+v\"]\nhelp = [\"F1\"]\n");
    assert!(config.warnings.is_empty());
    config_bindings(&config)
}

fn palette() -> Palette {
    Palette::with_plugin_context(
        "cline-code",
        &Ok(Vec::new()),
        &InvocationContext::default(),
        &config_bindings(&Config::default()),
    )
}

#[test]
fn table_reflects_remapped_chords_not_defaults() {
    let split = help_table(&remapped())
        .into_iter()
        .flat_map(|group| group.rows)
        .find(|row| row.action == "split_right")
        .expect("split_right present");
    assert_eq!(split.chords, vec!["ctrl+alt+v".to_string()]);
    assert!(split.global);
    // The default `%` is gone.
    assert!(!split.chords.iter().any(|chord| chord == "%"));
}

#[test]
fn attach_hint_tracks_the_prefix() {
    let config = Config::default();
    let bindings = config_bindings(&config);
    assert_eq!(
        attach_hint(&render_chord(config.prefix), &bindings),
        "ctrl+b ? for help"
    );
    // Remapping the prefix changes the first-attach hint.
    let config = from_toml_str("[keys]\nprefix = \"ctrl+space\"\n");
    assert_eq!(
        attach_hint(&render_chord(config.prefix), &config_bindings(&config)),
        "ctrl+space ? for help"
    );
    assert_eq!(attach_hint("ctrl+b", &remapped()), "ctrl+b F1 for help");
}

#[test]
fn prefix_hint_tracks_the_bindings() {
    let default = prefix_hint(&config_bindings(&Config::default()));
    assert!(default.starts_with("% \" c x z"));
    // Remapping split_right to a global chord changes the hint.
    let hint = prefix_hint(&remapped());
    assert!(hint.starts_with("ctrl+alt+v"));
    // At most twelve chords.
    assert!(default.split(' ').count() <= 12);
}

#[test]
fn overlay_has_a_header_per_group_plus_a_row_per_action() {
    let state = overlay(&config_bindings(&Config::default()));
    let headers = Group::order().len();
    let actions = Action::all().len();
    assert_eq!(state.overlay.rows.len(), headers + actions);
    assert_eq!(state.entries.len(), actions);
    // Filtering to a needle drops the headers and keeps only matches.
    let mut state = state;
    state.overlay.filter = Some("workspace".into());
    state.apply_filter();
    assert!(state.overlay.rows.iter().all(|row| row
        .label
        .to_lowercase()
        .contains("workspace")
        || row.hint.to_lowercase().contains("workspace")));
    assert!(!state.overlay.rows.is_empty());
}

#[test]
fn keys_text_groups_and_aligns() {
    let text = keys_text(&config_bindings(&Config::default()));
    assert!(text.starts_with("PANES\n"));
    assert!(text.contains("split right"));
    assert!(text.contains("MODES\n"));
    assert!(text.contains("help"));
    assert!(text.ends_with('\n') && !text.ends_with("\n\n"));
    assert!(text.contains("  new tab         c\n"), "{text}");
}

#[test]
fn keys_json_is_an_array_of_entries() {
    let entries = key_entries(&config_bindings(&Config::default()));
    assert_eq!(entries.len(), Action::all().len());
    assert!(entries
        .iter()
        .any(|entry| entry.action == "split_right" && entry.group == "panes"));
}

#[test]
fn state_file_round_trips_and_tolerates_junk() {
    // Missing file reads as not seen.
    assert!(!state_seen(&None));
    let written = mark_seen(&None);
    assert!(state_seen(&written));
    // Everything else in the file stays.
    let merged = mark_seen(&Some("sidebar = false\n".to_string())).expect("written");
    assert!(merged.contains("sidebar = false"));
    assert!(state_seen(&Some(merged)));
    // Invalid TOML also reads as not seen instead of erroring.
    assert!(!state_seen(&Some("not = valid = toml".to_string())));
    assert!(!state_seen(&Some("help_seen = false".to_string())));
    let mended = mark_seen(&Some("not = valid = toml".to_string()));
    assert!(state_seen(&mended));
}

#[test]
fn only_long_runs_of_quotes_stop_a_state_file() {
    let run = |count: usize| Some(format!("x = '{}'\n", "\"".repeat(count)));
    assert!(state_seen(&mark_seen(&run(255))));
    assert_eq!(mark_seen(&run(256)), None);
    let escaped = |count: usize| Some(format!("x = \"a{}b\"\n", "\\\"".repeat(count)));
    assert!(state_seen(&mark_seen(&escaped(255))));
    assert_eq!(mark_seen(&escaped(256)), None);
    let codes = |count: usize| Some(format!("x = \"{}\"\n", "\\u0027".repeat(count)));
    assert!(state_seen(&mark_seen(&codes(255))));
    assert_eq!(mark_seen(&codes(256)), None);
    let folded = format!("x = \"\"\"a{}b\"\"\"\n", "\\U00000022\\ \n\t".repeat(256));
    assert_eq!(mark_seen(&Some(folded)), None);
    // Hundreds of quotes that other characters part are no matter.
    let many: String = (0..300).map(|n| format!("k{n} = \"it's \\\" {n}\"\n")).collect();
    let flags = "a = true\nb = false\nhelp_seen = false\n[t]\na = 1\n";
    let kept = mark_seen(&Some(flags.to_string())).expect("written");
    let kept = kept.parse::<toml::Table>().expect("a document");
    assert_eq!(kept["a"].as_bool(), Some(true));
    assert_eq!(kept["b"].as_bool(), Some(false));
    assert_eq!(kept["help_seen"].as_bool(), Some(true));
    assert_eq!(kept["t"]["a"].as_integer(), Some(1));
    let written = mark_seen(&Some(many)).expect("written");
    assert!(written.contains("k299"));
    assert!(state_seen(&Some(written)));
    // An unreadable file counts as empty, however many quotes it has.
    assert!(state_seen(&mark_seen(&Some("'".repeat(300)))));
}

#[test]
fn the_documentation_table_lists_every_action() {
    let table = markdown_table(&remapped());
    assert!(table.starts_with("| Action name | Default |\n|---|---|\n"));
    assert!(table.contains("| `split_right` | `ctrl+alt+v` |\n"));
    let unbound = vec![Binding {
        name: "zoom".to_string(),
        action: BoundAction::Zoom,
        chords: Vec::new(),
    }];
    assert!(markdown_table(&unbound).ends_with("| `zoom` | unbound |\n"));
    assert_eq!(label_of(BoundAction::SelectTabIndex(3)), "select tab 3");
}

#[test]
fn written_chords_are_read_back() {
    let config = Config::from_file(FileConfig {
        keys: Some(vec![
            ("zoom".into(), vec!["alt+z".into(), "prefix+ctrl+alt+space".into()]),
            ("detach".into(), vec!["F9".into()]),
        ]),
        ..FileConfig::default()
    });
    assert!(config.warnings.is_empty());
    for (key, _) in config.bindings.iter().chain(&config.globals) {
        assert_eq!(parse_key_chord(&render_chord(*key)), Ok(*key));
    }
}

#[test]
fn chords_after_the_prefix_are_told_from_those_on_their_own() {
    let config = from_toml_str(
        "[keys]\nzoom = [\"alt+z\", \"prefix+alt+y\", \"Z\"]\ndetach = \"ctrl+q\"\n",
    );
    assert_eq!(
        chords_for(&config, Action::Zoom),
        vec!["prefix+alt+y", "Z", "alt+z"]
    );
    assert_eq!(chords_for(&config, Action::Detach), vec!["ctrl+q"]);
    let rows: Vec<_> = help_table(&config_bindings(&config))
        .into_iter()
        .flat_map(|group| group.rows)
        .collect();
    assert!(rows.iter().any(|row| row.action == "zoom" && row.global));
    assert!(rows.iter().any(|row| row.action == "rename" && !row.global));
    // The earlier keys are free again, on both sides.
    assert_eq!(config.action(parse_key_chord("z").unwrap()), None);
    assert_eq!(config.action(parse_key_chord("d").unwrap()), None);
    let alt_z = parse_key_chord("alt+z").unwrap();
    assert_eq!(config.global_action(alt_z), Some(Action::Zoom));
    assert_eq!(config.action(alt_z), None);
    let only_prefixed = from_toml_str("[keys]\nzoom = \"prefix+alt+y\"\n");
    assert!(help_table(&config_bindings(&only_prefixed))
        .into_iter()
        .flat_map(|group| group.rows)
        .all(|row| !row.global));
}

#[test]
fn keys_bound_on_their_own_need_no_prefix() {
    let config = from_toml_str("[keys]\nnext_tab = \"alt+n\"\ndetach = \"ctrl+q\"\n");
    let mut app = App::new(config, "work");
    let effect = app.handle_key(parse_key_chord("alt+n").unwrap(), 80, 24, &None);
    assert_eq!(effect.messages, vec![ClientMessage::NextTab]);
    assert_eq!(effect.flow, Flow::Continue);
    let effect = app.handle_key(parse_key_chord("ctrl+q").unwrap(), 80, 24, &None);
    assert!(effect.messages.is_empty());
    assert_eq!(effect.flow, Flow::Detach);
    // Another key still goes to the pane.
    let effect = app.handle_key(parse_key_chord("alt+m").unwrap(), 80, 24, &None);
    assert_eq!(
        effect.messages,
        vec![ClientMessage::Input { bytes: vec![27, b'm'] }]
    );
}

#[test]
fn command_center_finds_agent_by_command_name() {
    let mut palette = palette();
    palette.overlay.filter = Some("codex".into());
    palette.apply_filter();
    assert!(
        matches!(palette.current_target(), Some(PaletteTarget::Agent { command, .. }) if command == vec!["codex"])
    );
}

#[test]
fn command_center_keeps_live_action_bindings_discoverable() {
    // A default binding is enough to prove the public palette exposes it.
    let palette = palette();
    assert!(palette
        .overlay
        .rows
        .iter()
        .any(|row| row.label.contains("split right") && !row.hint.is_empty()));
}

#[test]
fn command_center_includes_actions_that_end_the_client_loop() {
    let palette = palette();
    assert!(palette
        .overlay
        .rows
        .iter()
        .any(|row| row.label.contains("detach")));
    assert!(palette.overlay.rows[0].label.contains("Codex"));
    let labels: Vec<_> = palette.overlay.rows[..6]
        .iter()
        .map(|row| row.label.as_str())
        .collect();
    assert_eq!(
        labels,
        vec![
            "agent · Codex",
            "agent · Cline Code",
            "agent · Gemini CLI",
            "agent · OpenCode",
            "agent · Pi",
            "agent · shell"
        ]
    );
    assert_eq!(
        known_agents("cline-code")[1],
        ("Cline Code".to_string(), "cline".to_string())
    );
}

#[test]
fn command_center_renders_in_narrow_and_wide_terminals() {
    let theme = Theme {
        name: "plain".into(),
        accent: Color::Reset,
        border: Color::Reset,
        text: Color::Reset,
        dim: Color::Reset,
        blocked: Color::Reset,
        working: Color::Reset,
        done: Color::Reset,
        idle: Color::Reset,
        tabbar_bg: Color::Reset,
        status_bg: Color::Reset,
        bg: Color::Reset,
        surface: Color::Reset,
        selection: Color::Reset,
        cursor: Color::Reset,
        menu_bg: Color::Reset,
        menu_fg: Color::Reset,
        tab_active_fg: Color::Reset,
        tab_active_bg: Color::Reset,
        sidebar_bg: Color::Reset,
        ansi: vec![Color::Reset; 16],
    };
    let palette = palette();
    for (width, height) in [(20, 8), (100, 24)] {
        let view = render_overlay(Rect::new(0, 0, width, height), &palette.overlay, &theme);
        let rendered: String = view
            .lines
            .iter()
            .flat_map(|line| line.spans.iter().map(|span| span.text.as_str()))
            .collect();
        assert!(rendered.contains("agent"), "{rendered}");
        if width > 20 {
            assert!(view.title.contains("command center"));
            assert!(rendered.contains("agent · Codex"));
        }
    }
}

#[test]
fn the_command_center_shows_plugins_or_why_there_are_none() {
    let mut context = InvocationContext::default();
    let broken = Palette::with_plugin_context(
        "cline-code",
        &Err("unreadable".to_string()),
        &context,
        &Vec::new(),
    );
    let row = broken.overlay.rows.last().expect("a row");
    assert_eq!(row.label, "plugin registry unavailable");
    assert_eq!(row.hint, "unreadable");
    let action = |id: &str, contexts: Vec<PluginActionContext>| PluginAction {
        id: id.into(),
        name: "Hello".into(),
        command: "printf hello".into(),
        description: "greets".into(),
        pane: true,
        contexts,
    };
    let plugin = |enabled: bool| LoadedPlugin {
        manifest: PluginManifest {
            manifest_version: 1,
            id: "demo".into(),
            name: "Demo".into(),
            version: "0.1.0".into(),
            min_kodade_version: None,
            build: None,
            actions: vec![
                action("everywhere", vec![]),
                action("marked", vec![PluginActionContext::Selection]),
                action("tab", vec![PluginActionContext::Global, PluginActionContext::Tab]),
            ],
            startup: vec![],
            events: vec![],
            panes: vec![],
            link_handlers: vec![],
        },
        installed: InstalledPlugin {
            path: "/plugins/demo".into(),
            linked: true,
            enabled,
            version: "0.1.0".into(),
        },
    };
    let plugins = vec![plugin(true), plugin(false)];
    let ids = |context: &InvocationContext| -> Vec<String> {
        palette_actions_for(&plugins, context)
            .into_iter()
            .map(|offer| offer.action.id)
            .collect()
    };
    assert_eq!(ids(&context), vec!["everywhere"]);
    context.tab_id = Some("4".into());
    assert_eq!(ids(&context), vec!["everywhere", "tab"]);
    context.selected_text = Some("text".into());
    assert_eq!(ids(&context), vec!["everywhere", "marked", "tab"]);
    let context = InvocationContext::default();
    let mut palette =
        Palette::with_plugin_context("cline-code", &Ok(plugins), &context, &Vec::new());
    palette.overlay.filter = Some("greets".into());
    palette.apply_filter();
    assert_eq!(palette.overlay.rows.len(), 1);
    assert_eq!(palette.overlay.rows[0].label, "plugin · demo · Hello");
    assert_eq!(palette.overlay.rows[0].hint, "open pane");
    assert!(matches!(
        palette.current_target(),
        Some(PaletteTarget::PluginAction { pane: true, .. })
    ));
}
