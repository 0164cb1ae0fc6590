use kodade_cli::integrations::{
    gemini_hooks, hooks_preview, integrations, list_line, manifest_names, merge_codex_notify,
    merge_hooks, merge_settings, notify_preview, prompt_hooks, report_command, title_of,
    validate_download, vendor_of, Entry, EventValue, Hook, REPORT_PREFIX,
};
use serde_json::Value;

fn hook(command: &str, rest: &str) -> Hook {
    Hook {
        command: Some(command.to_string()),
        json: rest.to_string(),
    }
}

fn commands(table: &[(String, EventValue)], event: &str) -> Vec<Vec<String>> {
    match table.iter().find(|(name, _)| name == event) {
        Some((_, EventValue::Entries(entries))) => entries
            .iter()
            .map(|entry| {
                entry
                    .hooks
                    .iter()
                    .flatten()
                    .filter_map(|hook| hook.command.clone())
                    .collect()
            })
            .collect(),
        _ => Vec::new(),
    }
}

#[test]
fn gemini_uses_its_documented_lifecycle_events() {
    let hooks = gemini_hooks();
    let has = |event: &str| hooks.iter().any(|(name, _)| name == event);
    assert!(has("BeforeAgent"));
    assert!(has("AfterAgent"));
    assert!(!has("Stop"));
    assert!(!has("UserPromptSubmit"));
}

#[test]
fn manifest_index_rejects_traversal_and_duplicates() {
    for index in [
        "../config.toml",
        "/tmp/config.toml",
        "codex.toml\ncodex.toml",
        "",
    ] {
        assert!(manifest_names(index).is_err());
    }
    assert_eq!(
        manifest_names("codex.toml\ngemini-cli.toml\n").unwrap(),
        vec!["codex.toml", "gemini-cli.toml"]
    );
}

#[test]
fn an_index_holds_a_bounded_number_of_names() {
    let names: Vec<String> = (0..129).map(|n| format!("agent{n}.toml")).collect();
    assert!(manifest_names(&names[..128].join("\n")).is_ok());
    assert_eq!(
        manifest_names(&names.join("\n")),
        Err("manifest index must contain 1–128 entries".to_string())
    );
    assert_eq!(
        manifest_names("a b.toml"),
        Err("invalid or duplicate manifest filename: a b.toml".to_string())
    );
}

#[test]
fn downloads_must_carry_the_name_of_their_file() {
    assert!(validate_download("test.toml", &Ok("test".to_string())).is_ok());
    assert_eq!(
        validate_download("test.toml", &Ok("other".to_string())),
        Err("manifest name does not match test.toml".to_string())
    );
    assert_eq!(
        validate_download("test.toml", &Err("no rules".to_string())),
        Err("no rules".to_string())
    );
}

#[test]
fn codex_notify_merge_preserves_and_guards() {
    // Fresh config: notify is added and the report command is present.
    let merged = merge_codex_notify("model = \"gpt-5\"\n", false)
        .unwrap()
        .expect("notify inserted");
    assert!(merged.contains("model = \"gpt-5\""));
    assert!(merged.contains("kodade-cli agent report"));
    // Existing notify without --force is left untouched.
    assert!(merge_codex_notify("notify = [\"x\"]\n", false)
        .unwrap()
        .is_none());
    // --force replaces it.
    let forced = merge_codex_notify("notify = [\"x\"]\n", true)
        .unwrap()
        .expect("notify replaced");
    assert!(forced.contains("kodade-cli agent report"));
    assert!(!forced.contains("\"x\""));
    // An earlier one of this client is renewed without being asked.
    let again = merge_codex_notify(&merged, false)
        .unwrap()
        .expect("notify renewed");
    assert_eq!(again, merged);
    assert_eq!(
        merge_codex_notify("not = = toml", false),
        Err("parse Codex config.toml".to_string())
    );
    assert!(notify_preview().starts_with("notify = ["));
    assert!(!notify_preview().ends_with('\n'));
}

#[test]
fn a_setting_once_made_is_renewed() {
    for source in [
        "",
        "# only a comment",
        "a = 1",
        "notify.on = true\n[tools]\nx = 1\n",
        "# above\n[ notify ] # beside\nx = 1\n[notify.sub]\ny = 2\n[z]\nw = 3\n",
        "[[notify]]\nx = 1\n[[notify]]\nx = 2\n",
        "[a.b]\nx = 1\n",
        "\"notify\" = 'x' # beside\n",
    ] {
        let forced = merge_codex_notify(source, true)
            .unwrap()
            .expect("notify set");
        let again = merge_codex_notify(&forced, false)
            .unwrap()
            .expect("notify renewed");
        assert!(again.contains("kodade-cli agent report"));
        assert!(merge_codex_notify(&again, false).unwrap().is_some());
        let before = source.parse::<toml::Table>().unwrap();
        let after = forced.parse::<toml::Table>().unwrap();
        for (key, value) in before.iter().filter(|(key, _)| *key != "notify") {
            assert_eq!(after.get(key), Some(value));
        }
        assert!(after.len() <= before.len() + 1);
    }
    assert_eq!(
        merge_codex_notify("", false).unwrap().unwrap().trim_end(),
        notify_preview()
    );
}

#[test]
fn merges_claude_settings_without_duplicate_hooks() {
    // Seed a retired Stop->idle hook plus an unrelated user hook.
    let source = r#"{"theme":"dark","hooks":{"Stop":[{"hooks":[{"type":"command","command":"kodade-cli agent report $KODADE_PANE idle -s \"$KODADE_SESSION\""}]},{"hooks":[{"type":"command","command":"echo keep"}]}]}}"#;
    let once = merge_settings(&Some(source.to_string()), prompt_hooks()).unwrap();
    let twice = merge_settings(&Some(once.clone()), prompt_hooks()).unwrap();
    assert_eq!(twice, once);
    let settings: Value = serde_json::from_str(&twice).unwrap();
    assert_eq!(settings["theme"], "dark");
    let stop = settings["hooks"]["Stop"].as_array().unwrap();
    // The retired idle hook is replaced (not duplicated); the user hook stays.
    assert_eq!(stop.len(), 2);
    assert!(stop
        .iter()
        .any(|entry| entry["hooks"][0]["command"] == "echo keep"));
    // The Ködade Stop hook now reports `done`, not the retired `idle`.
    assert!(stop.iter().any(|entry| {
        entry["hooks"][0]["command"]
            .as_str()
            .is_some_and(|c| c.contains(" done "))
    }));
    assert!(!stop.iter().any(|entry| {
        entry["hooks"][0]["command"]
            .as_str()
            .is_some_and(|c| c.contains(" idle "))
    }));
    assert_eq!(
        settings["hooks"]["Notification"].as_array().unwrap().len(),
        1
    );
}

#[test]
fn upgrading_integration_preserves_sibling_hooks_and_matcher() {
    let own = serde_json::to_string(&format!("{REPORT_PREFIX}idle")).unwrap();
    let source = format!(
        r#"{{"hooks": {{"Stop": [{{"matcher": "custom", "hooks": [
            {{"type": "command", "command": {own}}},
            {{"type": "command", "command": "echo user-hook", "timeout": 42}}
        ]}}]}}}}"#
    );
    let once = merge_settings(&Some(source), prompt_hooks()).unwrap();
    let twice = merge_settings(&Some(once), prompt_hooks()).unwrap();
    let updated: Value = serde_json::from_str(&twice).unwrap();
    let entries = updated["hooks"]["Stop"].as_array().unwrap();
    let kept: Value = serde_json::from_str(
        r#"{"matcher": "custom", "hooks": [{"type":"command", "command":"echo user-hook", "timeout":42}]}"#,
    )
    .unwrap();
    assert!(
        entries.iter().any(|entry| entry == &kept),
        "unrelated hook and its entry metadata must survive: {updated}"
    );
}

#[test]
fn everything_else_in_a_settings_file_survives() {
    let source = r#"{"a":[1,2.5,0.30000000000000004,null],"hooks":{"Stop":{"not":"a list"},"Empty":[],"Odd":["text",7,{"hooks":"none"},{"x":1}]},"z":{"deep":{"er":"ä \" \\ "}}}"#;
    let merged = merge_settings(&Some(source.to_string()), gemini_hooks()).unwrap();
    assert!(merged.ends_with("}\n"));
    let before: Value = serde_json::from_str(source).unwrap();
    let after: Value = serde_json::from_str(&merged).unwrap();
    assert_eq!(after["a"], before["a"]);
    assert_eq!(after["z"], before["z"]);
    assert_eq!(after["hooks"]["Stop"], before["hooks"]["Stop"]);
    assert_eq!(after["hooks"]["Odd"], before["hooks"]["Odd"]);
    // An event without entries is taken out.
    assert!(after["hooks"].get("Empty").is_none());
    let entry = &after["hooks"]["AfterAgent"][0];
    assert_eq!(entry["matcher"], "*");
    assert_eq!(entry["hooks"][0]["type"], "command");
    assert_eq!(entry["hooks"][0]["command"], report_command("done"));
    // Without new hooks, only those of this client go.
    let cleaned = merge_settings(&Some(merged), Vec::new()).unwrap();
    let cleaned: Value = serde_json::from_str(&cleaned).unwrap();
    assert!(cleaned["hooks"].get("AfterAgent").is_none());
    assert_eq!(cleaned["hooks"]["Odd"], before["hooks"]["Odd"]);
}

#[test]
fn broken_settings_are_named() {
    let merge = |source: &str| merge_settings(&Some(source.to_string()), prompt_hooks());
    assert_eq!(merge("{"), Err("parse settings.json".to_string()));
    assert_eq!(
        merge("[]"),
        Err("settings.json must be an object".to_string())
    );
    assert_eq!(
        merge(r#"{"hooks":[]}"#),
        Err("hooks must be an object".to_string())
    );
    assert_eq!(
        merge(r#"{"hooks":{"Stop":"text"}}"#),
        Err("hook event must be an array".to_string())
    );
    // A missing file is one without settings, and the preview shows the same.
    let fresh = merge_settings(&None, prompt_hooks()).unwrap();
    assert_eq!(fresh, hooks_preview(prompt_hooks()) + "\n");
}

#[test]
fn merged_tables_hold_no_hook_twice() {
    // A retired hook of this client beside one of the user.
    let table = vec![(
        "Stop".to_string(),
        EventValue::Entries(vec![
            Entry {
                json: "{}".to_string(),
                hooks: Some(vec![hook(&report_command("idle"), "{}")]),
            },
            Entry {
                json: "{}".to_string(),
                hooks: Some(vec![hook("echo keep", "{}")]),
            },
        ]),
    )];
    let once = merge_hooks(table, prompt_hooks()).unwrap();
    let stop = commands(&once, "Stop");
    assert_eq!(stop.len(), 2);
    assert!(stop.contains(&vec!["echo keep".to_string()]));
    assert!(stop.contains(&vec![report_command("done")]));
    let first = format!("{once:?}");
    let twice = merge_hooks(once, prompt_hooks()).unwrap();
    assert_eq!(format!("{twice:?}"), first);
}

#[test]
fn integrations_are_named_by_their_ids() {
    let list = integrations("cline-code");
    let rows: Vec<_> = list
        .iter()
        .map(|row| (row.id.as_str(), row.target.as_str(), row.mechanism))
        .collect();
    assert_eq!(
        rows,
        vec![
            ("cline-code", ".cline/settings.json", "hooks"),
            ("codex", ".codex/config.toml", "notify"),
            ("gemini-cli", ".gemini/settings.json", "hooks"),
        ]
    );
    assert_eq!(title_of("cline-code"), "Cline Code");
    assert_eq!(vendor_of("codex"), "codex");
}

#[test]
fn integrations_are_listed_in_columns() {
    assert_eq!(
        list_line(
            "codex",
            true,
            &Some("/home/k".to_string()),
            ".codex/config.toml",
            "notify"
        ),
        "codex        available  /home/k/.codex/config.toml (notify)"
    );
    assert_eq!(
        list_line("codex", false, &None, ".codex/config.toml", "notify"),
        "codex        not found  .codex/config.toml (notify)"
    );
}

#[test]
fn merging_a_file_again_changes_nothing() {
    let deep = format!("{{\"a\":{}1{}}}", "[".repeat(126), "]".repeat(126));
    let own = report_command("done");
    let shared = format!(
        r#"{{"theme":"dark","zoom":1.10,"big":123456789012345678901234567890,"tiny":-0,
            "hooks":{{"Zed":[{{"matcher":"x","hooks":[{{"command":"mine","n":1e3}},
            {{"command":{own:?}}}]}},7,"word",{{"none":null}}],"Alpha":"text",
            "Stop":[{{"hooks":[{{"command":{own:?},"type":"command"}}]}}]}}}}"#
    );
    for source in [deep.clone(), shared, "{}".to_string(), "{\"a\":\"\\u00e9\\n\"}".to_string()] {
        for new in [prompt_hooks, gemini_hooks] {
            let once = merge_settings(&Some(source.clone()), new()).unwrap();
            let twice = merge_settings(&Some(once.clone()), new()).unwrap();
            assert_eq!(twice, once);
            let before: Value = serde_json::from_str(&source).unwrap();
            let after: Value = serde_json::from_str(&once).unwrap();
            for (key, value) in before.as_object().unwrap() {
                if key != "hooks" {
                    assert_eq!(&after[key], value);
                }
            }
        }
    }
    let deeper = format!("{{\"a\":{}1{}}}", "[".repeat(127), "]".repeat(127));
    assert_eq!(
        merge_settings(&Some(deeper), prompt_hooks()),
        Err("parse settings.json".to_string())
    );
}
