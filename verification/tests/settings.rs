use kodade_cli::config::{parse_binding, parse_key_chord, Action, Config, FileConfig, ThemeChoice};
use kodade_cli::event::{KeyCode, KeyEvent, KeyModifiers};
use kodade_cli::proto::ClientMessage;
use kodade_cli::theme::{
    background_reply, builtin_theme, parse_hex_color, theme_for_background, Color, Theme,
    ThemeFile, ThemeSource,
};

const ANSI: [&str; 16] = [
    "black",
    "red",
    "green",
    "yellow",
    "blue",
    "magenta",
    "cyan",
    "white",
    "bright_black",
    "bright_red",
    "bright_green",
    "bright_yellow",
    "bright_blue",
    "bright_magenta",
    "bright_cyan",
    "bright_white",
];

fn file(source: &str) -> ThemeFile {
    let table = source.parse::<toml::Table>().expect("theme is toml");
    let text = |key: &str| table.get(key).and_then(|v| v.as_str()).map(str::to_owned);
    let ansi = |key: &str| {
        table
            .get("ansi")
            .and_then(|v| v.get(key))
            .and_then(|v| v.as_str())
            .map(str::to_owned)
    };
    ThemeFile {
        name: text("name").unwrap(),
        accent: text("accent").unwrap(),
        border: text("border").unwrap(),
        text: text("text").unwrap(),
        dim: text("dim").unwrap(),
        blocked: text("blocked").unwrap(),
        working: text("working").unwrap(),
        done: text("done").unwrap(),
        idle: text("idle").unwrap(),
        tabbar_bg: text("tabbar_bg").unwrap(),
        status_bg: text("status_bg").unwrap(),
        bg: text("bg"),
        surface: text("surface"),
        selection: text("selection"),
        cursor: text("cursor"),
        menu_bg: text("menu_bg"),
        menu_fg: text("menu_fg"),
        tab_active_fg: text("tab_active_fg"),
        tab_active_bg: text("tab_active_bg"),
        sidebar_bg: text("sidebar_bg"),
        ansi: ANSI.iter().map(|key| ansi(key)).collect(),
    }
}

fn parse(source: &str) -> Result<Theme, String> {
    Theme::from_file(&file(source))
}

fn plain(code: KeyCode) -> KeyEvent {
    KeyEvent {
        code,
        modifiers: KeyModifiers::none(),
    }
}

#[test]
fn ten_field_theme_falls_back_for_optional_fields() {
    // A legacy user theme with only the original 10 fields must still load.
    let source = "\
name = \"legacy\"
accent = \"#112233\"
border = \"#445566\"
text = \"#778899\"
dim = \"#010203\"
blocked = \"#111111\"
working = \"#222222\"
done = \"#333333\"
idle = \"#444444\"
tabbar_bg = \"#0a0b0c\"
status_bg = \"#0d0e0f\"
";
    let theme = parse(source).expect("legacy theme loads");
    // Fallbacks: bg→tabbar_bg, surface→status_bg, selection→border,
    // cursor→accent, menu_bg→status_bg, menu_fg→text, tab_active_fg→accent,
    // tab_active_bg→tabbar_bg, sidebar_bg→tabbar_bg.
    assert_eq!(theme.bg, theme.tabbar_bg);
    assert_eq!(theme.surface, theme.status_bg);
    assert_eq!(theme.selection, theme.border);
    assert_eq!(theme.cursor, theme.accent);
    assert_eq!(theme.menu_bg, theme.status_bg);
    assert_eq!(theme.menu_fg, theme.text);
    assert_eq!(theme.tab_active_fg, theme.accent);
    assert_eq!(theme.tab_active_bg, theme.tabbar_bg);
    assert_eq!(theme.sidebar_bg, theme.tabbar_bg);
    // Missing [ansi] → standard xterm palette.
    assert_eq!(theme.ansi[1], Color::Rgb(0x80, 0x00, 0x00));
    assert_eq!(theme.ansi[9], Color::Rgb(0xff, 0x00, 0x00));
}

#[test]
fn partial_ansi_table_overrides_only_listed_keys() {
    let source = "\
name = \"partial\"
accent = \"#112233\"
border = \"#445566\"
text = \"#778899\"
dim = \"#010203\"
blocked = \"#111111\"
working = \"#222222\"
done = \"#333333\"
idle = \"#444444\"
tabbar_bg = \"#0a0b0c\"
status_bg = \"#0d0e0f\"

[ansi]
red = \"#abcdef\"
";
    let theme = parse(source).expect("partial ansi loads");
    assert_eq!(theme.ansi[1], Color::Rgb(0xab, 0xcd, 0xef)); // overridden
    assert_eq!(theme.ansi[2], Color::Rgb(0x00, 0x80, 0x00)); // xterm default
}

#[test]
fn osc11_query_guarded_to_auto_only() {
    // #24: terminal_background() (OSC 11) must only run for `auto`. Named,
    // dark, and light arms resolve fixed built-ins and never query.
    assert_eq!(Config::default().theme, ThemeChoice::Auto);
    for name in ["dark", "light", "kodade-dark", "tokyo-night"] {
        let config = Config::from_file(FileConfig {
            theme: Some(name.into()),
            ..FileConfig::default()
        });
        assert_ne!(config.theme, ThemeChoice::Auto);
    }
}

#[test]
fn parses_hex_colors_and_theme_toml() {
    assert_eq!(parse_hex_color("#7aa2f7"), Ok(Color::Rgb(122, 162, 247)));
    assert!(parse_hex_color("#xyz").is_err());
    assert_eq!(builtin_theme("kodade-dark"), Some("kodade-dark"));
    let mut bad = file(
        "name='x'\naccent='#112233'\nborder='#112233'\ntext='#112233'\ndim='#112233'\n\
         blocked='#112233'\nworking='#112233'\ndone='#112233'\nidle='#112233'\n\
         tabbar_bg='#112233'\nstatus_bg='#112233'",
    );
    assert!(Theme::from_file(&bad).is_ok());
    bad.cursor = Some("red".to_string());
    assert!(Theme::from_file(&bad).is_err());
}

#[test]
fn parses_key_chords() {
    assert_eq!(
        parse_key_chord("ctrl+b"),
        Ok(KeyEvent {
            code: KeyCode::Char('b'),
            modifiers: KeyModifiers {
                shift: false,
                control: true,
                alt: false
            }
        })
    );
    assert_eq!(
        parse_key_chord("alt+x"),
        Ok(KeyEvent {
            code: KeyCode::Char('x'),
            modifiers: KeyModifiers {
                shift: false,
                control: false,
                alt: true
            }
        })
    );
    assert_eq!(parse_key_chord("F1"), Ok(plain(KeyCode::F(1))));
    assert!(parse_key_chord("shift+x").is_err());
    let both = KeyModifiers {
        shift: false,
        control: true,
        alt: true,
    };
    assert_eq!(
        parse_key_chord("ctrl+alt+v"),
        Ok(KeyEvent {
            code: KeyCode::Char('v'),
            modifiers: both
        })
    );
    assert!(parse_key_chord("alt+ctrl+v").is_err());
    assert_eq!(parse_key_chord("space"), Ok(plain(KeyCode::Char(' '))));
    assert!(parse_key_chord("ctrl+ctrl+v").is_err());
    assert_eq!(
        parse_binding("prefix+alt+v").map(|binding| binding.0),
        Ok(false)
    );
    assert_eq!(parse_binding("alt+v").map(|binding| binding.0), Ok(true));
    assert_eq!(parse_binding("v").map(|binding| binding.0), Ok(false));
    assert_eq!(
        parse_binding("prefix+nope"),
        Err("unsupported key chord nope".to_string())
    );
    assert_eq!(
        Action::WorkspaceNext.message(),
        Some(ClientMessage::SelectWorkspaceDelta { delta: 1 })
    );
}

#[test]
fn bindings_keep_defaults_and_replace_overrides() {
    let defaults = Config::default();
    assert_eq!(
        defaults.action(parse_key_chord("%").unwrap()),
        Some(Action::SplitRight)
    );
    let config = Config::from_file(FileConfig {
        keys: Some(vec![("split_right".into(), vec!["s".into()])]),
        ..FileConfig::default()
    });
    assert_eq!(config.action(parse_key_chord("%").unwrap()), None);
    assert_eq!(
        config.action(parse_key_chord("s").unwrap()),
        Some(Action::SplitRight)
    );
}

#[test]
fn theme_names_alias_and_resolve_built_ins_first() {
    let named = |name: &str| {
        Config::from_file(FileConfig {
            theme: Some(name.into()),
            ..FileConfig::default()
        })
    };
    assert_eq!(named("dark").theme, ThemeChoice::Dark);
    assert_eq!(
        named("dark").theme_source(&None),
        ThemeSource::BuiltIn("kodade-dark")
    );
    assert_eq!(
        named("light").theme_source(&None),
        ThemeSource::BuiltIn("kodade-light")
    );
    assert_eq!(builtin_theme("kodade-light"), Some("kodade-light"));
    assert_eq!(builtin_theme("tokyo-night"), Some("tokyo-night"));
    assert!(builtin_theme("no-such-theme").is_none());
    assert_eq!(named("tokyo-night").theme, ThemeChoice::Named);
    assert_eq!(
        named("tokyo-night").theme_source(&None),
        ThemeSource::BuiltIn("tokyo-night")
    );
    assert_eq!(
        named("mine").theme_source(&None),
        ThemeSource::User("mine".to_string())
    );
}

#[test]
fn the_terminal_background_picks_the_theme() {
    let reply = background_reply("\x1b]11;rgb:ffff/ffff/ffff\x1b\\").expect("a reply");
    assert_eq!(theme_for_background(&reply), "kodade-light");
    let reply = background_reply("\x1b]11;rgb:0000/0000/0000\x07").expect("a reply");
    assert_eq!(theme_for_background(&reply), "kodade-dark");
    assert_eq!(background_reply("nothing"), None);
}

#[test]
fn configuration_faults_become_warnings() {
    let config = Config::from_file(FileConfig {
        keys: Some(vec![
            ("no_such_action".into(), vec!["s".into()]),
            ("zoom".into(), vec!["shift+x".into()]),
        ]),
        ..FileConfig::default()
    });
    assert_eq!(config.warnings.len(), 2);
    assert_eq!(
        config.warnings[1],
        "kodade-cli: warning: invalid key zoom: unsupported key chord shift+x"
    );
    assert_eq!(config.action(plain(KeyCode::Char('z'))), Some(Action::Zoom));
}
