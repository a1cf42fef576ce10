use pi_interactive::app_keybindings::{
    app_keybinding_definitions, binding_keys, create_app_keybindings, load_user_bindings,
    KeybindingDefinition,
};
use pi_interactive::dispatch::{
    builtin_slash_commands, dispatch_input, parse_builtin, BuiltinCommand, DispatchAction,
    DispatchContext,
};
use pi_interactive::extension_ui::{
    current_theme_dto, parse_overlay_options, theme_catalog, theme_dto, theme_or_dark,
    theme_source, OverlayAnchor, OverlayNumber, OverlaySize, OverlayValue, ThemeDto, ThemeSource,
    ThemeTexts,
};
use pi_interactive::json::JsonField;
use pi_interactive::keybinding_hints::{
    format_key_text, key_display_text, key_hint, key_text, raw_key_hint, replace_first,
    BoundKeys, KeyTable,
};
use pi_interactive::style::plain_text;

fn idle() -> DispatchContext {
    DispatchContext {
        is_compacting: false,
        is_streaming: false,
        is_bash_running: false,
        extension_commands: vec!["ext".to_owned()],
    }
}

fn whole(n: i64) -> OverlayValue {
    OverlayValue::Number(OverlayNumber {
        whole: usize::try_from(n).unwrap_or(0),
        unsigned: u64::try_from(n).ok(),
        signed: Some(n),
    })
}

#[test]
fn formats_alternatives_and_capitalization() {
    assert_eq!(format_key_text("ctrl+c/alt+x", true, false), "Ctrl+C/Alt+X");
}

#[test]
fn key_texts_follow_the_system() {
    assert_eq!(format_key_text("alt+x", false, true), "option+x");
    assert_eq!(format_key_text("alt+x", false, false), "alt+x");
    assert_eq!(replace_first("SS", "ßx"), "SSx");
    let table = KeyTable {
        bindings: vec![BoundKeys {
            id: "a".to_owned(),
            keys: vec!["ctrl+a".to_owned(), "up".to_owned()],
        }],
        macos: false,
    };
    assert_eq!(key_text(&table, "a"), "ctrl+a/up");
    assert_eq!(key_display_text(&table, "a"), "Ctrl+A/Up");
    assert_eq!(plain_text(&key_hint(&table, "a", "go")), "ctrl+a/up go");
    assert_eq!(plain_text(&raw_key_hint("↑↓", "navigate", false)), "↑↓ navigate");
}

#[test]
fn lines_are_dispatched_in_order() {
    assert_eq!(dispatch_input("  \n ", &idle()), DispatchAction::Nothing);
    assert_eq!(
        dispatch_input(" /quit ", &idle()),
        DispatchAction::Builtin(BuiltinCommand::Quit)
    );
    assert_eq!(
        dispatch_input("!ls -l", &idle()),
        DispatchAction::Bash { command: "ls -l".to_owned(), excluded: false }
    );
    assert_eq!(
        dispatch_input("!! ls", &idle()),
        DispatchAction::Bash { command: "ls".to_owned(), excluded: true }
    );
    assert_eq!(
        dispatch_input("!!", &idle()),
        DispatchAction::Prompt { text: "!!".to_owned() }
    );
    assert_eq!(
        dispatch_input(" hello ", &idle()),
        DispatchAction::Prompt { text: "hello".to_owned() }
    );
}

#[test]
fn gates_hold_lines_back() {
    let busy = DispatchContext { is_bash_running: true, ..idle() };
    assert_eq!(
        dispatch_input("!ls", &busy),
        DispatchAction::BashBusy { original_text: "!ls".to_owned() }
    );
    let compacting = DispatchContext { is_compacting: true, is_streaming: true, ..idle() };
    assert_eq!(
        dispatch_input("/ext now", &compacting),
        DispatchAction::ExtensionDuringCompaction { text: "/ext now".to_owned() }
    );
    assert_eq!(
        dispatch_input("/extra", &compacting),
        DispatchAction::QueueCompaction { text: "/extra".to_owned() }
    );
    assert_eq!(
        dispatch_input("/settings", &compacting),
        DispatchAction::Builtin(BuiltinCommand::Settings)
    );
    let streaming = DispatchContext { is_streaming: true, ..idle() };
    assert_eq!(
        dispatch_input("go on", &streaming),
        DispatchAction::SteerStreaming { text: "go on".to_owned() }
    );
    assert!(idle().is_extension_command("/ext"));
    assert!(!idle().is_extension_command("ext"));
}

#[test]
fn commands_take_arguments() {
    assert_eq!(
        parse_builtin("/model  gpt "),
        Some(BuiltinCommand::Model { search: Some("gpt".to_owned()) })
    );
    assert_eq!(parse_builtin("/model "), Some(BuiltinCommand::Model { search: None }));
    assert_eq!(parse_builtin("/models"), None);
    assert_eq!(
        parse_builtin("/export a.html"),
        Some(BuiltinCommand::Export { raw: " a.html".to_owned() })
    );
    assert_eq!(parse_builtin("/export"), Some(BuiltinCommand::Export { raw: String::new() }));
    assert_eq!(
        parse_builtin("/import x"),
        Some(BuiltinCommand::Import { raw: "/import x".to_owned() })
    );
    assert_eq!(
        parse_builtin("/name me"),
        Some(BuiltinCommand::Name { raw: "/name me".to_owned() })
    );
    assert_eq!(
        parse_builtin("/login x"),
        Some(BuiltinCommand::Login { provider: Some("x".to_owned()) })
    );
    assert_eq!(
        parse_builtin("/compact keep the plan"),
        Some(BuiltinCommand::Compact { instructions: Some("keep the plan".to_owned()) })
    );
    assert_eq!(parse_builtin("/clear"), Some(BuiltinCommand::New));
    assert_eq!(parse_builtin("/sessions"), Some(BuiltinCommand::Resume));
    assert_eq!(parse_builtin("/quit now"), None);
}

#[test]
fn offered_commands_are_recognized() {
    let commands = builtin_slash_commands();
    assert_eq!(commands.len(), 22);
    assert_eq!(commands[1].argument_hint, Some("<provider/model>"));
    for command in &commands {
        assert!(parse_builtin(&format!("/{}", command.name)).is_some(), "{}", command.name);
    }
}

#[test]
fn keybindings_have_defaults() {
    let tui = vec![
        KeybindingDefinition {
            id: "tui.select.up".to_owned(),
            default_keys: vec!["up".to_owned()],
            description: None,
        },
        KeybindingDefinition {
            id: "app.clear".to_owned(),
            default_keys: vec!["x".to_owned()],
            description: None,
        },
    ];
    let all = app_keybinding_definitions(tui, false);
    assert_eq!(all.len(), 1 + 42);
    assert_eq!(all[0].id, "tui.select.up");
    let find = |id: &str| all.iter().find(|d| d.id == id).unwrap();
    assert_eq!(find("app.clear").default_keys, vec!["ctrl+c"]);
    assert_eq!(find("app.tree.foldOrUp").default_keys, vec!["ctrl+left", "alt+left"]);
    assert!(find("app.session.new").default_keys.is_empty());
    let mac = app_keybinding_definitions(Vec::new(), true);
    let fold = mac.iter().find(|d| d.id == "app.tree.foldOrUp").unwrap();
    assert_eq!(fold.default_keys, vec!["alt+left", "ctrl+left"]);
}

#[test]
fn user_bindings_are_read_from_json() {
    let raw = r#"{"app.clear": "ctrl+k", "app.exit": ["a", 3, "b\"c"], "x": 5, "y": null}"#;
    assert_eq!(
        load_user_bindings(raw),
        vec![
            ("app.clear".to_owned(), vec!["ctrl+k".to_owned()]),
            ("app.exit".to_owned(), vec!["a".to_owned(), "b\"c".to_owned()]),
        ]
    );
    assert!(load_user_bindings("[1]").is_empty());
    assert!(load_user_bindings("not json").is_empty());
    assert!(create_app_keybindings(Vec::new(), false, None).user_bindings.is_empty());
    assert_eq!(
        create_app_keybindings(Vec::new(), false, Some(r#"{"a":"b"}"#)).user_bindings.len(),
        1
    );
    assert_eq!(
        binding_keys(
            &JsonField::Other("[..]".to_owned()),
            &Some(vec![None, Some("k".to_owned())])
        ),
        Some(vec!["k".to_owned()])
    );
    assert_eq!(binding_keys(&JsonField::Null, &None), None);
}

#[test]
fn overlay_options_parse_sizes_anchors_and_state() {
    let parsed = parse_overlay_options(&vec![
        ("width".to_owned(), OverlayValue::Text("50%".to_owned())),
        ("minWidth".to_owned(), whole(20)),
        ("maxHeight".to_owned(), whole(12)),
        ("anchor".to_owned(), OverlayValue::Text("top-right".to_owned())),
        ("offsetX".to_owned(), whole(-2)),
        ("offsetY".to_owned(), whole(1)),
        ("hidden".to_owned(), OverlayValue::Bool(true)),
        ("focused".to_owned(), OverlayValue::Bool(false)),
    ]);
    assert_eq!(parsed.options.width, Some(OverlaySize::Percent("50".to_owned())));
    assert_eq!(parsed.options.min_width, Some(20));
    assert_eq!(parsed.options.max_height, Some(OverlaySize::Abs(12)));
    assert_eq!(parsed.options.anchor, OverlayAnchor::TopRight);
    assert_eq!(parsed.options.offset_x, -2);
    assert_eq!(parsed.options.offset_y, 1);
    assert!(parsed.hidden);
    assert_eq!(parsed.focused, Some(false));

    let default = parse_overlay_options(&Vec::new());
    assert_eq!(default.options.anchor, OverlayAnchor::Center);
    assert!(!default.hidden);
    assert_eq!(default.focused, None);
}

#[test]
fn odd_overlay_values_leave_the_default() {
    let parsed = parse_overlay_options(&vec![
        ("width".to_owned(), OverlayValue::Text("50".to_owned())),
        ("minWidth".to_owned(), OverlayValue::Text("20".to_owned())),
        ("anchor".to_owned(), OverlayValue::Text("middle".to_owned())),
        ("offsetX".to_owned(), OverlayValue::Other),
        ("row".to_owned(), OverlayValue::Text("  12.5 % ".to_owned())),
        ("nonCapturing".to_owned(), OverlayValue::Bool(true)),
        ("offsetY".to_owned(), whole((1 << 32) + 5)),
    ]);
    assert_eq!(parsed.options.width, None);
    assert_eq!(parsed.options.min_width, None);
    assert_eq!(parsed.options.anchor, OverlayAnchor::Center);
    assert_eq!(parsed.options.offset_x, 0);
    assert_eq!(parsed.options.offset_y, 5);
    assert_eq!(parsed.options.row, Some(OverlaySize::Percent("12.5".to_owned())));
    assert!(parsed.options.non_capturing);
}

#[test]
fn themes_come_from_builtins_or_files() {
    let catalog = theme_catalog(&vec![
        ("dark".to_owned(), None),
        ("mine".to_owned(), Some("/t/mine.json".to_owned())),
    ]);
    assert!(catalog.iter().any(|item| item.name == "dark"));
    assert_eq!(theme_source(&catalog, "dark"), ThemeSource::Dark);
    assert_eq!(theme_source(&catalog, "light"), ThemeSource::Light);
    assert_eq!(theme_source(&catalog, "mine"), ThemeSource::File("/t/mine.json".to_owned()));
    assert_eq!(theme_source(&catalog, "other"), ThemeSource::Missing);
}

fn theme_texts(file: Option<&str>) -> ThemeTexts {
    ThemeTexts {
        dark: r##"{"name": "dark", "colors": {"accent": "#8abeb7"}}"##.to_owned(),
        light: r##"{"name": "light", "colors": {}}"##.to_owned(),
        file: file.map(str::to_owned),
    }
}

fn has_colors(theme: &ThemeDto) -> bool {
    let json: serde_json::Value = serde_json::from_str(&theme.json).unwrap();
    json.get("colors").is_some()
}

#[test]
fn builtin_theme_dtos_are_real_json() {
    let catalog = theme_catalog(&vec![("dark".to_owned(), None), ("light".to_owned(), None)]);
    let texts = theme_texts(None);
    let dark = theme_dto(&catalog, "dark", &texts).expect("dark parses");
    assert_eq!(dark.name, "dark");
    assert!(has_colors(&dark));
    let current = current_theme_dto(&catalog, None, &texts).expect("dark parses");
    assert!(has_colors(&current));
    assert!(catalog.iter().any(|item| item.name == "dark"));
}

#[test]
fn the_dark_theme_stands_in_for_others() {
    let catalog = theme_catalog(&vec![
        ("mine".to_owned(), Some("/t/mine.json".to_owned())),
        ("bare".to_owned(), None),
    ]);
    let current = |name: &str, file: Option<&str>| {
        current_theme_dto(&catalog, Some(name), &theme_texts(file)).map(|theme| theme.name)
    };
    assert_eq!(current("mine", Some("{}")).as_deref(), Some("mine"));
    assert_eq!(current("mine", Some("{")).as_deref(), Some("dark"));
    assert_eq!(current("mine", None).as_deref(), Some("dark"));
    assert_eq!(current("bare", Some("{}")).as_deref(), Some("dark"));
    assert_eq!(current("light", None).as_deref(), Some("light"));
    let broken = ThemeTexts { dark: "no".to_owned(), ..theme_texts(None) };
    assert_eq!(current_theme_dto(&catalog, None, &broken), None);
    assert_eq!(theme_or_dark(None, theme_dto(&catalog, "dark", &theme_texts(None))).unwrap().name, "dark");
}

#[test]
fn malformed_files_and_unknown_fields_change_nothing() {
    assert!(load_user_bindings("{ \"app.exit\": ").is_empty());
    assert!(load_user_bindings("[]").is_empty());
    let known = vec![("anchor".to_owned(), OverlayValue::Text("top-left".to_owned()))];
    let mut more = vec![("visible".to_owned(), OverlayValue::Bool(true))];
    more.push(("anchor".to_owned(), OverlayValue::Text("top-left".to_owned())));
    let plain = parse_overlay_options(&known);
    let parsed = parse_overlay_options(&more);
    assert_eq!(parsed.options.anchor, OverlayAnchor::TopLeft);
    assert_eq!(parsed.options.anchor, plain.options.anchor);
    assert_eq!((parsed.hidden, parsed.focused), (plain.hidden, plain.focused));
}
