use pi_interactive::choice_selectors::{
    ShowImagesSelectorComponent, ThemeSelectorComponent, ThinkingSelectorComponent,
};
use pi_interactive::numbers::parse_u32;
use pi_interactive::select_submenu::{
    settings_submenu_select_list_layout, SelectSubmenu, SettingsListShape,
};
use pi_interactive::settings_changes::{
    initial_option, setting_change, FlagSetting, NumberSetting, SelectItem, SettingsChange,
    SettingsSelectorComponent, TextSetting,
};
use pi_interactive::settings_selector::{
    default_project_trust_by_label, default_project_trust_label, format_http_idle_timeout_ms,
    thinking_description, thinking_level_from_str, thinking_level_name, transport_as_str,
    transport_from_str, ModelThinkingLevel, SettingsConfig, Submenu, TerminalTheme, Transport,
    WarningSettings,
};
use pi_interactive::style::plain_text;
use pi_interactive::theme_submenu::{
    default_automatic_themes, parse_auto_theme_setting, preferred_theme, single_mode_theme_items,
    Appearance, ThemeEvent, ThemeMode, ThemeSubmenu,
};
use pi_interactive::transcript::Piece;

fn shown(pieces: &[Piece]) -> Vec<String> {
    pieces
        .iter()
        .map(|piece| match piece {
            Piece::Text { spans, .. } => plain_text(spans),
            Piece::Border(_) => "<border>".to_owned(),
            Piece::List => "<list>".to_owned(),
            _ => String::new(),
        })
        .collect()
}

fn test_config() -> SettingsConfig {
    SettingsConfig {
        auto_compact: true,
        show_images: true,
        image_width_cells: 80,
        auto_resize_images: true,
        block_images: false,
        enable_skill_commands: true,
        steering_mode: "all".to_owned(),
        follow_up_mode: "one-at-a-time".to_owned(),
        transport: Transport::Auto,
        http_idle_timeout_ms: 300_000,
        thinking_level: ModelThinkingLevel::Medium,
        available_thinking_levels: vec![ModelThinkingLevel::Off, ModelThinkingLevel::Medium],
        current_theme: "dark".to_owned(),
        terminal_theme: TerminalTheme::Dark,
        available_themes: vec!["dark".to_owned(), "light".to_owned()],
        hide_thinking_block: false,
        show_cache_miss_notices: false,
        collapse_changelog: false,
        enable_install_telemetry: true,
        double_escape_action: "tree".to_owned(),
        tree_filter_mode: "default".to_owned(),
        show_hardware_cursor: false,
        editor_padding_x: 0,
        output_pad: 1,
        autocomplete_max_visible: 5,
        quiet_startup: false,
        default_project_trust: "ask".to_owned(),
        clear_on_shrink: false,
        show_terminal_progress: false,
        warnings: WarningSettings { anthropic_extra_usage: None },
    }
}

fn chars(s: &str) -> Vec<char> {
    s.chars().collect()
}

#[test]
fn http_idle_timeout_labels_match_oracle() {
    assert_eq!(format_http_idle_timeout_ms(30_000), "30 sec");
    assert_eq!(format_http_idle_timeout_ms(60_000), "1 min");
    assert_eq!(format_http_idle_timeout_ms(120_000), "2 min");
    assert_eq!(format_http_idle_timeout_ms(300_000), "5 min");
    assert_eq!(format_http_idle_timeout_ms(0), "disabled");
    assert_eq!(format_http_idle_timeout_ms(45_000), "45 sec");
    assert_eq!(format_http_idle_timeout_ms(1_500), "1.5 sec");
}

#[test]
fn idle_timeouts_show_all_digits_they_need() {
    assert_eq!(format_http_idle_timeout_ms(1), "0.001 sec");
    assert_eq!(format_http_idle_timeout_ms(1_050), "1.05 sec");
    assert_eq!(format_http_idle_timeout_ms(90_000), "90 sec");
}

#[test]
fn default_project_trust_label_round_trip() {
    assert_eq!(default_project_trust_label("ask"), "Ask");
    assert_eq!(default_project_trust_label("always"), "Always trust");
    assert_eq!(default_project_trust_label("never"), "Never trust");
    assert_eq!(default_project_trust_by_label("Always trust"), Some("always"));
    assert_eq!(default_project_trust_by_label("Never trust"), Some("never"));
    assert_eq!(default_project_trust_by_label("Ask"), Some("ask"));
    assert_eq!(default_project_trust_by_label("bogus"), None);
}

#[test]
fn transport_round_trip() {
    for transport in [
        Transport::Sse,
        Transport::Websocket,
        Transport::WebsocketCached,
        Transport::Auto,
    ] {
        assert_eq!(transport_from_str(transport_as_str(transport)), Some(transport));
    }
    assert_eq!(transport_from_str("carrier-pigeon"), None);
}

#[test]
fn automatic_theme_helpers() {
    let themes = vec!["dark".to_owned(), "light".to_owned()];
    assert_eq!(preferred_theme(&themes, Some("light"), "dark"), "light");
    assert_eq!(preferred_theme(&themes, Some("missing"), "dark"), "dark");
    assert_eq!(
        default_automatic_themes("light/dark", &themes),
        ("light".to_owned(), "dark".to_owned())
    );
    assert_eq!(
        default_automatic_themes("light", &themes),
        ("light".to_owned(), "light".to_owned())
    );
}

#[test]
fn renders_settings_rows_and_cycles_values() {
    let component = SettingsSelectorComponent::new(test_config(), false, "Alt+Enter");
    let items = component.get_settings_list();
    assert!(items.iter().any(|i| i.label == "Auto-compact"));
    // First row is autocompact (true): the next of its values is false.
    assert_eq!(items[0].current_value, "true");
    assert_eq!(items[0].values, vec!["true", "false"]);
    assert_eq!(
        setting_change(&items[0].id, &items[0].values[1]),
        Some(SettingsChange::Flag(FlagSetting::AutoCompact, false))
    );
}

#[test]
fn settings_are_listed_in_order() {
    let component = SettingsSelectorComponent::new(test_config(), true, "Alt+Enter");
    let ids: Vec<&str> = component.items.iter().map(|i| i.id.as_str()).collect();
    assert_eq!(
        ids,
        vec![
            "autocompact",
            "show-images",
            "image-width-cells",
            "auto-resize-images",
            "block-images",
            "skill-commands",
            "show-hardware-cursor",
            "editor-padding",
            "output-padding",
            "autocomplete-max-visible",
            "clear-on-shrink",
            "terminal-progress",
            "steering-mode",
            "follow-up-mode",
            "transport",
            "http-idle-timeout",
            "hide-thinking",
            "cache-miss-notices",
            "collapse-changelog",
            "quiet-startup",
            "install-telemetry",
            "default-project-trust",
            "double-escape-action",
            "tree-filter-mode",
            "warnings",
            "thinking",
            "theme",
        ]
    );
    let follow_up = &component.items[13];
    assert!(follow_up.description.starts_with("Alt+Enter queues follow-up messages"));
    assert_eq!(component.items[25].submenu, Submenu::Thinking);
    assert_eq!(component.items[15].current_value, "5 min");
}

#[test]
fn every_offered_value_changes_its_setting() {
    let component = SettingsSelectorComponent::new(test_config(), true, "k");
    for item in &component.items {
        for value in &item.values {
            assert!(setting_change(&item.id, value).is_some(), "{} {value}", item.id);
        }
    }
}

#[test]
fn changes_carry_what_was_chosen() {
    assert_eq!(
        setting_change("image-width-cells", "120"),
        Some(SettingsChange::Number(NumberSetting::ImageWidthCells, 120))
    );
    assert_eq!(setting_change("image-width-cells", "wide"), None);
    assert_eq!(
        setting_change("transport", "sse"),
        Some(SettingsChange::Transport(Transport::Sse))
    );
    assert_eq!(setting_change("transport", "x"), None);
    assert_eq!(
        setting_change("http-idle-timeout", "2 min"),
        Some(SettingsChange::HttpIdleTimeoutMs(120_000))
    );
    assert_eq!(
        setting_change("default-project-trust", "Never trust"),
        Some(SettingsChange::DefaultProjectTrust("never".to_owned()))
    );
    assert_eq!(setting_change("output-padding", "0"), Some(SettingsChange::OutputPad(0)));
    assert_eq!(setting_change("output-padding", "7"), Some(SettingsChange::OutputPad(1)));
    assert_eq!(
        setting_change("theme", "light"),
        Some(SettingsChange::Text(TextSetting::Theme, "light".to_owned()))
    );
    assert_eq!(setting_change("unknown", "x"), None);
}

#[test]
fn numbers_are_read_whole() {
    assert_eq!(parse_u32(&chars("0")), Some(0));
    assert_eq!(parse_u32(&chars("+42")), Some(42));
    assert_eq!(parse_u32(&chars("007")), Some(7));
    assert_eq!(parse_u32(&chars("4294967295")), Some(u32::MAX));
    assert_eq!(parse_u32(&chars("4294967296")), None);
    assert_eq!(parse_u32(&chars("99999999999999999999999")), None);
    assert_eq!(parse_u32(&chars("")), None);
    assert_eq!(parse_u32(&chars("+")), None);
    assert_eq!(parse_u32(&chars("-1")), None);
    assert_eq!(parse_u32(&chars("1 ")), None);
}

#[test]
fn thinking_levels_have_names() {
    for level in [
        ModelThinkingLevel::Off,
        ModelThinkingLevel::Minimal,
        ModelThinkingLevel::Low,
        ModelThinkingLevel::Medium,
        ModelThinkingLevel::High,
        ModelThinkingLevel::Xhigh,
        ModelThinkingLevel::Max,
    ] {
        assert_eq!(thinking_level_from_str(thinking_level_name(level)), Some(level));
        assert!(!thinking_description(level).is_empty());
    }
    assert_eq!(thinking_level_from_str("deep"), None);
}

#[test]
fn submenus_choose_levels_and_warnings() {
    let mut component = SettingsSelectorComponent::new(test_config(), false, "k");
    let options = component.thinking_items();
    assert_eq!(options.len(), 2);
    assert_eq!(initial_option(&options, "medium"), Some(1));
    assert_eq!(initial_option(&options, "max"), None);
    let result = component.choose_thinking("off");
    assert_eq!(result.change, Some(SettingsChange::ThinkingLevel(ModelThinkingLevel::Off)));
    assert_eq!(result.value.as_deref(), Some("off"));
    assert_eq!(component.choose_thinking("zzz").change, None);

    assert_eq!(component.warning_items()[0].current_value, "true");
    assert_eq!(
        component.change_warning("anthropic-extra-usage", "false"),
        Some(SettingsChange::Warnings(WarningSettings { anthropic_extra_usage: Some(false) }))
    );
    assert_eq!(component.warning_items()[0].current_value, "false");
    assert_eq!(component.change_warning("other", "false"), None);
}

#[test]
fn automatic_settings_are_two_names() {
    assert_eq!(
        parse_auto_theme_setting("a/b"),
        Some(("a".to_owned(), "b".to_owned()))
    );
    for other in ["a", "/", "a/", "/b", "a/b/c", ""] {
        assert_eq!(parse_auto_theme_setting(other), None);
    }
    let none: Vec<String> = Vec::new();
    assert_eq!(preferred_theme(&none, None, "dark"), "dark");
    assert_eq!(preferred_theme(&vec!["x".to_owned()], None, "dark"), "x");
}

#[test]
fn the_theme_submenu_previews_and_keeps() {
    let themes = || vec!["dark".to_owned(), "light".to_owned()];
    let mut menu = ThemeSubmenu::new("light", TerminalTheme::Dark, themes());
    assert_eq!(menu.mode, ThemeMode::Single);
    assert_eq!(menu.theme_setting(), "light");
    let step = menu.handle(&ThemeEvent::Highlight("dark".to_owned()));
    assert_eq!(step.preview.as_deref(), Some("dark"));
    assert_eq!(step.done, None);

    // Switching to the automatic mode shows both themes.
    let step = menu.handle(&ThemeEvent::Choose("/".to_owned()));
    assert_eq!(menu.mode, ThemeMode::Automatic);
    assert_eq!(step.preview.as_deref(), Some("light/light"));
    let step = menu.handle(&ThemeEvent::ChooseFor(Appearance::Dark, "dark".to_owned()));
    assert_eq!(step.preview.as_deref(), Some("light/dark"));
    assert_eq!(menu.automatic_items()[1].current_value, "dark");
    let step = menu.handle(&ThemeEvent::Activate("apply".to_owned()));
    assert_eq!(step.done, Some(Some("light/dark".to_owned())));

    // Back to one theme: the one that this terminal shows.
    let step = menu.handle(&ThemeEvent::Activate("single-mode".to_owned()));
    assert_eq!(menu.mode, ThemeMode::Single);
    assert_eq!(step.preview.as_deref(), Some("dark"));

    // Leaving restores what was there before.
    let step = menu.handle(&ThemeEvent::Cancel);
    assert_eq!(step.preview.as_deref(), Some("light"));
    assert_eq!(step.done, Some(None));
}

#[test]
fn applying_an_automatic_setting_keeps_it() {
    let themes = vec!["dark".to_owned(), "light".to_owned()];
    let mut menu = ThemeSubmenu::new("a/b", TerminalTheme::Light, themes.clone());
    assert_eq!(menu.mode, ThemeMode::Automatic);
    assert_eq!(menu.active_automatic_theme(), "a");
    let step = menu.handle(&ThemeEvent::Activate("apply".to_owned()));
    assert_eq!(step.done, Some(Some("a/b".to_owned())));
    let items = single_mode_theme_items(&themes);
    assert_eq!(items[0].value, "/");
    assert_eq!(items[1].value, "dark");
}

#[test]
fn short_lists_start_on_the_current_value() {
    let levels = vec![ModelThinkingLevel::Low, ModelThinkingLevel::High];
    let thinking = ThinkingSelectorComponent::new(ModelThinkingLevel::High, &levels);
    assert_eq!(thinking.initial, Some(1));
    assert_eq!(ThinkingSelectorComponent::chosen("low"), Some(ModelThinkingLevel::Low));

    let themes = vec!["a".to_owned(), "b".to_owned()];
    let theme = ThemeSelectorComponent::new("b", &themes);
    assert_eq!(theme.initial, Some(1));
    assert_eq!(theme.get_select_list()[1].description.as_deref(), Some("(current)"));
    assert_eq!(theme.get_select_list()[0].description, None);

    let images = ShowImagesSelectorComponent::new(false);
    assert_eq!(images.initial, 1);
    let options: &Vec<SelectItem> = images.get_select_list();
    assert!(ShowImagesSelectorComponent::chosen(&options[0].value));
    assert!(!ShowImagesSelectorComponent::chosen(&options[1].value));
}

#[test]
fn menus_open_on_the_current_value() {
    let component = SettingsSelectorComponent::new(test_config(), false, "k");
    let menu = component.thinking_submenu("medium");
    assert_eq!(menu.title, "Thinking Level");
    assert_eq!(menu.selected, 1);
    assert_eq!(component.thinking_submenu("max").selected, 0);
    assert_eq!(menu.shape, settings_submenu_select_list_layout(2));
    assert_eq!(menu.shape.min_primary_column_width, 12);
    assert_eq!(menu.shape.max_primary_column_width, 32);
    assert_eq!(
        shown(&menu.render()),
        vec![
            "Thinking Level",
            "",
            "Select reasoning depth for thinking-capable models",
            "",
            "<list>",
            "",
            "  Enter to select · Esc to go back",
        ]
    );
    let bare = SelectSubmenu::new("T", "", Vec::new(), "x");
    assert_eq!(shown(&bare.render()).len(), 5);
    assert_eq!(bare.shape.max_visible, 0);

    let many: Vec<String> = (0..12).map(|i| format!("t{i}")).collect();
    let theme = ThemeSubmenu::new("t3", TerminalTheme::Dark, many);
    let single = theme.build_single_menu();
    assert_eq!(single.title, "Theme");
    // The first option is the automatic mode.
    assert_eq!(single.selected, 4);
    assert_eq!(single.shape.max_visible, 10);
    let light = theme.theme_select(Appearance::Light, "t2");
    assert_eq!((light.title.as_str(), light.selected), ("Light Theme", 2));
    let dark = theme.theme_select(Appearance::Dark, "t5");
    assert_eq!(dark.description, "Select the theme to use for dark terminal appearance");
    assert_eq!(dark.selected, 5);
}

#[test]
fn lists_show_between_borders() {
    let component = SettingsSelectorComponent::new(test_config(), false, "k");
    assert_eq!(shown(&component.render()), vec!["<border>", "<list>", "<border>"]);
    assert_eq!(
        component.list_shape(),
        SettingsListShape { max_visible: 10, enable_search: true }
    );
    assert_eq!(
        component.warning_list_shape(),
        SettingsListShape { max_visible: 1, enable_search: true }
    );
    let mut theme = component.theme_submenu("dark");
    assert_eq!(shown(&theme.render())[0], "Theme");
    theme.handle(&ThemeEvent::Choose("/".to_owned()));
    assert_eq!(
        shown(&theme.render()),
        vec![
            "Automatic Theme",
            "",
            "Choose themes for terminal light and dark appearance.",
            "Light/dark detection requires terminal support.",
            "",
            "<list>",
        ]
    );
    assert_eq!(
        theme.automatic_list_shape(),
        SettingsListShape { max_visible: 4, enable_search: false }
    );

    let levels = vec![ModelThinkingLevel::Low, ModelThinkingLevel::High];
    let thinking = ThinkingSelectorComponent::new(ModelThinkingLevel::High, &levels);
    assert_eq!(thinking.list_shape().max_visible, 2);
    assert_eq!(shown(&thinking.render()), vec!["<border>", "<list>", "<border>"]);
    let themes = vec!["a".to_owned()];
    assert_eq!(ThemeSelectorComponent::new("b", &themes).list_shape().max_visible, 10);
    assert_eq!(ShowImagesSelectorComponent::new(true).list_shape().max_visible, 5);
}
