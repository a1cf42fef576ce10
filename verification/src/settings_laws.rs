//! What choosing a value does to the settings: the list shows it where it was chosen, and nowhere else.

use crate::numbers::{decimal_reads_back, number_u32};
use crate::settings_changes::{
    change_for, transport_with_name, ChangeView, FlagSetting, NumberSetting, TextSetting,
};
use crate::settings_selector::{
    bool_text, display_settings, image_settings, listed_settings, queue_settings, startup_settings,
    submenu_settings, timeout_choice, timeout_label, transport_name, trust_label, trust_value,
    SettingView, SettingsConfig, Submenu,
};
use crate::text::{decimal, digit};
use vstd::prelude::*;

verus! {

/// Whether the settings are `after` once the change is made to them: the setting that it is about has
/// the new value, and every other one is as it was.
pub open spec fn applied(before: SettingsConfig, change: ChangeView, after: SettingsConfig) -> bool {
    match change {
        ChangeView::Flag(FlagSetting::AutoCompact, on) => after == SettingsConfig { auto_compact: on, ..before },
        ChangeView::Flag(FlagSetting::ShowImages, on) => after == SettingsConfig { show_images: on, ..before },
        ChangeView::Flag(FlagSetting::AutoResizeImages, on) => after == SettingsConfig { auto_resize_images: on, ..before },
        ChangeView::Flag(FlagSetting::BlockImages, on) => after == SettingsConfig { block_images: on, ..before },
        ChangeView::Flag(FlagSetting::EnableSkillCommands, on) => after == SettingsConfig { enable_skill_commands: on, ..before },
        ChangeView::Flag(FlagSetting::HideThinkingBlock, on) => after == SettingsConfig { hide_thinking_block: on, ..before },
        ChangeView::Flag(FlagSetting::ShowCacheMissNotices, on) => after == SettingsConfig { show_cache_miss_notices: on, ..before },
        ChangeView::Flag(FlagSetting::CollapseChangelog, on) => after == SettingsConfig { collapse_changelog: on, ..before },
        ChangeView::Flag(FlagSetting::QuietStartup, on) => after == SettingsConfig { quiet_startup: on, ..before },
        ChangeView::Flag(FlagSetting::EnableInstallTelemetry, on) => after == SettingsConfig { enable_install_telemetry: on, ..before },
        ChangeView::Flag(FlagSetting::ShowHardwareCursor, on) => after == SettingsConfig { show_hardware_cursor: on, ..before },
        ChangeView::Flag(FlagSetting::ClearOnShrink, on) => after == SettingsConfig { clear_on_shrink: on, ..before },
        ChangeView::Flag(FlagSetting::ShowTerminalProgress, on) => after == SettingsConfig { show_terminal_progress: on, ..before },
        ChangeView::Number(NumberSetting::ImageWidthCells, n) => after == SettingsConfig {
            image_width_cells: n,
            ..before
        },
        ChangeView::Number(NumberSetting::EditorPaddingX, n) => after == SettingsConfig {
            editor_padding_x: n,
            ..before
        },
        ChangeView::Number(NumberSetting::AutocompleteMaxVisible, n) => after == SettingsConfig {
            autocomplete_max_visible: n,
            ..before
        },
        ChangeView::Text(TextSetting::SteeringMode, text) => after.steering_mode@ == text && after
            == SettingsConfig { steering_mode: after.steering_mode, ..before },
        ChangeView::Text(TextSetting::FollowUpMode, text) => after.follow_up_mode@ == text && after
            == SettingsConfig { follow_up_mode: after.follow_up_mode, ..before },
        ChangeView::Text(TextSetting::DoubleEscapeAction, text) => after.double_escape_action@ == text && after
            == SettingsConfig { double_escape_action: after.double_escape_action, ..before },
        ChangeView::Text(TextSetting::TreeFilterMode, text) => after.tree_filter_mode@ == text && after
            == SettingsConfig { tree_filter_mode: after.tree_filter_mode, ..before },
        ChangeView::Text(TextSetting::Theme, text) => after.current_theme@ == text && after
            == SettingsConfig { current_theme: after.current_theme, ..before },
        ChangeView::Transport(transport) => after == SettingsConfig { transport, ..before },
        ChangeView::HttpIdleTimeoutMs(ms) => after == SettingsConfig {
            http_idle_timeout_ms: ms,
            ..before
        },
        ChangeView::DefaultProjectTrust(trust) => after.default_project_trust@ == trust && after
            == SettingsConfig { default_project_trust: after.default_project_trust, ..before },
        ChangeView::OutputPad(pad) => after == SettingsConfig { output_pad: pad, ..before },
        ChangeView::ThinkingLevel(level) => after == SettingsConfig {
            thinking_level: level,
            ..before
        },
        ChangeView::Warnings(warnings) => after == SettingsConfig { warnings, ..before },
    }
}

/// How the ids of the settings differ from each other.
proof fn lemma_ids_differ()
    ensures
        "autocompact"@.len() == 11,
        "autocompact"@[1] == 'u',
        "show-images"@.len() == 11,
        "show-images"@[1] == 'h',
        "auto-resize-images"@.len() == 18,
        "auto-resize-images"@[1] == 'u',
        "block-images"@.len() == 12,
        "block-images"@[1] == 'l',
        "skill-commands"@.len() == 14,
        "skill-commands"@[1] == 'k',
        "hide-thinking"@.len() == 13,
        "hide-thinking"@[1] == 'i',
        "cache-miss-notices"@.len() == 18,
        "cache-miss-notices"@[1] == 'a',
        "collapse-changelog"@.len() == 18,
        "collapse-changelog"@[1] == 'o',
        "quiet-startup"@.len() == 13,
        "quiet-startup"@[1] == 'u',
        "install-telemetry"@.len() == 17,
        "install-telemetry"@[1] == 'n',
        "show-hardware-cursor"@.len() == 20,
        "show-hardware-cursor"@[1] == 'h',
        "clear-on-shrink"@.len() == 15,
        "clear-on-shrink"@[1] == 'l',
        "terminal-progress"@.len() == 17,
        "terminal-progress"@[1] == 'e',
        "image-width-cells"@.len() == 17,
        "image-width-cells"@[1] == 'm',
        "editor-padding"@.len() == 14,
        "editor-padding"@[1] == 'd',
        "autocomplete-max-visible"@.len() == 24,
        "autocomplete-max-visible"@[1] == 'u',
        "steering-mode"@.len() == 13,
        "steering-mode"@[1] == 't',
        "follow-up-mode"@.len() == 14,
        "follow-up-mode"@[1] == 'o',
        "double-escape-action"@.len() == 20,
        "double-escape-action"@[1] == 'o',
        "tree-filter-mode"@.len() == 16,
        "tree-filter-mode"@[1] == 'r',
        "theme"@.len() == 5,
        "theme"@[1] == 'h',
        "transport"@.len() == 9,
        "transport"@[1] == 'r',
        "http-idle-timeout"@.len() == 17,
        "http-idle-timeout"@[1] == 't',
        "default-project-trust"@.len() == 21,
        "default-project-trust"@[1] == 'e',
        "output-padding"@.len() == 14,
        "output-padding"@[1] == 'u',
        "warnings"@.len() == 8,
        "warnings"@[1] == 'a',
        "thinking"@.len() == 8,
        "thinking"@[1] == 'h',
{
    reveal_strlit("autocompact");
    reveal_strlit("show-images");
    reveal_strlit("auto-resize-images");
    reveal_strlit("block-images");
    reveal_strlit("skill-commands");
    reveal_strlit("hide-thinking");
    reveal_strlit("cache-miss-notices");
    reveal_strlit("collapse-changelog");
    reveal_strlit("quiet-startup");
    reveal_strlit("install-telemetry");
    reveal_strlit("show-hardware-cursor");
    reveal_strlit("clear-on-shrink");
    reveal_strlit("terminal-progress");
    reveal_strlit("image-width-cells");
    reveal_strlit("editor-padding");
    reveal_strlit("autocomplete-max-visible");
    reveal_strlit("steering-mode");
    reveal_strlit("follow-up-mode");
    reveal_strlit("double-escape-action");
    reveal_strlit("tree-filter-mode");
    reveal_strlit("theme");
    reveal_strlit("transport");
    reveal_strlit("http-idle-timeout");
    reveal_strlit("default-project-trust");
    reveal_strlit("output-padding");
    reveal_strlit("warnings");
    reveal_strlit("thinking");
}

proof fn lemma_change_of_autocompact(value: Seq<char>)
    ensures
        change_for("autocompact"@, value) == Some(ChangeView::Flag(FlagSetting::AutoCompact, value == "true"@)),
{
    lemma_ids_differ();
}

proof fn lemma_change_of_show_images(value: Seq<char>)
    ensures
        change_for("show-images"@, value) == Some(ChangeView::Flag(FlagSetting::ShowImages, value == "true"@)),
{
    lemma_ids_differ();
}

proof fn lemma_change_of_auto_resize_images(value: Seq<char>)
    ensures
        change_for("auto-resize-images"@, value) == Some(ChangeView::Flag(FlagSetting::AutoResizeImages, value == "true"@)),
{
    lemma_ids_differ();
}

proof fn lemma_change_of_block_images(value: Seq<char>)
    ensures
        change_for("block-images"@, value) == Some(ChangeView::Flag(FlagSetting::BlockImages, value == "true"@)),
{
    lemma_ids_differ();
}

proof fn lemma_change_of_skill_commands(value: Seq<char>)
    ensures
        change_for("skill-commands"@, value) == Some(ChangeView::Flag(FlagSetting::EnableSkillCommands, value == "true"@)),
{
    lemma_ids_differ();
}

proof fn lemma_change_of_hide_thinking(value: Seq<char>)
    ensures
        change_for("hide-thinking"@, value) == Some(ChangeView::Flag(FlagSetting::HideThinkingBlock, value == "true"@)),
{
    lemma_ids_differ();
}

proof fn lemma_change_of_cache_miss_notices(value: Seq<char>)
    ensures
        change_for("cache-miss-notices"@, value) == Some(ChangeView::Flag(FlagSetting::ShowCacheMissNotices, value == "true"@)),
{
    lemma_ids_differ();
}

proof fn lemma_change_of_collapse_changelog(value: Seq<char>)
    ensures
        change_for("collapse-changelog"@, value) == Some(ChangeView::Flag(FlagSetting::CollapseChangelog, value == "true"@)),
{
    lemma_ids_differ();
}

proof fn lemma_change_of_quiet_startup(value: Seq<char>)
    ensures
        change_for("quiet-startup"@, value) == Some(ChangeView::Flag(FlagSetting::QuietStartup, value == "true"@)),
{
    lemma_ids_differ();
}

proof fn lemma_change_of_install_telemetry(value: Seq<char>)
    ensures
        change_for("install-telemetry"@, value) == Some(ChangeView::Flag(FlagSetting::EnableInstallTelemetry, value == "true"@)),
{
    lemma_ids_differ();
}

proof fn lemma_change_of_show_hardware_cursor(value: Seq<char>)
    ensures
        change_for("show-hardware-cursor"@, value) == Some(ChangeView::Flag(FlagSetting::ShowHardwareCursor, value == "true"@)),
{
    lemma_ids_differ();
}

proof fn lemma_change_of_clear_on_shrink(value: Seq<char>)
    ensures
        change_for("clear-on-shrink"@, value) == Some(ChangeView::Flag(FlagSetting::ClearOnShrink, value == "true"@)),
{
    lemma_ids_differ();
}

proof fn lemma_change_of_terminal_progress(value: Seq<char>)
    ensures
        change_for("terminal-progress"@, value) == Some(ChangeView::Flag(FlagSetting::ShowTerminalProgress, value == "true"@)),
{
    lemma_ids_differ();
}

proof fn lemma_change_of_image_width_cells(value: Seq<char>)
    requires
        number_u32(value) is Some,
    ensures
        change_for("image-width-cells"@, value) == Some(
            ChangeView::Number(NumberSetting::ImageWidthCells, number_u32(value)->0),
        ),
{
    lemma_ids_differ();
}

proof fn lemma_change_of_editor_padding(value: Seq<char>)
    requires
        number_u32(value) is Some,
    ensures
        change_for("editor-padding"@, value) == Some(
            ChangeView::Number(NumberSetting::EditorPaddingX, number_u32(value)->0),
        ),
{
    lemma_ids_differ();
}

proof fn lemma_change_of_autocomplete_max_visible(value: Seq<char>)
    requires
        number_u32(value) is Some,
    ensures
        change_for("autocomplete-max-visible"@, value) == Some(
            ChangeView::Number(NumberSetting::AutocompleteMaxVisible, number_u32(value)->0),
        ),
{
    lemma_ids_differ();
}

proof fn lemma_change_of_steering_mode(value: Seq<char>)
    ensures
        change_for("steering-mode"@, value) == Some(ChangeView::Text(TextSetting::SteeringMode, value)),
{
    lemma_ids_differ();
}

proof fn lemma_change_of_follow_up_mode(value: Seq<char>)
    ensures
        change_for("follow-up-mode"@, value) == Some(ChangeView::Text(TextSetting::FollowUpMode, value)),
{
    lemma_ids_differ();
}

proof fn lemma_change_of_double_escape_action(value: Seq<char>)
    ensures
        change_for("double-escape-action"@, value) == Some(ChangeView::Text(TextSetting::DoubleEscapeAction, value)),
{
    lemma_ids_differ();
}

proof fn lemma_change_of_tree_filter_mode(value: Seq<char>)
    ensures
        change_for("tree-filter-mode"@, value) == Some(ChangeView::Text(TextSetting::TreeFilterMode, value)),
{
    lemma_ids_differ();
}

proof fn lemma_change_of_theme(value: Seq<char>)
    ensures
        change_for("theme"@, value) == Some(ChangeView::Text(TextSetting::Theme, value)),
{
    lemma_ids_differ();
}

proof fn lemma_change_of_transport(value: Seq<char>)
    requires
        transport_with_name(value) is Some,
    ensures
        change_for("transport"@, value) == Some(ChangeView::Transport(transport_with_name(value)->0)),
{
    lemma_ids_differ();
}

proof fn lemma_change_of_http_idle_timeout(value: Seq<char>)
    requires
        timeout_choice(value) is Some,
    ensures
        change_for("http-idle-timeout"@, value) == Some(ChangeView::HttpIdleTimeoutMs(timeout_choice(value)->0)),
{
    lemma_ids_differ();
}

proof fn lemma_change_of_default_project_trust(value: Seq<char>)
    requires
        trust_value(value) is Some,
    ensures
        change_for("default-project-trust"@, value) == Some(ChangeView::DefaultProjectTrust(trust_value(value)->0)),
{
    lemma_ids_differ();
}

proof fn lemma_change_of_output_padding(value: Seq<char>)
    ensures
        change_for("output-padding"@, value) == Some(
            ChangeView::OutputPad(
                if value == "0"@ {
                    0
                } else {
                    1
                },
            ),
        ),
{
    lemma_ids_differ();
}

/// The numbers that are offered are written as they are read.
proof fn lemma_offered_numbers()
    ensures
        "0"@ == decimal(0),
        number_u32("0"@) == Some(0u32),
        "1"@ == decimal(1),
        number_u32("1"@) == Some(1u32),
        "2"@ == decimal(2),
        number_u32("2"@) == Some(2u32),
        "3"@ == decimal(3),
        number_u32("3"@) == Some(3u32),
        "5"@ == decimal(5),
        number_u32("5"@) == Some(5u32),
        "7"@ == decimal(7),
        number_u32("7"@) == Some(7u32),
        "10"@ == decimal(10),
        number_u32("10"@) == Some(10u32),
        "15"@ == decimal(15),
        number_u32("15"@) == Some(15u32),
        "20"@ == decimal(20),
        number_u32("20"@) == Some(20u32),
        "60"@ == decimal(60),
        number_u32("60"@) == Some(60u32),
        "80"@ == decimal(80),
        number_u32("80"@) == Some(80u32),
        "120"@ == decimal(120),
        number_u32("120"@) == Some(120u32),
        "0"@ != "1"@,
{
    reveal_strlit("0");
    assert("0"@ =~= seq![digit(0)]);
    assert(decimal(0) =~= "0"@);
    decimal_reads_back(0);
    reveal_strlit("1");
    assert("1"@ =~= seq![digit(1)]);
    assert(decimal(1) =~= "1"@);
    decimal_reads_back(1);
    reveal_strlit("2");
    assert("2"@ =~= seq![digit(2)]);
    assert(decimal(2) =~= "2"@);
    decimal_reads_back(2);
    reveal_strlit("3");
    assert("3"@ =~= seq![digit(3)]);
    assert(decimal(3) =~= "3"@);
    decimal_reads_back(3);
    reveal_strlit("5");
    assert("5"@ =~= seq![digit(5)]);
    assert(decimal(5) =~= "5"@);
    decimal_reads_back(5);
    reveal_strlit("7");
    assert("7"@ =~= seq![digit(7)]);
    assert(decimal(7) =~= "7"@);
    decimal_reads_back(7);
    reveal_strlit("10");
    assert(decimal(1) =~= seq![digit(1)]);
    assert(decimal(10) == decimal(1).push(digit(0)));
    assert("10"@ =~= decimal(10));
    decimal_reads_back(10);
    reveal_strlit("15");
    assert(decimal(1) =~= seq![digit(1)]);
    assert(decimal(15) == decimal(1).push(digit(5)));
    assert("15"@ =~= decimal(15));
    decimal_reads_back(15);
    reveal_strlit("20");
    assert(decimal(2) =~= seq![digit(2)]);
    assert(decimal(20) == decimal(2).push(digit(0)));
    assert("20"@ =~= decimal(20));
    decimal_reads_back(20);
    reveal_strlit("60");
    assert(decimal(6) =~= seq![digit(6)]);
    assert(decimal(60) == decimal(6).push(digit(0)));
    assert("60"@ =~= decimal(60));
    decimal_reads_back(60);
    reveal_strlit("80");
    assert(decimal(8) =~= seq![digit(8)]);
    assert(decimal(80) == decimal(8).push(digit(0)));
    assert("80"@ =~= decimal(80));
    decimal_reads_back(80);
    reveal_strlit("120");
    assert(decimal(1) =~= seq![digit(1)]);
    assert(decimal(12) == decimal(1).push(digit(2)));
    assert(decimal(120) == decimal(12).push(digit(0)));
    assert("120"@ =~= decimal(120));
    decimal_reads_back(120);
    assert("0"@[0] == '0' && "1"@[0] == '1');
}

proof fn lemma_offered_choices()
    ensures
        transport_with_name("sse"@) is Some && transport_name(transport_with_name("sse"@)->0)
            == "sse"@,
        transport_with_name("websocket"@) is Some && transport_name(
            transport_with_name("websocket"@)->0,
        ) == "websocket"@,
        transport_with_name("websocket-cached"@) is Some && transport_name(
            transport_with_name("websocket-cached"@)->0,
        ) == "websocket-cached"@,
        transport_with_name("auto"@) is Some && transport_name(transport_with_name("auto"@)->0)
            == "auto"@,
        timeout_choice("30 sec"@) is Some && timeout_label(timeout_choice("30 sec"@)->0 as nat)
            == "30 sec"@,
        timeout_choice("1 min"@) is Some && timeout_label(timeout_choice("1 min"@)->0 as nat)
            == "1 min"@,
        timeout_choice("2 min"@) is Some && timeout_label(timeout_choice("2 min"@)->0 as nat)
            == "2 min"@,
        timeout_choice("5 min"@) is Some && timeout_label(timeout_choice("5 min"@)->0 as nat)
            == "5 min"@,
        timeout_choice("disabled"@) is Some && timeout_label(timeout_choice("disabled"@)->0 as nat)
            == "disabled"@,
        trust_value("Ask"@) is Some && trust_label(trust_value("Ask"@)->0) == "Ask"@,
        trust_value("Always trust"@) is Some && trust_label(trust_value("Always trust"@)->0)
            == "Always trust"@,
        trust_value("Never trust"@) is Some && trust_label(trust_value("Never trust"@)->0)
            == "Never trust"@,
{
    use_transport_names();
    reveal_strlit("30 sec");
    reveal_strlit("1 min");
    reveal_strlit("2 min");
    reveal_strlit("5 min");
    reveal_strlit("disabled");
    assert("30 sec"@.len() == 6 && "1 min"@.len() == 5 && "2 min"@.len() == 5 && "5 min"@.len() == 5
        && "disabled"@.len() == 8);
    assert("1 min"@[0] == '1' && "2 min"@[0] == '2' && "5 min"@[0] == '5');
    reveal_strlit("Ask");
    reveal_strlit("Always trust");
    reveal_strlit("Never trust");
    reveal_strlit("ask");
    reveal_strlit("always");
    reveal_strlit("never");
    assert("Ask"@.len() == 3 && "Always trust"@.len() == 12 && "Never trust"@.len() == 11);
    assert("ask"@.len() == 3 && "always"@.len() == 6 && "never"@.len() == 5);
}

proof fn lemma_true_is_not_false()
    ensures
        "true"@ != "false"@,
{
    reveal_strlit("true");
    reveal_strlit("false");
    assert("true"@.len() == 4 && "false"@.len() == 5);
}

proof fn use_transport_names()
    ensures
        forall|name: Seq<char>| #[trigger]
            transport_with_name(name) is Some ==> transport_name(transport_with_name(name)->0) == name,
        transport_with_name("sse"@) is Some,
        transport_with_name("websocket"@) is Some,
        transport_with_name("websocket-cached"@) is Some,
        transport_with_name("auto"@) is Some,
{
    assert(transport_name(crate::settings_selector::Transport::Sse) == "sse"@);
    assert(transport_name(crate::settings_selector::Transport::Websocket) == "websocket"@);
    assert(transport_name(crate::settings_selector::Transport::WebsocketCached)
        == "websocket-cached"@);
    assert(transport_name(crate::settings_selector::Transport::Auto) == "auto"@);
}

/// Whether the value can be chosen for the setting: it is one of those offered, or any theme.
pub open spec fn can_choose(item: SettingView, value: Seq<char>) -> bool {
    item.values.contains(value) || item.submenu == Submenu::Theme
}

/// Whether the list is as it was but for the value that the setting at the index shows.
pub open spec fn shows_value_at(
    before: Seq<SettingView>,
    after: Seq<SettingView>,
    i: int,
    value: Seq<char>,
) -> bool {
    after == before.update(i, SettingView { current_value: value, ..before[i] })
}

/// The change that a value makes.
#[verifier::opaque]
spec fn chosen(id: Seq<char>, value: Seq<char>) -> Option<ChangeView> {
    change_for(id, value)
}

/// The settings that are listed first.
spec fn first_settings(config: SettingsConfig, supports_images: bool) -> Seq<SettingView> {
    let first = seq![
        crate::settings_selector::setting_view(
            "autocompact"@,
            "Auto-compact"@,
            "Automatically compact context when it gets too large"@,
            bool_text(config.auto_compact),
            seq!["true"@, "false"@],
            Submenu::Nothing,
        ),
    ];
    if supports_images {
        first + image_settings(config)
    } else {
        first
    }
}

proof fn lemma_choice_of_autocompact(
    before: SettingsConfig,
    after: SettingsConfig,
    supports_images: bool,
    key: Seq<char>,
    value: Seq<char>,
)
    requires
        after == (SettingsConfig { auto_compact: after.auto_compact, ..before }),
        bool_text(after.auto_compact) == value,
    ensures
        shows_value_at(first_settings(before, supports_images), first_settings(after, supports_images), 0, value),
        display_settings(after) == display_settings(before),
        queue_settings(after, key) == queue_settings(before, key),
        startup_settings(after) == startup_settings(before),
        submenu_settings(after) == submenu_settings(before),
{
    let own = first_settings(before, supports_images);
    let shown = first_settings(after, supports_images);
    if supports_images {
        assert(shown[1] == image_settings(after)[0] && shown[2] == image_settings(after)[1]);
        assert(own[1] == image_settings(before)[0] && own[2] == image_settings(before)[1]);
    }
    assert(shown =~= own.update(0, SettingView { current_value: value, ..own[0] }));
}

proof fn lemma_choice_of_show_images(
    before: SettingsConfig,
    after: SettingsConfig,
    supports_images: bool,
    key: Seq<char>,
    value: Seq<char>,
)
    requires
        supports_images,
        after == (SettingsConfig { show_images: after.show_images, ..before }),
        bool_text(after.show_images) == value,
    ensures
        shows_value_at(first_settings(before, supports_images), first_settings(after, supports_images), 1, value),
        display_settings(after) == display_settings(before),
        queue_settings(after, key) == queue_settings(before, key),
        startup_settings(after) == startup_settings(before),
        submenu_settings(after) == submenu_settings(before),
{
    let own = first_settings(before, supports_images);
    let shown = first_settings(after, supports_images);
    assert(own[1] == image_settings(before)[0]);
    if supports_images {
        assert(shown[1] == image_settings(after)[0] && shown[2] == image_settings(after)[1]);
        assert(own[1] == image_settings(before)[0] && own[2] == image_settings(before)[1]);
    }
    assert(shown =~= own.update(1, SettingView { current_value: value, ..own[1] }));
}

proof fn lemma_choice_of_image_width_cells(
    before: SettingsConfig,
    after: SettingsConfig,
    supports_images: bool,
    key: Seq<char>,
    value: Seq<char>,
)
    requires
        supports_images,
        after == (SettingsConfig { image_width_cells: after.image_width_cells, ..before }),
        decimal(after.image_width_cells as nat) == value,
    ensures
        shows_value_at(first_settings(before, supports_images), first_settings(after, supports_images), 2, value),
        display_settings(after) == display_settings(before),
        queue_settings(after, key) == queue_settings(before, key),
        startup_settings(after) == startup_settings(before),
        submenu_settings(after) == submenu_settings(before),
{
    let own = first_settings(before, supports_images);
    let shown = first_settings(after, supports_images);
    assert(own[2] == image_settings(before)[1]);
    if supports_images {
        assert(shown[1] == image_settings(after)[0] && shown[2] == image_settings(after)[1]);
        assert(own[1] == image_settings(before)[0] && own[2] == image_settings(before)[1]);
    }
    assert(shown =~= own.update(2, SettingView { current_value: value, ..own[2] }));
}

proof fn lemma_choice_of_auto_resize_images(
    before: SettingsConfig,
    after: SettingsConfig,
    supports_images: bool,
    key: Seq<char>,
    value: Seq<char>,
)
    requires
        after == (SettingsConfig { auto_resize_images: after.auto_resize_images, ..before }),
        bool_text(after.auto_resize_images) == value,
    ensures
        shows_value_at(display_settings(before), display_settings(after), 0, value),
        first_settings(after, supports_images) == first_settings(before, supports_images),
        queue_settings(after, key) == queue_settings(before, key),
        startup_settings(after) == startup_settings(before),
        submenu_settings(after) == submenu_settings(before),
{
    let own = display_settings(before);
    let shown = display_settings(after);
    assert(shown =~= own.update(0, SettingView { current_value: value, ..own[0] }));
}

proof fn lemma_choice_of_block_images(
    before: SettingsConfig,
    after: SettingsConfig,
    supports_images: bool,
    key: Seq<char>,
    value: Seq<char>,
)
    requires
        after == (SettingsConfig { block_images: after.block_images, ..before }),
        bool_text(after.block_images) == value,
    ensures
        shows_value_at(display_settings(before), display_settings(after), 1, value),
        first_settings(after, supports_images) == first_settings(before, supports_images),
        queue_settings(after, key) == queue_settings(before, key),
        startup_settings(after) == startup_settings(before),
        submenu_settings(after) == submenu_settings(before),
{
    let own = display_settings(before);
    let shown = display_settings(after);
    assert(shown =~= own.update(1, SettingView { current_value: value, ..own[1] }));
}

proof fn lemma_choice_of_skill_commands(
    before: SettingsConfig,
    after: SettingsConfig,
    supports_images: bool,
    key: Seq<char>,
    value: Seq<char>,
)
    requires
        after == (SettingsConfig { enable_skill_commands: after.enable_skill_commands, ..before }),
        bool_text(after.enable_skill_commands) == value,
    ensures
        shows_value_at(display_settings(before), display_settings(after), 2, value),
        first_settings(after, supports_images) == first_settings(before, supports_images),
        queue_settings(after, key) == queue_settings(before, key),
        startup_settings(after) == startup_settings(before),
        submenu_settings(after) == submenu_settings(before),
{
    let own = display_settings(before);
    let shown = display_settings(after);
    assert(shown =~= own.update(2, SettingView { current_value: value, ..own[2] }));
}

proof fn lemma_choice_of_show_hardware_cursor(
    before: SettingsConfig,
    after: SettingsConfig,
    supports_images: bool,
    key: Seq<char>,
    value: Seq<char>,
)
    requires
        after == (SettingsConfig { show_hardware_cursor: after.show_hardware_cursor, ..before }),
        bool_text(after.show_hardware_cursor) == value,
    ensures
        shows_value_at(display_settings(before), display_settings(after), 3, value),
        first_settings(after, supports_images) == first_settings(before, supports_images),
        queue_settings(after, key) == queue_settings(before, key),
        startup_settings(after) == startup_settings(before),
        submenu_settings(after) == submenu_settings(before),
{
    let own = display_settings(before);
    let shown = display_settings(after);
    assert(shown =~= own.update(3, SettingView { current_value: value, ..own[3] }));
}

proof fn lemma_choice_of_editor_padding(
    before: SettingsConfig,
    after: SettingsConfig,
    supports_images: bool,
    key: Seq<char>,
    value: Seq<char>,
)
    requires
        after == (SettingsConfig { editor_padding_x: after.editor_padding_x, ..before }),
        decimal(after.editor_padding_x as nat) == value,
    ensures
        shows_value_at(display_settings(before), display_settings(after), 4, value),
        first_settings(after, supports_images) == first_settings(before, supports_images),
        queue_settings(after, key) == queue_settings(before, key),
        startup_settings(after) == startup_settings(before),
        submenu_settings(after) == submenu_settings(before),
{
    let own = display_settings(before);
    let shown = display_settings(after);
    assert(shown =~= own.update(4, SettingView { current_value: value, ..own[4] }));
}

proof fn lemma_choice_of_output_padding(
    before: SettingsConfig,
    after: SettingsConfig,
    supports_images: bool,
    key: Seq<char>,
    value: Seq<char>,
)
    requires
        after == (SettingsConfig { output_pad: after.output_pad, ..before }),
        decimal(after.output_pad as nat) == value,
    ensures
        shows_value_at(display_settings(before), display_settings(after), 5, value),
        first_settings(after, supports_images) == first_settings(before, supports_images),
        queue_settings(after, key) == queue_settings(before, key),
        startup_settings(after) == startup_settings(before),
        submenu_settings(after) == submenu_settings(before),
{
    let own = display_settings(before);
    let shown = display_settings(after);
    assert(shown =~= own.update(5, SettingView { current_value: value, ..own[5] }));
}

proof fn lemma_choice_of_autocomplete_max_visible(
    before: SettingsConfig,
    after: SettingsConfig,
    supports_images: bool,
    key: Seq<char>,
    value: Seq<char>,
)
    requires
        after == (SettingsConfig { autocomplete_max_visible: after.autocomplete_max_visible, ..before }),
        decimal(after.autocomplete_max_visible as nat) == value,
    ensures
        shows_value_at(display_settings(before), display_settings(after), 6, value),
        first_settings(after, supports_images) == first_settings(before, supports_images),
        queue_settings(after, key) == queue_settings(before, key),
        startup_settings(after) == startup_settings(before),
        submenu_settings(after) == submenu_settings(before),
{
    let own = display_settings(before);
    let shown = display_settings(after);
    assert(shown =~= own.update(6, SettingView { current_value: value, ..own[6] }));
}

proof fn lemma_choice_of_clear_on_shrink(
    before: SettingsConfig,
    after: SettingsConfig,
    supports_images: bool,
    key: Seq<char>,
    value: Seq<char>,
)
    requires
        after == (SettingsConfig { clear_on_shrink: after.clear_on_shrink, ..before }),
        bool_text(after.clear_on_shrink) == value,
    ensures
        shows_value_at(display_settings(before), display_settings(after), 7, value),
        first_settings(after, supports_images) == first_settings(before, supports_images),
        queue_settings(after, key) == queue_settings(before, key),
        startup_settings(after) == startup_settings(before),
        submenu_settings(after) == submenu_settings(before),
{
    let own = display_settings(before);
    let shown = display_settings(after);
    assert(shown =~= own.update(7, SettingView { current_value: value, ..own[7] }));
}

proof fn lemma_choice_of_terminal_progress(
    before: SettingsConfig,
    after: SettingsConfig,
    supports_images: bool,
    key: Seq<char>,
    value: Seq<char>,
)
    requires
        after == (SettingsConfig { show_terminal_progress: after.show_terminal_progress, ..before }),
        bool_text(after.show_terminal_progress) == value,
    ensures
        shows_value_at(display_settings(before), display_settings(after), 8, value),
        first_settings(after, supports_images) == first_settings(before, supports_images),
        queue_settings(after, key) == queue_settings(before, key),
        startup_settings(after) == startup_settings(before),
        submenu_settings(after) == submenu_settings(before),
{
    let own = display_settings(before);
    let shown = display_settings(after);
    assert(shown =~= own.update(8, SettingView { current_value: value, ..own[8] }));
}

proof fn lemma_choice_of_steering_mode(
    before: SettingsConfig,
    after: SettingsConfig,
    supports_images: bool,
    key: Seq<char>,
    value: Seq<char>,
)
    requires
        after == (SettingsConfig { steering_mode: after.steering_mode, ..before }),
        after.steering_mode@ == value,
    ensures
        shows_value_at(queue_settings(before, key), queue_settings(after, key), 0, value),
        first_settings(after, supports_images) == first_settings(before, supports_images),
        display_settings(after) == display_settings(before),
        startup_settings(after) == startup_settings(before),
        submenu_settings(after) == submenu_settings(before),
{
    let own = queue_settings(before, key);
    let shown = queue_settings(after, key);
    assert(shown =~= own.update(0, SettingView { current_value: value, ..own[0] }));
}

proof fn lemma_choice_of_follow_up_mode(
    before: SettingsConfig,
    after: SettingsConfig,
    supports_images: bool,
    key: Seq<char>,
    value: Seq<char>,
)
    requires
        after == (SettingsConfig { follow_up_mode: after.follow_up_mode, ..before }),
        after.follow_up_mode@ == value,
    ensures
        shows_value_at(queue_settings(before, key), queue_settings(after, key), 1, value),
        first_settings(after, supports_images) == first_settings(before, supports_images),
        display_settings(after) == display_settings(before),
        startup_settings(after) == startup_settings(before),
        submenu_settings(after) == submenu_settings(before),
{
    let own = queue_settings(before, key);
    let shown = queue_settings(after, key);
    assert(shown =~= own.update(1, SettingView { current_value: value, ..own[1] }));
}

proof fn lemma_choice_of_transport(
    before: SettingsConfig,
    after: SettingsConfig,
    supports_images: bool,
    key: Seq<char>,
    value: Seq<char>,
)
    requires
        after == (SettingsConfig { transport: after.transport, ..before }),
        transport_name(after.transport) == value,
    ensures
        shows_value_at(queue_settings(before, key), queue_settings(after, key), 2, value),
        first_settings(after, supports_images) == first_settings(before, supports_images),
        display_settings(after) == display_settings(before),
        startup_settings(after) == startup_settings(before),
        submenu_settings(after) == submenu_settings(before),
{
    let own = queue_settings(before, key);
    let shown = queue_settings(after, key);
    assert(shown =~= own.update(2, SettingView { current_value: value, ..own[2] }));
}

proof fn lemma_choice_of_http_idle_timeout(
    before: SettingsConfig,
    after: SettingsConfig,
    supports_images: bool,
    key: Seq<char>,
    value: Seq<char>,
)
    requires
        after == (SettingsConfig { http_idle_timeout_ms: after.http_idle_timeout_ms, ..before }),
        timeout_label(after.http_idle_timeout_ms as nat) == value,
    ensures
        shows_value_at(queue_settings(before, key), queue_settings(after, key), 3, value),
        first_settings(after, supports_images) == first_settings(before, supports_images),
        display_settings(after) == display_settings(before),
        startup_settings(after) == startup_settings(before),
        submenu_settings(after) == submenu_settings(before),
{
    let own = queue_settings(before, key);
    let shown = queue_settings(after, key);
    assert(shown =~= own.update(3, SettingView { current_value: value, ..own[3] }));
}

proof fn lemma_choice_of_hide_thinking(
    before: SettingsConfig,
    after: SettingsConfig,
    supports_images: bool,
    key: Seq<char>,
    value: Seq<char>,
)
    requires
        after == (SettingsConfig { hide_thinking_block: after.hide_thinking_block, ..before }),
        bool_text(after.hide_thinking_block) == value,
    ensures
        shows_value_at(startup_settings(before), startup_settings(after), 0, value),
        first_settings(after, supports_images) == first_settings(before, supports_images),
        display_settings(after) == display_settings(before),
        queue_settings(after, key) == queue_settings(before, key),
        submenu_settings(after) == submenu_settings(before),
{
    let own = startup_settings(before);
    let shown = startup_settings(after);
    assert(shown =~= own.update(0, SettingView { current_value: value, ..own[0] }));
}

proof fn lemma_choice_of_cache_miss_notices(
    before: SettingsConfig,
    after: SettingsConfig,
    supports_images: bool,
    key: Seq<char>,
    value: Seq<char>,
)
    requires
        after == (SettingsConfig { show_cache_miss_notices: after.show_cache_miss_notices, ..before }),
        bool_text(after.show_cache_miss_notices) == value,
    ensures
        shows_value_at(startup_settings(before), startup_settings(after), 1, value),
        first_settings(after, supports_images) == first_settings(before, supports_images),
        display_settings(after) == display_settings(before),
        queue_settings(after, key) == queue_settings(before, key),
        submenu_settings(after) == submenu_settings(before),
{
    let own = startup_settings(before);
    let shown = startup_settings(after);
    assert(shown =~= own.update(1, SettingView { current_value: value, ..own[1] }));
}

proof fn lemma_choice_of_collapse_changelog(
    before: SettingsConfig,
    after: SettingsConfig,
    supports_images: bool,
    key: Seq<char>,
    value: Seq<char>,
)
    requires
        after == (SettingsConfig { collapse_changelog: after.collapse_changelog, ..before }),
        bool_text(after.collapse_changelog) == value,
    ensures
        shows_value_at(startup_settings(before), startup_settings(after), 2, value),
        first_settings(after, supports_images) == first_settings(before, supports_images),
        display_settings(after) == display_settings(before),
        queue_settings(after, key) == queue_settings(before, key),
        submenu_settings(after) == submenu_settings(before),
{
    let own = startup_settings(before);
    let shown = startup_settings(after);
    assert(shown =~= own.update(2, SettingView { current_value: value, ..own[2] }));
}

proof fn lemma_choice_of_quiet_startup(
    before: SettingsConfig,
    after: SettingsConfig,
    supports_images: bool,
    key: Seq<char>,
    value: Seq<char>,
)
    requires
        after == (SettingsConfig { quiet_startup: after.quiet_startup, ..before }),
        bool_text(after.quiet_startup) == value,
    ensures
        shows_value_at(startup_settings(before), startup_settings(after), 3, value),
        first_settings(after, supports_images) == first_settings(before, supports_images),
        display_settings(after) == display_settings(before),
        queue_settings(after, key) == queue_settings(before, key),
        submenu_settings(after) == submenu_settings(before),
{
    let own = startup_settings(before);
    let shown = startup_settings(after);
    assert(shown =~= own.update(3, SettingView { current_value: value, ..own[3] }));
}

proof fn lemma_choice_of_install_telemetry(
    before: SettingsConfig,
    after: SettingsConfig,
    supports_images: bool,
    key: Seq<char>,
    value: Seq<char>,
)
    requires
        after == (SettingsConfig { enable_install_telemetry: after.enable_install_telemetry, ..before }),
        bool_text(after.enable_install_telemetry) == value,
    ensures
        shows_value_at(startup_settings(before), startup_settings(after), 4, value),
        first_settings(after, supports_images) == first_settings(before, supports_images),
        display_settings(after) == display_settings(before),
        queue_settings(after, key) == queue_settings(before, key),
        submenu_settings(after) == submenu_settings(before),
{
    let own = startup_settings(before);
    let shown = startup_settings(after);
    assert(shown =~= own.update(4, SettingView { current_value: value, ..own[4] }));
}

proof fn lemma_choice_of_default_project_trust(
    before: SettingsConfig,
    after: SettingsConfig,
    supports_images: bool,
    key: Seq<char>,
    value: Seq<char>,
)
    requires
        after == (SettingsConfig { default_project_trust: after.default_project_trust, ..before }),
        trust_label(after.default_project_trust@) == value,
    ensures
        shows_value_at(startup_settings(before), startup_settings(after), 5, value),
        first_settings(after, supports_images) == first_settings(before, supports_images),
        display_settings(after) == display_settings(before),
        queue_settings(after, key) == queue_settings(before, key),
        submenu_settings(after) == submenu_settings(before),
{
    let own = startup_settings(before);
    let shown = startup_settings(after);
    assert(shown =~= own.update(5, SettingView { current_value: value, ..own[5] }));
}

proof fn lemma_choice_of_double_escape_action(
    before: SettingsConfig,
    after: SettingsConfig,
    supports_images: bool,
    key: Seq<char>,
    value: Seq<char>,
)
    requires
        after == (SettingsConfig { double_escape_action: after.double_escape_action, ..before }),
        after.double_escape_action@ == value,
    ensures
        shows_value_at(startup_settings(before), startup_settings(after), 6, value),
        first_settings(after, supports_images) == first_settings(before, supports_images),
        display_settings(after) == display_settings(before),
        queue_settings(after, key) == queue_settings(before, key),
        submenu_settings(after) == submenu_settings(before),
{
    let own = startup_settings(before);
    let shown = startup_settings(after);
    assert(shown =~= own.update(6, SettingView { current_value: value, ..own[6] }));
}

proof fn lemma_choice_of_tree_filter_mode(
    before: SettingsConfig,
    after: SettingsConfig,
    supports_images: bool,
    key: Seq<char>,
    value: Seq<char>,
)
    requires
        after == (SettingsConfig { tree_filter_mode: after.tree_filter_mode, ..before }),
        after.tree_filter_mode@ == value,
    ensures
        shows_value_at(startup_settings(before), startup_settings(after), 7, value),
        first_settings(after, supports_images) == first_settings(before, supports_images),
        display_settings(after) == display_settings(before),
        queue_settings(after, key) == queue_settings(before, key),
        submenu_settings(after) == submenu_settings(before),
{
    let own = startup_settings(before);
    let shown = startup_settings(after);
    assert(shown =~= own.update(7, SettingView { current_value: value, ..own[7] }));
}

proof fn lemma_choice_of_theme(
    before: SettingsConfig,
    after: SettingsConfig,
    supports_images: bool,
    key: Seq<char>,
    value: Seq<char>,
)
    requires
        after == (SettingsConfig { current_theme: after.current_theme, ..before }),
        after.current_theme@ == value,
    ensures
        shows_value_at(submenu_settings(before), submenu_settings(after), 2, value),
        first_settings(after, supports_images) == first_settings(before, supports_images),
        display_settings(after) == display_settings(before),
        queue_settings(after, key) == queue_settings(before, key),
        startup_settings(after) == startup_settings(before),
{
    let own = submenu_settings(before);
    let shown = submenu_settings(after);
    assert(shown =~= own.update(2, SettingView { current_value: value, ..own[2] }));
}

proof fn lemma_value_of_autocompact(
    before: SettingsConfig,
    after: SettingsConfig,
    supports_images: bool,
    key: Seq<char>,
    value: Seq<char>,
)
    requires
        first_settings(before, supports_images)[0].values.contains(value),
        chosen("autocompact"@, value) matches Some(change) ==> applied(before, change, after),
    ensures
        chosen("autocompact"@, value) is Some,
        after == (SettingsConfig { auto_compact: after.auto_compact, ..before }),
        bool_text(after.auto_compact) == value,
{
    let offered = first_settings(before, supports_images)[0].values;
    let k = choose|k: int| 0 <= k < offered.len() && offered[k] == value;
    assert(value == "true"@ || value == "false"@);
    lemma_true_is_not_false();
    reveal(chosen);
    lemma_change_of_autocompact(value);
}

proof fn lemma_value_of_show_images(
    before: SettingsConfig,
    after: SettingsConfig,
    supports_images: bool,
    key: Seq<char>,
    value: Seq<char>,
)
    requires
        image_settings(before)[0].values.contains(value),
        chosen("show-images"@, value) matches Some(change) ==> applied(before, change, after),
    ensures
        chosen("show-images"@, value) is Some,
        after == (SettingsConfig { show_images: after.show_images, ..before }),
        bool_text(after.show_images) == value,
{
    let offered = image_settings(before)[0].values;
    let k = choose|k: int| 0 <= k < offered.len() && offered[k] == value;
    assert(value == "true"@ || value == "false"@);
    lemma_true_is_not_false();
    reveal(chosen);
    lemma_change_of_show_images(value);
}

proof fn lemma_value_of_image_width_cells(
    before: SettingsConfig,
    after: SettingsConfig,
    supports_images: bool,
    key: Seq<char>,
    value: Seq<char>,
)
    requires
        image_settings(before)[1].values.contains(value),
        chosen("image-width-cells"@, value) matches Some(change) ==> applied(before, change, after),
    ensures
        chosen("image-width-cells"@, value) is Some,
        after == (SettingsConfig { image_width_cells: after.image_width_cells, ..before }),
        decimal(after.image_width_cells as nat) == value,
{
    let offered = image_settings(before)[1].values;
    let k = choose|k: int| 0 <= k < offered.len() && offered[k] == value;
    assert(value == "60"@ || value == "80"@ || value == "120"@);
    lemma_offered_numbers();
    reveal(chosen);
    lemma_change_of_image_width_cells(value);
}

proof fn lemma_value_of_auto_resize_images(
    before: SettingsConfig,
    after: SettingsConfig,
    supports_images: bool,
    key: Seq<char>,
    value: Seq<char>,
)
    requires
        display_settings(before)[0].values.contains(value),
        chosen("auto-resize-images"@, value) matches Some(change) ==> applied(before, change, after),
    ensures
        chosen("auto-resize-images"@, value) is Some,
        after == (SettingsConfig { auto_resize_images: after.auto_resize_images, ..before }),
        bool_text(after.auto_resize_images) == value,
{
    let offered = display_settings(before)[0].values;
    let k = choose|k: int| 0 <= k < offered.len() && offered[k] == value;
    assert(value == "true"@ || value == "false"@);
    lemma_true_is_not_false();
    reveal(chosen);
    lemma_change_of_auto_resize_images(value);
}

proof fn lemma_value_of_block_images(
    before: SettingsConfig,
    after: SettingsConfig,
    supports_images: bool,
    key: Seq<char>,
    value: Seq<char>,
)
    requires
        display_settings(before)[1].values.contains(value),
        chosen("block-images"@, value) matches Some(change) ==> applied(before, change, after),
    ensures
        chosen("block-images"@, value) is Some,
        after == (SettingsConfig { block_images: after.block_images, ..before }),
        bool_text(after.block_images) == value,
{
    let offered = display_settings(before)[1].values;
    let k = choose|k: int| 0 <= k < offered.len() && offered[k] == value;
    assert(value == "true"@ || value == "false"@);
    lemma_true_is_not_false();
    reveal(chosen);
    lemma_change_of_block_images(value);
}

proof fn lemma_value_of_skill_commands(
    before: SettingsConfig,
    after: SettingsConfig,
    supports_images: bool,
    key: Seq<char>,
    value: Seq<char>,
)
    requires
        display_settings(before)[2].values.contains(value),
        chosen("skill-commands"@, value) matches Some(change) ==> applied(before, change, after),
    ensures
        chosen("skill-commands"@, value) is Some,
        after == (SettingsConfig { enable_skill_commands: after.enable_skill_commands, ..before }),
        bool_text(after.enable_skill_commands) == value,
{
    let offered = display_settings(before)[2].values;
    let k = choose|k: int| 0 <= k < offered.len() && offered[k] == value;
    assert(value == "true"@ || value == "false"@);
    lemma_true_is_not_false();
    reveal(chosen);
    lemma_change_of_skill_commands(value);
}

proof fn lemma_value_of_show_hardware_cursor(
    before: SettingsConfig,
    after: SettingsConfig,
    supports_images: bool,
    key: Seq<char>,
    value: Seq<char>,
)
    requires
        display_settings(before)[3].values.contains(value),
        chosen("show-hardware-cursor"@, value) matches Some(change) ==> applied(before, change, after),
    ensures
        chosen("show-hardware-cursor"@, value) is Some,
        after == (SettingsConfig { show_hardware_cursor: after.show_hardware_cursor, ..before }),
        bool_text(after.show_hardware_cursor) == value,
{
    let offered = display_settings(before)[3].values;
    let k = choose|k: int| 0 <= k < offered.len() && offered[k] == value;
    assert(value == "true"@ || value == "false"@);
    lemma_true_is_not_false();
    reveal(chosen);
    lemma_change_of_show_hardware_cursor(value);
}

proof fn lemma_value_of_editor_padding(
    before: SettingsConfig,
    after: SettingsConfig,
    supports_images: bool,
    key: Seq<char>,
    value: Seq<char>,
)
    requires
        display_settings(before)[4].values.contains(value),
        chosen("editor-padding"@, value) matches Some(change) ==> applied(before, change, after),
    ensures
        chosen("editor-padding"@, value) is Some,
        after == (SettingsConfig { editor_padding_x: after.editor_padding_x, ..before }),
        decimal(after.editor_padding_x as nat) == value,
{
    let offered = display_settings(before)[4].values;
    let k = choose|k: int| 0 <= k < offered.len() && offered[k] == value;
    assert(value == "0"@ || value == "1"@ || value == "2"@ || value == "3"@);
    lemma_offered_numbers();
    reveal(chosen);
    lemma_change_of_editor_padding(value);
}

proof fn lemma_value_of_output_padding(
    before: SettingsConfig,
    after: SettingsConfig,
    supports_images: bool,
    key: Seq<char>,
    value: Seq<char>,
)
    requires
        display_settings(before)[5].values.contains(value),
        chosen("output-padding"@, value) matches Some(change) ==> applied(before, change, after),
    ensures
        chosen("output-padding"@, value) is Some,
        after == (SettingsConfig { output_pad: after.output_pad, ..before }),
        decimal(after.output_pad as nat) == value,
{
    let offered = display_settings(before)[5].values;
    let k = choose|k: int| 0 <= k < offered.len() && offered[k] == value;
    assert(value == "0"@ || value == "1"@);
    lemma_offered_numbers();
    reveal(chosen);
    lemma_change_of_output_padding(value);
}

proof fn lemma_value_of_autocomplete_max_visible(
    before: SettingsConfig,
    after: SettingsConfig,
    supports_images: bool,
    key: Seq<char>,
    value: Seq<char>,
)
    requires
        display_settings(before)[6].values.contains(value),
        chosen("autocomplete-max-visible"@, value) matches Some(change) ==> applied(before, change, after),
    ensures
        chosen("autocomplete-max-visible"@, value) is Some,
        after == (SettingsConfig { autocomplete_max_visible: after.autocomplete_max_visible, ..before }),
        decimal(after.autocomplete_max_visible as nat) == value,
{
    let offered = display_settings(before)[6].values;
    let k = choose|k: int| 0 <= k < offered.len() && offered[k] == value;
    assert(value == "3"@ || value == "5"@ || value == "7"@ || value == "10"@ || value == "15"@ || value == "20"@);
    lemma_offered_numbers();
    reveal(chosen);
    lemma_change_of_autocomplete_max_visible(value);
}

proof fn lemma_value_of_clear_on_shrink(
    before: SettingsConfig,
    after: SettingsConfig,
    supports_images: bool,
    key: Seq<char>,
    value: Seq<char>,
)
    requires
        display_settings(before)[7].values.contains(value),
        chosen("clear-on-shrink"@, value) matches Some(change) ==> applied(before, change, after),
    ensures
        chosen("clear-on-shrink"@, value) is Some,
        after == (SettingsConfig { clear_on_shrink: after.clear_on_shrink, ..before }),
        bool_text(after.clear_on_shrink) == value,
{
    let offered = display_settings(before)[7].values;
    let k = choose|k: int| 0 <= k < offered.len() && offered[k] == value;
    assert(value == "true"@ || value == "false"@);
    lemma_true_is_not_false();
    reveal(chosen);
    lemma_change_of_clear_on_shrink(value);
}

proof fn lemma_value_of_terminal_progress(
    before: SettingsConfig,
    after: SettingsConfig,
    supports_images: bool,
    key: Seq<char>,
    value: Seq<char>,
)
    requires
        display_settings(before)[8].values.contains(value),
        chosen("terminal-progress"@, value) matches Some(change) ==> applied(before, change, after),
    ensures
        chosen("terminal-progress"@, value) is Some,
        after == (SettingsConfig { show_terminal_progress: after.show_terminal_progress, ..before }),
        bool_text(after.show_terminal_progress) == value,
{
    let offered = display_settings(before)[8].values;
    let k = choose|k: int| 0 <= k < offered.len() && offered[k] == value;
    assert(value == "true"@ || value == "false"@);
    lemma_true_is_not_false();
    reveal(chosen);
    lemma_change_of_terminal_progress(value);
}

proof fn lemma_value_of_steering_mode(
    before: SettingsConfig,
    after: SettingsConfig,
    supports_images: bool,
    key: Seq<char>,
    value: Seq<char>,
)
    requires
        queue_settings(before, key)[0].values.contains(value),
        chosen("steering-mode"@, value) matches Some(change) ==> applied(before, change, after),
    ensures
        chosen("steering-mode"@, value) is Some,
        after == (SettingsConfig { steering_mode: after.steering_mode, ..before }),
        after.steering_mode@ == value,
{
    let offered = queue_settings(before, key)[0].values;
    let k = choose|k: int| 0 <= k < offered.len() && offered[k] == value;
    assert(value == "one-at-a-time"@ || value == "all"@);
    reveal(chosen);
    lemma_change_of_steering_mode(value);
}

proof fn lemma_value_of_follow_up_mode(
    before: SettingsConfig,
    after: SettingsConfig,
    supports_images: bool,
    key: Seq<char>,
    value: Seq<char>,
)
    requires
        queue_settings(before, key)[1].values.contains(value),
        chosen("follow-up-mode"@, value) matches Some(change) ==> applied(before, change, after),
    ensures
        chosen("follow-up-mode"@, value) is Some,
        after == (SettingsConfig { follow_up_mode: after.follow_up_mode, ..before }),
        after.follow_up_mode@ == value,
{
    let offered = queue_settings(before, key)[1].values;
    let k = choose|k: int| 0 <= k < offered.len() && offered[k] == value;
    assert(value == "one-at-a-time"@ || value == "all"@);
    reveal(chosen);
    lemma_change_of_follow_up_mode(value);
}

proof fn lemma_value_of_transport(
    before: SettingsConfig,
    after: SettingsConfig,
    supports_images: bool,
    key: Seq<char>,
    value: Seq<char>,
)
    requires
        queue_settings(before, key)[2].values.contains(value),
        chosen("transport"@, value) matches Some(change) ==> applied(before, change, after),
    ensures
        chosen("transport"@, value) is Some,
        after == (SettingsConfig { transport: after.transport, ..before }),
        transport_name(after.transport) == value,
{
    let offered = queue_settings(before, key)[2].values;
    let k = choose|k: int| 0 <= k < offered.len() && offered[k] == value;
    assert(value == "sse"@ || value == "websocket"@ || value == "websocket-cached"@ || value == "auto"@);
    lemma_offered_choices();
    reveal(chosen);
    lemma_change_of_transport(value);
}

proof fn lemma_value_of_http_idle_timeout(
    before: SettingsConfig,
    after: SettingsConfig,
    supports_images: bool,
    key: Seq<char>,
    value: Seq<char>,
)
    requires
        queue_settings(before, key)[3].values.contains(value),
        chosen("http-idle-timeout"@, value) matches Some(change) ==> applied(before, change, after),
    ensures
        chosen("http-idle-timeout"@, value) is Some,
        after == (SettingsConfig { http_idle_timeout_ms: after.http_idle_timeout_ms, ..before }),
        timeout_label(after.http_idle_timeout_ms as nat) == value,
{
    let offered = queue_settings(before, key)[3].values;
    let k = choose|k: int| 0 <= k < offered.len() && offered[k] == value;
    assert(value == "30 sec"@ || value == "1 min"@ || value == "2 min"@ || value == "5 min"@ || value == "disabled"@);
    lemma_offered_choices();
    reveal(chosen);
    lemma_change_of_http_idle_timeout(value);
}

proof fn lemma_value_of_hide_thinking(
    before: SettingsConfig,
    after: SettingsConfig,
    supports_images: bool,
    key: Seq<char>,
    value: Seq<char>,
)
    requires
        startup_settings(before)[0].values.contains(value),
        chosen("hide-thinking"@, value) matches Some(change) ==> applied(before, change, after),
    ensures
        chosen("hide-thinking"@, value) is Some,
        after == (SettingsConfig { hide_thinking_block: after.hide_thinking_block, ..before }),
        bool_text(after.hide_thinking_block) == value,
{
    let offered = startup_settings(before)[0].values;
    let k = choose|k: int| 0 <= k < offered.len() && offered[k] == value;
    assert(value == "true"@ || value == "false"@);
    lemma_true_is_not_false();
    reveal(chosen);
    lemma_change_of_hide_thinking(value);
}

proof fn lemma_value_of_cache_miss_notices(
    before: SettingsConfig,
    after: SettingsConfig,
    supports_images: bool,
    key: Seq<char>,
    value: Seq<char>,
)
    requires
        startup_settings(before)[1].values.contains(value),
        chosen("cache-miss-notices"@, value) matches Some(change) ==> applied(before, change, after),
    ensures
        chosen("cache-miss-notices"@, value) is Some,
        after == (SettingsConfig { show_cache_miss_notices: after.show_cache_miss_notices, ..before }),
        bool_text(after.show_cache_miss_notices) == value,
{
    let offered = startup_settings(before)[1].values;
    let k = choose|k: int| 0 <= k < offered.len() && offered[k] == value;
    assert(value == "true"@ || value == "false"@);
    lemma_true_is_not_false();
    reveal(chosen);
    lemma_change_of_cache_miss_notices(value);
}

proof fn lemma_value_of_collapse_changelog(
    before: SettingsConfig,
    after: SettingsConfig,
    supports_images: bool,
    key: Seq<char>,
    value: Seq<char>,
)
    requires
        startup_settings(before)[2].values.contains(value),
        chosen("collapse-changelog"@, value) matches Some(change) ==> applied(before, change, after),
    ensures
        chosen("collapse-changelog"@, value) is Some,
        after == (SettingsConfig { collapse_changelog: after.collapse_changelog, ..before }),
        bool_text(after.collapse_changelog) == value,
{
    let offered = startup_settings(before)[2].values;
    let k = choose|k: int| 0 <= k < offered.len() && offered[k] == value;
    assert(value == "true"@ || value == "false"@);
    lemma_true_is_not_false();
    reveal(chosen);
    lemma_change_of_collapse_changelog(value);
}

proof fn lemma_value_of_quiet_startup(
    before: SettingsConfig,
    after: SettingsConfig,
    supports_images: bool,
    key: Seq<char>,
    value: Seq<char>,
)
    requires
        startup_settings(before)[3].values.contains(value),
        chosen("quiet-startup"@, value) matches Some(change) ==> applied(before, change, after),
    ensures
        chosen("quiet-startup"@, value) is Some,
        after == (SettingsConfig { quiet_startup: after.quiet_startup, ..before }),
        bool_text(after.quiet_startup) == value,
{
    let offered = startup_settings(before)[3].values;
    let k = choose|k: int| 0 <= k < offered.len() && offered[k] == value;
    assert(value == "true"@ || value == "false"@);
    lemma_true_is_not_false();
    reveal(chosen);
    lemma_change_of_quiet_startup(value);
}

proof fn lemma_value_of_install_telemetry(
    before: SettingsConfig,
    after: SettingsConfig,
    supports_images: bool,
    key: Seq<char>,
    value: Seq<char>,
)
    requires
        startup_settings(before)[4].values.contains(value),
        chosen("install-telemetry"@, value) matches Some(change) ==> applied(before, change, after),
    ensures
        chosen("install-telemetry"@, value) is Some,
        after == (SettingsConfig { enable_install_telemetry: after.enable_install_telemetry, ..before }),
        bool_text(after.enable_install_telemetry) == value,
{
    let offered = startup_settings(before)[4].values;
    let k = choose|k: int| 0 <= k < offered.len() && offered[k] == value;
    assert(value == "true"@ || value == "false"@);
    lemma_true_is_not_false();
    reveal(chosen);
    lemma_change_of_install_telemetry(value);
}

proof fn lemma_value_of_default_project_trust(
    before: SettingsConfig,
    after: SettingsConfig,
    supports_images: bool,
    key: Seq<char>,
    value: Seq<char>,
)
    requires
        startup_settings(before)[5].values.contains(value),
        chosen("default-project-trust"@, value) matches Some(change) ==> applied(before, change, after),
    ensures
        chosen("default-project-trust"@, value) is Some,
        after == (SettingsConfig { default_project_trust: after.default_project_trust, ..before }),
        trust_label(after.default_project_trust@) == value,
{
    let offered = startup_settings(before)[5].values;
    let k = choose|k: int| 0 <= k < offered.len() && offered[k] == value;
    assert(value == "Ask"@ || value == "Always trust"@ || value == "Never trust"@);
    lemma_offered_choices();
    reveal(chosen);
    lemma_change_of_default_project_trust(value);
}

proof fn lemma_value_of_double_escape_action(
    before: SettingsConfig,
    after: SettingsConfig,
    supports_images: bool,
    key: Seq<char>,
    value: Seq<char>,
)
    requires
        startup_settings(before)[6].values.contains(value),
        chosen("double-escape-action"@, value) matches Some(change) ==> applied(before, change, after),
    ensures
        chosen("double-escape-action"@, value) is Some,
        after == (SettingsConfig { double_escape_action: after.double_escape_action, ..before }),
        after.double_escape_action@ == value,
{
    let offered = startup_settings(before)[6].values;
    let k = choose|k: int| 0 <= k < offered.len() && offered[k] == value;
    assert(value == "tree"@ || value == "fork"@ || value == "none"@);
    reveal(chosen);
    lemma_change_of_double_escape_action(value);
}

proof fn lemma_value_of_tree_filter_mode(
    before: SettingsConfig,
    after: SettingsConfig,
    supports_images: bool,
    key: Seq<char>,
    value: Seq<char>,
)
    requires
        startup_settings(before)[7].values.contains(value),
        chosen("tree-filter-mode"@, value) matches Some(change) ==> applied(before, change, after),
    ensures
        chosen("tree-filter-mode"@, value) is Some,
        after == (SettingsConfig { tree_filter_mode: after.tree_filter_mode, ..before }),
        after.tree_filter_mode@ == value,
{
    let offered = startup_settings(before)[7].values;
    let k = choose|k: int| 0 <= k < offered.len() && offered[k] == value;
    assert(value == "default"@ || value == "no-tools"@ || value == "user-only"@ || value == "labeled-only"@ || value == "all"@);
    reveal(chosen);
    lemma_change_of_tree_filter_mode(value);
}

proof fn lemma_value_of_theme(
    before: SettingsConfig,
    after: SettingsConfig,
    supports_images: bool,
    key: Seq<char>,
    value: Seq<char>,
)
    requires
        chosen("theme"@, value) matches Some(change) ==> applied(before, change, after),
    ensures
        chosen("theme"@, value) is Some,
        after == (SettingsConfig { current_theme: after.current_theme, ..before }),
        after.current_theme@ == value,
{
    reveal(chosen);
    lemma_change_of_theme(value);
}

proof fn lemma_first_choice(
    before: SettingsConfig,
    after: SettingsConfig,
    supports_images: bool,
    key: Seq<char>,
    i: int,
    value: Seq<char>,
)
    requires
        0 <= i < first_settings(before, supports_images).len(),
        can_choose(first_settings(before, supports_images)[i], value),
        chosen(first_settings(before, supports_images)[i].id, value) matches Some(change) ==> applied(
            before,
            change,
            after,
        ),
    ensures
        chosen(first_settings(before, supports_images)[i].id, value) is Some,
        shows_value_at(first_settings(before, supports_images), first_settings(after, supports_images), i, value),
        display_settings(after) == display_settings(before),
        queue_settings(after, key) == queue_settings(before, key),
        startup_settings(after) == startup_settings(before),
        submenu_settings(after) == submenu_settings(before),
{
    let own = first_settings(before, supports_images);
    if i == 0 {
        lemma_value_of_autocompact(before, after, supports_images, key, value);
        lemma_choice_of_autocompact(before, after, supports_images, key, value);
    } else if i == 1 {
        assert(own[1] == image_settings(before)[0]);
        lemma_value_of_show_images(before, after, supports_images, key, value);
        lemma_choice_of_show_images(before, after, supports_images, key, value);
    } else {
        assert(own[2] == image_settings(before)[1]);
        lemma_value_of_image_width_cells(before, after, supports_images, key, value);
        lemma_choice_of_image_width_cells(before, after, supports_images, key, value);
    }
}

proof fn lemma_display_choice(
    before: SettingsConfig,
    after: SettingsConfig,
    supports_images: bool,
    key: Seq<char>,
    i: int,
    value: Seq<char>,
)
    requires
        0 <= i < display_settings(before).len(),
        can_choose(display_settings(before)[i], value),
        chosen(display_settings(before)[i].id, value) matches Some(change) ==> applied(
            before,
            change,
            after,
        ),
    ensures
        chosen(display_settings(before)[i].id, value) is Some,
        shows_value_at(display_settings(before), display_settings(after), i, value),
        first_settings(after, supports_images) == first_settings(before, supports_images),
        queue_settings(after, key) == queue_settings(before, key),
        startup_settings(after) == startup_settings(before),
        submenu_settings(after) == submenu_settings(before),
{
    let own = display_settings(before);
    if i == 0 {
        lemma_value_of_auto_resize_images(before, after, supports_images, key, value);
        lemma_choice_of_auto_resize_images(before, after, supports_images, key, value);
    } else if i == 1 {
        lemma_value_of_block_images(before, after, supports_images, key, value);
        lemma_choice_of_block_images(before, after, supports_images, key, value);
    } else if i == 2 {
        lemma_value_of_skill_commands(before, after, supports_images, key, value);
        lemma_choice_of_skill_commands(before, after, supports_images, key, value);
    } else if i == 3 {
        lemma_value_of_show_hardware_cursor(before, after, supports_images, key, value);
        lemma_choice_of_show_hardware_cursor(before, after, supports_images, key, value);
    } else if i == 4 {
        lemma_value_of_editor_padding(before, after, supports_images, key, value);
        lemma_choice_of_editor_padding(before, after, supports_images, key, value);
    } else if i == 5 {
        lemma_value_of_output_padding(before, after, supports_images, key, value);
        lemma_choice_of_output_padding(before, after, supports_images, key, value);
    } else if i == 6 {
        lemma_value_of_autocomplete_max_visible(before, after, supports_images, key, value);
        lemma_choice_of_autocomplete_max_visible(before, after, supports_images, key, value);
    } else if i == 7 {
        lemma_value_of_clear_on_shrink(before, after, supports_images, key, value);
        lemma_choice_of_clear_on_shrink(before, after, supports_images, key, value);
    } else {
        lemma_value_of_terminal_progress(before, after, supports_images, key, value);
        lemma_choice_of_terminal_progress(before, after, supports_images, key, value);
    }
}

proof fn lemma_queue_choice(
    before: SettingsConfig,
    after: SettingsConfig,
    supports_images: bool,
    key: Seq<char>,
    i: int,
    value: Seq<char>,
)
    requires
        0 <= i < queue_settings(before, key).len(),
        can_choose(queue_settings(before, key)[i], value),
        chosen(queue_settings(before, key)[i].id, value) matches Some(change) ==> applied(
            before,
            change,
            after,
        ),
    ensures
        chosen(queue_settings(before, key)[i].id, value) is Some,
        shows_value_at(queue_settings(before, key), queue_settings(after, key), i, value),
        first_settings(after, supports_images) == first_settings(before, supports_images),
        display_settings(after) == display_settings(before),
        startup_settings(after) == startup_settings(before),
        submenu_settings(after) == submenu_settings(before),
{
    let own = queue_settings(before, key);
    if i == 0 {
        lemma_value_of_steering_mode(before, after, supports_images, key, value);
        lemma_choice_of_steering_mode(before, after, supports_images, key, value);
    } else if i == 1 {
        lemma_value_of_follow_up_mode(before, after, supports_images, key, value);
        lemma_choice_of_follow_up_mode(before, after, supports_images, key, value);
    } else if i == 2 {
        lemma_value_of_transport(before, after, supports_images, key, value);
        lemma_choice_of_transport(before, after, supports_images, key, value);
    } else {
        lemma_value_of_http_idle_timeout(before, after, supports_images, key, value);
        lemma_choice_of_http_idle_timeout(before, after, supports_images, key, value);
    }
}

proof fn lemma_startup_choice(
    before: SettingsConfig,
    after: SettingsConfig,
    supports_images: bool,
    key: Seq<char>,
    i: int,
    value: Seq<char>,
)
    requires
        0 <= i < startup_settings(before).len(),
        can_choose(startup_settings(before)[i], value),
        chosen(startup_settings(before)[i].id, value) matches Some(change) ==> applied(
            before,
            change,
            after,
        ),
    ensures
        chosen(startup_settings(before)[i].id, value) is Some,
        shows_value_at(startup_settings(before), startup_settings(after), i, value),
        first_settings(after, supports_images) == first_settings(before, supports_images),
        display_settings(after) == display_settings(before),
        queue_settings(after, key) == queue_settings(before, key),
        submenu_settings(after) == submenu_settings(before),
{
    let own = startup_settings(before);
    if i == 0 {
        lemma_value_of_hide_thinking(before, after, supports_images, key, value);
        lemma_choice_of_hide_thinking(before, after, supports_images, key, value);
    } else if i == 1 {
        lemma_value_of_cache_miss_notices(before, after, supports_images, key, value);
        lemma_choice_of_cache_miss_notices(before, after, supports_images, key, value);
    } else if i == 2 {
        lemma_value_of_collapse_changelog(before, after, supports_images, key, value);
        lemma_choice_of_collapse_changelog(before, after, supports_images, key, value);
    } else if i == 3 {
        lemma_value_of_quiet_startup(before, after, supports_images, key, value);
        lemma_choice_of_quiet_startup(before, after, supports_images, key, value);
    } else if i == 4 {
        lemma_value_of_install_telemetry(before, after, supports_images, key, value);
        lemma_choice_of_install_telemetry(before, after, supports_images, key, value);
    } else if i == 5 {
        lemma_value_of_default_project_trust(before, after, supports_images, key, value);
        lemma_choice_of_default_project_trust(before, after, supports_images, key, value);
    } else if i == 6 {
        lemma_value_of_double_escape_action(before, after, supports_images, key, value);
        lemma_choice_of_double_escape_action(before, after, supports_images, key, value);
    } else {
        lemma_value_of_tree_filter_mode(before, after, supports_images, key, value);
        lemma_choice_of_tree_filter_mode(before, after, supports_images, key, value);
    }
}

proof fn lemma_submenu_choice(
    before: SettingsConfig,
    after: SettingsConfig,
    supports_images: bool,
    key: Seq<char>,
    i: int,
    value: Seq<char>,
)
    requires
        0 <= i < submenu_settings(before).len(),
        can_choose(submenu_settings(before)[i], value),
        chosen(submenu_settings(before)[i].id, value) matches Some(change) ==> applied(
            before,
            change,
            after,
        ),
    ensures
        chosen(submenu_settings(before)[i].id, value) is Some,
        shows_value_at(submenu_settings(before), submenu_settings(after), i, value),
        first_settings(after, supports_images) == first_settings(before, supports_images),
        display_settings(after) == display_settings(before),
        queue_settings(after, key) == queue_settings(before, key),
        startup_settings(after) == startup_settings(before),
{
    let own = submenu_settings(before);
    assert(i == 2);
    lemma_value_of_theme(before, after, supports_images, key, value);
    lemma_choice_of_theme(before, after, supports_images, key, value);
}

/// Choosing a value of a listed setting changes that setting and no other: made to the settings, the
/// change has the list show the value there, and everything else as it was.
pub proof fn chosen_values_are_shown(
    before: SettingsConfig,
    after: SettingsConfig,
    supports_images: bool,
    key: Seq<char>,
    i: int,
    value: Seq<char>,
)
    requires
        0 <= i < listed_settings(before, supports_images, key).len(),
        can_choose(listed_settings(before, supports_images, key)[i], value),
        change_for(listed_settings(before, supports_images, key)[i].id, value) matches Some(change)
            ==> applied(before, change, after),
    ensures
        change_for(listed_settings(before, supports_images, key)[i].id, value) is Some,
        shows_value_at(
            listed_settings(before, supports_images, key),
            listed_settings(after, supports_images, key),
            i,
            value,
        ),
{
    reveal(chosen);
    let first = first_settings(before, supports_images);
    let a: int = first.len() as int;
    let b: int = a + display_settings(before).len();
    let c: int = b + queue_settings(before, key).len();
    let d: int = c + startup_settings(before).len();
    let all = listed_settings(before, supports_images, key);
    let shown = listed_settings(after, supports_images, key);
    assert(all =~= first + display_settings(before) + queue_settings(before, key) + startup_settings(
        before,
    ) + submenu_settings(before));
    assert(shown =~= first_settings(after, supports_images) + display_settings(after)
        + queue_settings(after, key) + startup_settings(after) + submenu_settings(after));
    if i < a {
        assert(all[i] == first[i]);
        lemma_first_choice(before, after, supports_images, key, i, value);
    } else if i < b {
        assert(all[i] == display_settings(before)[i - a]);
        lemma_display_choice(before, after, supports_images, key, i - a, value);
    } else if i < c {
        assert(all[i] == queue_settings(before, key)[i - b]);
        lemma_queue_choice(before, after, supports_images, key, i - b, value);
    } else if i < d {
        assert(all[i] == startup_settings(before)[i - c]);
        lemma_startup_choice(before, after, supports_images, key, i - c, value);
    } else {
        assert(all[i] == submenu_settings(before)[i - d]);
        lemma_submenu_choice(before, after, supports_images, key, i - d, value);
    }
    assert(shown =~= all.update(i, SettingView { current_value: value, ..all[i] }));
}

/// No two ids make the same change.
pub proof fn ids_change_settings_of_their_own(
    id: Seq<char>,
    other: Seq<char>,
    value: Seq<char>,
    other_value: Seq<char>,
)
    requires
        change_for(id, value) is Some,
        change_for(id, value) == change_for(other, other_value),
    ensures
        id == other,
{
}

/// A switch is on for the value `true` and off for every other one, and a text is taken over as it is.
pub proof fn values_are_taken_over(id: Seq<char>, value: Seq<char>)
    ensures
        change_for(id, value) matches Some(ChangeView::Flag(_, on)) ==> on == (value == "true"@),
        change_for(id, value) matches Some(ChangeView::Text(_, text)) ==> text == value,
        change_for(id, value) matches Some(ChangeView::Number(_, n)) ==> number_u32(value) == Some(n),
{
}


} // verus!
