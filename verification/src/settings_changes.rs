//! What choosing a value of a setting changes.

use crate::numbers::{decimal_reads_back, number_u32, parse_u32};
use crate::select_submenu::{
    bordered_list, list_between_borders, submenu, SelectSubmenu, SettingsListShape,
};
use crate::settings_selector::{
    bool_str, bool_text, default_project_trust_by_label, http_idle_timeout_choice,
    level_description, level_name, listed_settings, make_setting, setting_view, setting_views,
    settings_items, thinking_description, thinking_level_from_str, thinking_level_name,
    timeout_choice, timeout_choices_lead_back, timeout_label, transport_from_str, transport_name,
    transport_names_are_distinct, trust_label, trust_labels_lead_back, trust_value,
    ModelThinkingLevel, SettingItem, SettingView, SettingsConfig, Submenu, TerminalTheme, Transport,
    WarningSettings,
};
use crate::text::{chars_of, copy_texts, decimal, str_eq, texts};
use crate::theme_submenu::{opened, ThemeSubmenu};
use crate::transcript::{pieces, Piece};
use vstd::prelude::*;

verus! {

broadcast use vstd::string::group_string_axioms;

/// The settings that are switched on and off.
#[derive(Debug, Clone, Copy, PartialEq, Eq, Structural)]
pub enum FlagSetting {
    AutoCompact,
    ShowImages,
    AutoResizeImages,
    BlockImages,
    EnableSkillCommands,
    HideThinkingBlock,
    ShowCacheMissNotices,
    CollapseChangelog,
    QuietStartup,
    EnableInstallTelemetry,
    ShowHardwareCursor,
    ClearOnShrink,
    ShowTerminalProgress,
}

/// The settings that hold a number.
#[derive(Debug, Clone, Copy, PartialEq, Eq, Structural)]
pub enum NumberSetting {
    ImageWidthCells,
    EditorPaddingX,
    AutocompleteMaxVisible,
}

/// The settings that hold a name.
#[derive(Debug, Clone, Copy, PartialEq, Eq, Structural)]
pub enum TextSetting {
    SteeringMode,
    FollowUpMode,
    DoubleEscapeAction,
    TreeFilterMode,
    Theme,
}

/// A change of the settings.
#[derive(Debug, PartialEq, Eq)]
pub enum SettingsChange {
    Flag(FlagSetting, bool),
    Number(NumberSetting, u32),
    Text(TextSetting, String),
    Transport(Transport),
    HttpIdleTimeoutMs(u64),
    DefaultProjectTrust(String),
    OutputPad(u8),
    ThinkingLevel(ModelThinkingLevel),
    Warnings(WarningSettings),
}

/// The content of a change.
#[verifier::ext_equal]
pub enum ChangeView {
    Flag(FlagSetting, bool),
    Number(NumberSetting, u32),
    Text(TextSetting, Seq<char>),
    Transport(Transport),
    HttpIdleTimeoutMs(u64),
    DefaultProjectTrust(Seq<char>),
    OutputPad(u8),
    ThinkingLevel(ModelThinkingLevel),
    Warnings(WarningSettings),
}

impl View for SettingsChange {
    type V = ChangeView;

    open spec fn view(&self) -> ChangeView {
        match self {
            SettingsChange::Flag(setting, on) => ChangeView::Flag(*setting, *on),
            SettingsChange::Number(setting, n) => ChangeView::Number(*setting, *n),
            SettingsChange::Text(setting, text) => ChangeView::Text(*setting, text@),
            SettingsChange::Transport(transport) => ChangeView::Transport(*transport),
            SettingsChange::HttpIdleTimeoutMs(ms) => ChangeView::HttpIdleTimeoutMs(*ms),
            SettingsChange::DefaultProjectTrust(trust) => ChangeView::DefaultProjectTrust(trust@),
            SettingsChange::OutputPad(pad) => ChangeView::OutputPad(*pad),
            SettingsChange::ThinkingLevel(level) => ChangeView::ThinkingLevel(*level),
            SettingsChange::Warnings(warnings) => ChangeView::Warnings(*warnings),
        }
    }
}

/// The content of a change, if there is one.
pub open spec fn change_view(change: Option<SettingsChange>) -> Option<ChangeView> {
    match change {
        Some(c) => Some(c@),
        None => None,
    }
}

/// The switch with the id.
pub open spec fn flag_with_id(id: Seq<char>) -> Option<FlagSetting> {
    if id == "autocompact"@ {
        Some(FlagSetting::AutoCompact)
    } else if id == "show-images"@ {
        Some(FlagSetting::ShowImages)
    } else if id == "auto-resize-images"@ {
        Some(FlagSetting::AutoResizeImages)
    } else if id == "block-images"@ {
        Some(FlagSetting::BlockImages)
    } else if id == "skill-commands"@ {
        Some(FlagSetting::EnableSkillCommands)
    } else if id == "hide-thinking"@ {
        Some(FlagSetting::HideThinkingBlock)
    } else if id == "cache-miss-notices"@ {
        Some(FlagSetting::ShowCacheMissNotices)
    } else if id == "collapse-changelog"@ {
        Some(FlagSetting::CollapseChangelog)
    } else if id == "quiet-startup"@ {
        Some(FlagSetting::QuietStartup)
    } else if id == "install-telemetry"@ {
        Some(FlagSetting::EnableInstallTelemetry)
    } else if id == "show-hardware-cursor"@ {
        Some(FlagSetting::ShowHardwareCursor)
    } else if id == "clear-on-shrink"@ {
        Some(FlagSetting::ClearOnShrink)
    } else if id == "terminal-progress"@ {
        Some(FlagSetting::ShowTerminalProgress)
    } else {
        None
    }
}

fn flag_by_id(id: &str) -> (r: Option<FlagSetting>)
    ensures
        r == flag_with_id(id@),
{
    if str_eq(id, "autocompact") {
        Some(FlagSetting::AutoCompact)
    } else if str_eq(id, "show-images") {
        Some(FlagSetting::ShowImages)
    } else if str_eq(id, "auto-resize-images") {
        Some(FlagSetting::AutoResizeImages)
    } else if str_eq(id, "block-images") {
        Some(FlagSetting::BlockImages)
    } else if str_eq(id, "skill-commands") {
        Some(FlagSetting::EnableSkillCommands)
    } else if str_eq(id, "hide-thinking") {
        Some(FlagSetting::HideThinkingBlock)
    } else if str_eq(id, "cache-miss-notices") {
        Some(FlagSetting::ShowCacheMissNotices)
    } else if str_eq(id, "collapse-changelog") {
        Some(FlagSetting::CollapseChangelog)
    } else if str_eq(id, "quiet-startup") {
        Some(FlagSetting::QuietStartup)
    } else if str_eq(id, "install-telemetry") {
        Some(FlagSetting::EnableInstallTelemetry)
    } else if str_eq(id, "show-hardware-cursor") {
        Some(FlagSetting::ShowHardwareCursor)
    } else if str_eq(id, "clear-on-shrink") {
        Some(FlagSetting::ClearOnShrink)
    } else if str_eq(id, "terminal-progress") {
        Some(FlagSetting::ShowTerminalProgress)
    } else {
        None
    }
}

/// The setting with a number that has the id.
pub open spec fn number_setting_with_id(id: Seq<char>) -> Option<NumberSetting> {
    if id == "image-width-cells"@ {
        Some(NumberSetting::ImageWidthCells)
    } else if id == "editor-padding"@ {
        Some(NumberSetting::EditorPaddingX)
    } else if id == "autocomplete-max-visible"@ {
        Some(NumberSetting::AutocompleteMaxVisible)
    } else {
        None
    }
}

fn number_setting_by_id(id: &str) -> (r: Option<NumberSetting>)
    ensures
        r == number_setting_with_id(id@),
{
    if str_eq(id, "image-width-cells") {
        Some(NumberSetting::ImageWidthCells)
    } else if str_eq(id, "editor-padding") {
        Some(NumberSetting::EditorPaddingX)
    } else if str_eq(id, "autocomplete-max-visible") {
        Some(NumberSetting::AutocompleteMaxVisible)
    } else {
        None
    }
}

/// The setting with a name that has the id.
pub open spec fn text_setting_with_id(id: Seq<char>) -> Option<TextSetting> {
    if id == "steering-mode"@ {
        Some(TextSetting::SteeringMode)
    } else if id == "follow-up-mode"@ {
        Some(TextSetting::FollowUpMode)
    } else if id == "double-escape-action"@ {
        Some(TextSetting::DoubleEscapeAction)
    } else if id == "tree-filter-mode"@ {
        Some(TextSetting::TreeFilterMode)
    } else if id == "theme"@ {
        Some(TextSetting::Theme)
    } else {
        None
    }
}

fn text_setting_by_id(id: &str) -> (r: Option<TextSetting>)
    ensures
        r == text_setting_with_id(id@),
{
    if str_eq(id, "steering-mode") {
        Some(TextSetting::SteeringMode)
    } else if str_eq(id, "follow-up-mode") {
        Some(TextSetting::FollowUpMode)
    } else if str_eq(id, "double-escape-action") {
        Some(TextSetting::DoubleEscapeAction)
    } else if str_eq(id, "tree-filter-mode") {
        Some(TextSetting::TreeFilterMode)
    } else if str_eq(id, "theme") {
        Some(TextSetting::Theme)
    } else {
        None
    }
}

/// The transport with the name.
pub open spec fn transport_with_name(name: Seq<char>) -> Option<Transport> {
    if exists|t: Transport| #[trigger] transport_name(t) == name {
        Some(choose|t: Transport| #[trigger] transport_name(t) == name)
    } else {
        None
    }
}

/// What choosing the value of the setting changes. A value that the setting cannot hold changes
/// nothing.
pub open spec fn change_for(id: Seq<char>, value: Seq<char>) -> Option<ChangeView> {
    if flag_with_id(id) is Some {
        Some(ChangeView::Flag(flag_with_id(id)->0, value == "true"@))
    } else if number_setting_with_id(id) is Some {
        match number_u32(value) {
            Some(n) => Some(ChangeView::Number(number_setting_with_id(id)->0, n)),
            None => None,
        }
    } else if text_setting_with_id(id) is Some {
        Some(ChangeView::Text(text_setting_with_id(id)->0, value))
    } else if id == "transport"@ {
        match transport_with_name(value) {
            Some(t) => Some(ChangeView::Transport(t)),
            None => None,
        }
    } else if id == "http-idle-timeout"@ {
        match timeout_choice(value) {
            Some(ms) => Some(ChangeView::HttpIdleTimeoutMs(ms)),
            None => None,
        }
    } else if id == "default-project-trust"@ {
        match trust_value(value) {
            Some(trust) => Some(ChangeView::DefaultProjectTrust(trust)),
            None => None,
        }
    } else if id == "output-padding"@ {
        Some(
            ChangeView::OutputPad(
                if value == "0"@ {
                    0
                } else {
                    1
                },
            ),
        )
    } else {
        None
    }
}

/// What choosing the value of the setting changes.
pub fn setting_change(id: &str, value: &str) -> (r: Option<SettingsChange>)
    ensures
        change_view(r) == change_for(id@, value@),
{
    if let Some(setting) = flag_by_id(id) {
        return Some(SettingsChange::Flag(setting, str_eq(value, "true")));
    }
    if let Some(setting) = number_setting_by_id(id) {
        return match parse_u32(&chars_of(value)) {
            Some(n) => Some(SettingsChange::Number(setting, n)),
            None => None,
        };
    }
    if let Some(setting) = text_setting_by_id(id) {
        return Some(SettingsChange::Text(setting, value.to_owned()));
    }
    if str_eq(id, "transport") {
        return match transport_from_str(value) {
            Some(transport) => {
                assert(transport_name(transport) == value@);
                Some(SettingsChange::Transport(transport))
            },
            None => None,
        };
    }
    if str_eq(id, "http-idle-timeout") {
        return match http_idle_timeout_choice(value) {
            Some(ms) => Some(SettingsChange::HttpIdleTimeoutMs(ms)),
            None => None,
        };
    }
    if str_eq(id, "default-project-trust") {
        return match default_project_trust_by_label(value) {
            Some(trust) => Some(SettingsChange::DefaultProjectTrust(trust.to_owned())),
            None => None,
        };
    }
    if str_eq(id, "output-padding") {
        let pad: u8 = if str_eq(value, "0") {
            0
        } else {
            1
        };
        return Some(SettingsChange::OutputPad(pad));
    }
    None
}

/// Choosing the value that is shown of a switch keeps it as it is.
pub proof fn shown_switch_reads_back(id: Seq<char>, on: bool)
    requires
        flag_with_id(id) is Some,
    ensures
        change_for(id, bool_text(on)) == Some(ChangeView::Flag(flag_with_id(id)->0, on)),
{
    reveal_strlit("true");
    reveal_strlit("false");
    assert("true"@.len() == 4 && "false"@.len() == 5);
}

/// Choosing the number that is shown of a setting keeps it as it is.
pub proof fn shown_number_reads_back(id: Seq<char>, n: u32)
    requires
        flag_with_id(id) is None,
        number_setting_with_id(id) is Some,
    ensures
        change_for(id, decimal(n as nat)) == Some(
            ChangeView::Number(number_setting_with_id(id)->0, n),
        ),
{
    decimal_reads_back(n as nat);
}

/// The transport, the idle timeout and the trust setting have ids of their own.
proof fn lemma_choice_ids()
    ensures
        flag_with_id("transport"@) is None,
        number_setting_with_id("transport"@) is None,
        text_setting_with_id("transport"@) is None,
        flag_with_id("http-idle-timeout"@) is None,
        number_setting_with_id("http-idle-timeout"@) is None,
        text_setting_with_id("http-idle-timeout"@) is None,
        flag_with_id("default-project-trust"@) is None,
        number_setting_with_id("default-project-trust"@) is None,
        text_setting_with_id("default-project-trust"@) is None,
        flag_with_id("output-padding"@) is None,
        number_setting_with_id("output-padding"@) is None,
        text_setting_with_id("output-padding"@) is None,
        "http-idle-timeout"@ != "transport"@,
        "default-project-trust"@ != "transport"@,
        "default-project-trust"@ != "http-idle-timeout"@,
        "output-padding"@ != "transport"@,
        "output-padding"@ != "http-idle-timeout"@,
        "output-padding"@ != "default-project-trust"@,
{
    reveal_strlit("autocompact");
    reveal_strlit("show-images");
    reveal_strlit("auto-resize-images");
    reveal_strlit("block-images");
    reveal_strlit("skill-commands");
    reveal_strlit("hide-thinking");
    reveal_strlit("cache-miss-notices");
    reveal_strlit("collapse-changelog");
    reveal_strlit("quiet-startup");
    reveal_strlit("install-telemetry");
    reveal_strlit("show-hardware-cursor");
    reveal_strlit("clear-on-shrink");
    reveal_strlit("terminal-progress");
    reveal_strlit("image-width-cells");
    reveal_strlit("editor-padding");
    reveal_strlit("autocomplete-max-visible");
    reveal_strlit("steering-mode");
    reveal_strlit("follow-up-mode");
    reveal_strlit("double-escape-action");
    reveal_strlit("tree-filter-mode");
    reveal_strlit("theme");
    reveal_strlit("transport");
    reveal_strlit("http-idle-timeout");
    reveal_strlit("default-project-trust");
    reveal_strlit("output-padding");
    assert("autocompact"@.len() == 11 && "autocompact"@[0] == 'a' && "autocompact"@[4] == 'c');
    assert("show-images"@.len() == 11 && "show-images"@[0] == 's' && "show-images"@[4] == '-');
    assert("auto-resize-images"@.len() == 18 && "auto-resize-images"@[0] == 'a' && "auto-resize-images"@[4] == '-');
    assert("block-images"@.len() == 12 && "block-images"@[0] == 'b' && "block-images"@[4] == 'k');
    assert("skill-commands"@.len() == 14 && "skill-commands"@[0] == 's' && "skill-commands"@[4] == 'l');
    assert("hide-thinking"@.len() == 13 && "hide-thinking"@[0] == 'h' && "hide-thinking"@[4] == '-');
    assert("cache-miss-notices"@.len() == 18 && "cache-miss-notices"@[0] == 'c' && "cache-miss-notices"@[4] == 'e');
    assert("collapse-changelog"@.len() == 18 && "collapse-changelog"@[0] == 'c' && "collapse-changelog"@[4] == 'a');
    assert("quiet-startup"@.len() == 13 && "quiet-startup"@[0] == 'q' && "quiet-startup"@[4] == 't');
    assert("install-telemetry"@.len() == 17 && "install-telemetry"@[0] == 'i' && "install-telemetry"@[4] == 'a');
    assert("show-hardware-cursor"@.len() == 20 && "show-hardware-cursor"@[0] == 's' && "show-hardware-cursor"@[4] == '-');
    assert("clear-on-shrink"@.len() == 15 && "clear-on-shrink"@[0] == 'c' && "clear-on-shrink"@[4] == 'r');
    assert("terminal-progress"@.len() == 17 && "terminal-progress"@[0] == 't' && "terminal-progress"@[4] == 'i');
    assert("image-width-cells"@.len() == 17 && "image-width-cells"@[0] == 'i' && "image-width-cells"@[4] == 'e');
    assert("editor-padding"@.len() == 14 && "editor-padding"@[0] == 'e' && "editor-padding"@[4] == 'o');
    assert("autocomplete-max-visible"@.len() == 24 && "autocomplete-max-visible"@[0] == 'a' && "autocomplete-max-visible"@[4] == 'c');
    assert("steering-mode"@.len() == 13 && "steering-mode"@[0] == 's' && "steering-mode"@[4] == 'r');
    assert("follow-up-mode"@.len() == 14 && "follow-up-mode"@[0] == 'f' && "follow-up-mode"@[4] == 'o');
    assert("double-escape-action"@.len() == 20 && "double-escape-action"@[0] == 'd' && "double-escape-action"@[4] == 'l');
    assert("tree-filter-mode"@.len() == 16 && "tree-filter-mode"@[0] == 't' && "tree-filter-mode"@[4] == '-');
    assert("theme"@.len() == 5 && "theme"@[0] == 't' && "theme"@[4] == 'e');
    assert("transport"@.len() == 9 && "transport"@[0] == 't' && "transport"@[4] == 's');
    assert("http-idle-timeout"@.len() == 17 && "http-idle-timeout"@[0] == 'h' && "http-idle-timeout"@[4] == '-');
    assert("default-project-trust"@.len() == 21 && "default-project-trust"@[0] == 'd' && "default-project-trust"@[4] == 'u');
    assert("output-padding"@.len() == 14 && "output-padding"@[0] == 'o' && "output-padding"@[4] == 'u');
}

/// Choosing the transport, the idle timeout or the trust setting that is shown keeps it as it is.
pub proof fn shown_choice_reads_back(transport: Transport, timeout_ms: u64, trust: Seq<char>)
    requires
        timeout_ms == 30_000 || timeout_ms == 60_000 || timeout_ms == 120_000 || timeout_ms == 300_000
            || timeout_ms == 0,
        trust == "ask"@ || trust == "always"@ || trust == "never"@,
    ensures
        change_for("transport"@, transport_name(transport)) == Some(
            ChangeView::Transport(transport),
        ),
        change_for("http-idle-timeout"@, timeout_label(timeout_ms as nat)) == Some(
            ChangeView::HttpIdleTimeoutMs(timeout_ms),
        ),
        change_for("default-project-trust"@, trust_label(trust)) == Some(
            ChangeView::DefaultProjectTrust(trust),
        ),
{
    lemma_choice_ids();
    let name = transport_name(transport);
    let chosen = choose|t: Transport| #[trigger] transport_name(t) == name;
    assert(transport_name(chosen) == name);
    transport_names_are_distinct(transport, chosen);
    timeout_choices_lead_back(timeout_ms);
    trust_labels_lead_back(trust);
}

/// Choosing a padding of the output that is offered sets it.
pub proof fn output_padding_reads_back(pad: u8)
    requires
        pad <= 1,
    ensures
        change_for("output-padding"@, decimal(pad as nat)) == Some(ChangeView::OutputPad(pad)),
{
    lemma_choice_ids();
    reveal_strlit("0");
    assert("0"@.len() == 1 && "0"@[0] == '0');
    assert(decimal(0) =~= "0"@);
    assert(decimal(1)[0] == '1');
}

/// The settings list with what its submenus choose from.
#[derive(Debug)]
pub struct SettingsSelectorComponent {
    pub items: Vec<SettingItem>,
    pub warnings: WarningSettings,
    pub thinking_levels: Vec<ModelThinkingLevel>,
    pub themes: Vec<String>,
    pub terminal_theme: TerminalTheme,
}

/// How a submenu was left: with the value to show, or with none.
#[derive(Debug)]
pub struct SubmenuResult {
    pub change: Option<SettingsChange>,
    pub value: Option<String>,
}

/// One option of a submenu.
#[derive(Debug)]
pub struct SelectItem {
    pub value: String,
    pub label: String,
    pub description: Option<String>,
}

/// The content of an option.
#[verifier::ext_equal]
pub struct SelectView {
    pub value: Seq<char>,
    pub label: Seq<char>,
    pub description: Option<Seq<char>>,
}

impl View for SelectItem {
    type V = SelectView;

    open spec fn view(&self) -> SelectView {
        SelectView {
            value: self.value@,
            label: self.label@,
            description: match self.description {
                Some(d) => Some(d@),
                None => None,
            },
        }
    }
}

/// The contents of options.
pub open spec fn select_views(items: Seq<SelectItem>) -> Seq<SelectView> {
    items.map_values(|i: SelectItem| i@)
}

/// The option that a submenu starts on: the first one with the current value.
pub fn initial_option(items: &Vec<SelectItem>, current: &str) -> (r: Option<usize>)
    ensures
        match r {
            Some(i) => i < items.len() && items[i as int].value@ == current@ && forall|j: int|
                0 <= j < i ==> (#[trigger] items[j]).value@ != current@,
            None => forall|j: int| 0 <= j < items.len() ==> (#[trigger] items[j]).value@ != current@,
        },
{
    let mut i: usize = 0;
    while i < items.len()
        invariant
            i <= items.len(),
            forall|j: int| 0 <= j < i ==> (#[trigger] items[j]).value@ != current@,
        decreases items.len() - i,
    {
        if str_eq(items[i].value.as_str(), current) {
            return Some(i);
        }
        i = i + 1;
    }
    None
}

/// The options of the thinking submenu.
pub open spec fn thinking_options(levels: Seq<ModelThinkingLevel>) -> Seq<SelectView> {
    levels.map_values(
        |level: ModelThinkingLevel|
            SelectView {
                value: level_name(level),
                label: level_name(level),
                description: Some(level_description(level)),
            },
    )
}

/// The warnings submenu: one switch, which is on unless it was switched off.
pub open spec fn warning_rows(warnings: WarningSettings) -> Seq<SettingView> {
    seq![
        setting_view(
            "anthropic-extra-usage"@,
            "Anthropic extra usage"@,
            "Warn when Anthropic subscription auth may use paid extra usage"@,
            bool_text(warnings.anthropic_extra_usage != Some(false)),
            seq!["true"@, "false"@],
            Submenu::Nothing,
        ),
    ]
}

/// The warnings after the value of one is chosen. Warnings that are not known are left as they are.
pub open spec fn warnings_after(
    warnings: WarningSettings,
    id: Seq<char>,
    value: Seq<char>,
) -> WarningSettings {
    if id == "anthropic-extra-usage"@ {
        WarningSettings { anthropic_extra_usage: Some(value == "true"@) }
    } else {
        warnings
    }
}

impl SettingsSelectorComponent {
    /// The settings list over the settings.
    #[must_use]
    pub fn new(config: SettingsConfig, supports_images: bool, follow_up_key: &str) -> (r: Self)
        ensures
            setting_views(r.items@) == listed_settings(config, supports_images, follow_up_key@),
            r.warnings == config.warnings,
            r.thinking_levels == config.available_thinking_levels,
            r.themes == config.available_themes,
            r.terminal_theme == config.terminal_theme,
    {
        let items = settings_items(&config, supports_images, follow_up_key);
        SettingsSelectorComponent {
            items,
            warnings: config.warnings,
            thinking_levels: config.available_thinking_levels,
            themes: config.available_themes,
            terminal_theme: config.terminal_theme,
        }
    }

    /// The settings that are listed.
    pub fn get_settings_list(&self) -> (r: &Vec<SettingItem>)
        ensures
            *r == self.items,
    {
        &self.items
    }

    /// How the list of settings is shown: ten at once, with a search.
    pub fn list_shape(&self) -> (r: SettingsListShape)
        ensures
            r == (SettingsListShape { max_visible: 10, enable_search: true }),
    {
        SettingsListShape { max_visible: 10, enable_search: true }
    }

    /// The pieces of the component: the list between two borders.
    pub fn render(&self) -> (r: Vec<Piece>)
        ensures
            pieces(r@) == bordered_list(),
    {
        list_between_borders()
    }

    /// The thinking submenu over the current value.
    pub fn thinking_submenu(&self, current_value: &str) -> (r: SelectSubmenu)
        ensures
            r@ == submenu(
                "Thinking Level"@,
                "Select reasoning depth for thinking-capable models"@,
                thinking_options(self.thinking_levels@),
                current_value@,
            ),
    {
        SelectSubmenu::new(
            "Thinking Level",
            "Select reasoning depth for thinking-capable models",
            self.thinking_items(),
            current_value,
        )
    }

    /// The theme submenu over the current value.
    pub fn theme_submenu(&self, current_value: &str) -> (r: ThemeSubmenu)
        ensures
            r@ == opened(current_value@, self.terminal_theme, texts(self.themes@)),
    {
        ThemeSubmenu::new(current_value, self.terminal_theme, copy_texts(&self.themes))
    }

    /// How the list of warnings is shown: all of them, with a search.
    pub fn warning_list_shape(&self) -> (r: SettingsListShape)
        ensures
            r == (SettingsListShape { max_visible: 1, enable_search: true }),
    {
        SettingsListShape { max_visible: 1, enable_search: true }
    }

    /// The options of the thinking submenu.
    pub fn thinking_items(&self) -> (r: Vec<SelectItem>)
        ensures
            select_views(r@) == thinking_options(self.thinking_levels@),
    {
        let mut r: Vec<SelectItem> = Vec::new();
        let mut i: usize = 0;
        while i < self.thinking_levels.len()
            invariant
                i <= self.thinking_levels.len(),
                select_views(r@) =~= thinking_options(self.thinking_levels@).take(i as int),
            decreases self.thinking_levels.len() - i,
        {
            let level = self.thinking_levels[i];
            let item = SelectItem {
                value: thinking_level_name(level).to_owned(),
                label: thinking_level_name(level).to_owned(),
                description: Some(thinking_description(level).to_owned()),
            };
            let ghost before = r@;
            r.push(item);
            assert(select_views(r@) =~= select_views(before).push(item@));
            assert(item@ =~= thinking_options(self.thinking_levels@)[i as int]);
            i = i + 1;
        }
        r
    }

    /// The warnings submenu: one switch, which is on unless it was switched off.
    pub fn warning_items(&self) -> (r: Vec<SettingItem>)
        ensures
            setting_views(r@) == warning_rows(self.warnings),
    {
        let on = match self.warnings.anthropic_extra_usage {
            Some(on) => on,
            None => true,
        };
        let mut r: Vec<SettingItem> = Vec::new();
        r.push(
            make_setting(
                "anthropic-extra-usage",
                "Anthropic extra usage",
                "Warn when Anthropic subscription auth may use paid extra usage".to_owned(),
                bool_str(on),
                &["true", "false"],
                Submenu::Nothing,
            ),
        );
        assert(setting_views(r@) =~~= warning_rows(self.warnings));
        r
    }

    /// Switches a warning. Warnings that are not known are left as they are.
    pub fn change_warning(&mut self, id: &str, value: &str) -> (r: Option<SettingsChange>)
        ensures
            final(self).warnings == warnings_after(old(self).warnings, id@, value@),
            *final(self) == (SettingsSelectorComponent {
                warnings: final(self).warnings,
                ..*old(self)
            }),
            change_view(r) == if id@ == "anthropic-extra-usage"@ {
                Some(ChangeView::Warnings(final(self).warnings))
            } else {
                None
            },
    {
        if str_eq(id, "anthropic-extra-usage") {
            self.warnings =
            WarningSettings { anthropic_extra_usage: Some(str_eq(value, "true")) };
            Some(SettingsChange::Warnings(self.warnings))
        } else {
            None
        }
    }

    /// Chooses a thinking level: the level changes where the name is one, and the name is shown.
    pub fn choose_thinking(&self, value: &str) -> (r: SubmenuResult)
        ensures
            r.value is Some && r.value->0@ == value@,
            forall|level: ModelThinkingLevel| #[trigger]
                level_name(level) == value@ <==> change_view(r.change) == Some(
                    ChangeView::ThinkingLevel(level),
                ),
            r.change matches Some(change) ==> change is ThinkingLevel,
    {
        let change = match thinking_level_from_str(value) {
            Some(level) => {
                assert(level_name(level) == value@);
                Some(SettingsChange::ThinkingLevel(level))
            },
            None => None,
        };
        SubmenuResult { change, value: Some(value.to_owned()) }
    }
}

} // verus!
