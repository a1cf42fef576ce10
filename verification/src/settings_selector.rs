//! Interactive settings: which settings are listed, which values they offer,
//! and what choosing one changes.

use crate::text::{
    decimal, decimal_str, digit, digit_char, push_char, push_text, str_eq, texts,
};
use vstd::prelude::*;
use vstd::string::*;

verus! {

broadcast use vstd::string::group_string_axioms;

/// How deeply a model reasons.
#[derive(Debug, Clone, Copy, PartialEq, Eq, Structural)]
pub enum ModelThinkingLevel {
    Off,
    Minimal,
    Low,
    Medium,
    High,
    Xhigh,
    Max,
}

/// How providers are reached.
#[derive(Debug, Clone, Copy, PartialEq, Eq, Structural)]
pub enum Transport {
    Sse,
    Websocket,
    WebsocketCached,
    Auto,
}

/// Whether the terminal is light or dark.
#[derive(Debug, Clone, Copy, PartialEq, Eq, Structural)]
pub enum TerminalTheme {
    Dark,
    Light,
}

/// The name of a thinking level.
pub open spec fn level_name(level: ModelThinkingLevel) -> Seq<char> {
    match level {
        ModelThinkingLevel::Off => "off"@,
        ModelThinkingLevel::Minimal => "minimal"@,
        ModelThinkingLevel::Low => "low"@,
        ModelThinkingLevel::Medium => "medium"@,
        ModelThinkingLevel::High => "high"@,
        ModelThinkingLevel::Xhigh => "xhigh"@,
        ModelThinkingLevel::Max => "max"@,
    }
}

/// No two thinking levels have the same name.
pub proof fn level_names_are_distinct(a: ModelThinkingLevel, b: ModelThinkingLevel)
    ensures
        level_name(a) == level_name(b) ==> a == b,
{
    reveal_strlit("off");
    reveal_strlit("minimal");
    reveal_strlit("low");
    reveal_strlit("medium");
    reveal_strlit("high");
    reveal_strlit("xhigh");
    reveal_strlit("max");
    assert("off"@.len() == 3 && "minimal"@.len() == 7 && "low"@.len() == 3 && "medium"@.len() == 6);
    assert("high"@.len() == 4 && "xhigh"@.len() == 5 && "max"@.len() == 3);
    assert("off"@[0] == 'o' && "low"@[0] == 'l' && "max"@[0] == 'm');
}

/// The name of a thinking level.
pub fn thinking_level_name(level: ModelThinkingLevel) -> (r: &'static str)
    ensures
        r@ == level_name(level),
{
    match level {
        ModelThinkingLevel::Off => "off",
        ModelThinkingLevel::Minimal => "minimal",
        ModelThinkingLevel::Low => "low",
        ModelThinkingLevel::Medium => "medium",
        ModelThinkingLevel::High => "high",
        ModelThinkingLevel::Xhigh => "xhigh",
        ModelThinkingLevel::Max => "max",
    }
}

/// The thinking level with the name. Each level is what its own name gives.
pub fn thinking_level_from_str(value: &str) -> (r: Option<ModelThinkingLevel>)
    ensures
        forall|level: ModelThinkingLevel| #[trigger] level_name(level) == value@ <==> r == Some(level),
{
    proof {
        assert forall|a: ModelThinkingLevel, b: ModelThinkingLevel|
            #![trigger level_name(a), level_name(b)]
            level_name(a) == level_name(b) implies a == b by {
            level_names_are_distinct(a, b);
        }
    }
    if str_eq(value, "off") {
        assert(level_name(ModelThinkingLevel::Off) == value@);
        Some(ModelThinkingLevel::Off)
    } else if str_eq(value, "minimal") {
        assert(level_name(ModelThinkingLevel::Minimal) == value@);
        Some(ModelThinkingLevel::Minimal)
    } else if str_eq(value, "low") {
        assert(level_name(ModelThinkingLevel::Low) == value@);
        Some(ModelThinkingLevel::Low)
    } else if str_eq(value, "medium") {
        assert(level_name(ModelThinkingLevel::Medium) == value@);
        Some(ModelThinkingLevel::Medium)
    } else if str_eq(value, "high") {
        assert(level_name(ModelThinkingLevel::High) == value@);
        Some(ModelThinkingLevel::High)
    } else if str_eq(value, "xhigh") {
        assert(level_name(ModelThinkingLevel::Xhigh) == value@);
        Some(ModelThinkingLevel::Xhigh)
    } else if str_eq(value, "max") {
        assert(level_name(ModelThinkingLevel::Max) == value@);
        Some(ModelThinkingLevel::Max)
    } else {
        None
    }
}

/// What a thinking level means.
pub open spec fn level_description(level: ModelThinkingLevel) -> Seq<char> {
    match level {
        ModelThinkingLevel::Off => "No reasoning"@,
        ModelThinkingLevel::Minimal => "Very brief reasoning (~1k tokens)"@,
        ModelThinkingLevel::Low => "Light reasoning (~2k tokens)"@,
        ModelThinkingLevel::Medium => "Moderate reasoning (~8k tokens)"@,
        ModelThinkingLevel::High => "Deep reasoning (~16k tokens)"@,
        ModelThinkingLevel::Xhigh => "Extra-high reasoning (~32k tokens)"@,
        ModelThinkingLevel::Max => "Maximum reasoning"@,
    }
}

/// What a thinking level means.
pub fn thinking_description(level: ModelThinkingLevel) -> (r: &'static str)
    ensures
        r@ == level_description(level),
{
    match level {
        ModelThinkingLevel::Off => "No reasoning",
        ModelThinkingLevel::Minimal => "Very brief reasoning (~1k tokens)",
        ModelThinkingLevel::Low => "Light reasoning (~2k tokens)",
        ModelThinkingLevel::Medium => "Moderate reasoning (~8k tokens)",
        ModelThinkingLevel::High => "Deep reasoning (~16k tokens)",
        ModelThinkingLevel::Xhigh => "Extra-high reasoning (~32k tokens)",
        ModelThinkingLevel::Max => "Maximum reasoning",
    }
}

/// The label of a trust setting; an unknown one counts as asking.
pub open spec fn trust_label(value: Seq<char>) -> Seq<char> {
    if value == "always"@ {
        "Always trust"@
    } else if value == "never"@ {
        "Never trust"@
    } else {
        "Ask"@
    }
}

/// The trust setting with the label.
pub open spec fn trust_value(label: Seq<char>) -> Option<Seq<char>> {
    if label == "Ask"@ {
        Some("ask"@)
    } else if label == "Always trust"@ {
        Some("always"@)
    } else if label == "Never trust"@ {
        Some("never"@)
    } else {
        None
    }
}

/// The label of each trust setting leads back to the setting.
pub proof fn trust_labels_lead_back(value: Seq<char>)
    ensures
        trust_value(trust_label(value)) == Some(
            if value == "always"@ || value == "never"@ {
                value
            } else {
                "ask"@
            },
        ),
{
    reveal_strlit("Ask");
    reveal_strlit("Always trust");
    reveal_strlit("Never trust");
    reveal_strlit("always");
    reveal_strlit("never");
    assert("Ask"@.len() == 3 && "Always trust"@.len() == 12 && "Never trust"@.len() == 11);
    assert("always"@.len() == 6 && "never"@.len() == 5);
}

/// The label of a trust setting; an unknown one counts as asking.
pub fn default_project_trust_label(value: &str) -> (r: &'static str)
    ensures
        r@ == trust_label(value@),
{
    if str_eq(value, "always") {
        "Always trust"
    } else if str_eq(value, "never") {
        "Never trust"
    } else {
        "Ask"
    }
}

/// The trust setting with the label.
pub fn default_project_trust_by_label(label: &str) -> (r: Option<&'static str>)
    ensures
        match r {
            Some(value) => trust_value(label@) == Some(value@),
            None => trust_value(label@) is None,
        },
{
    if str_eq(label, "Ask") {
        Some("ask")
    } else if str_eq(label, "Always trust") {
        Some("always")
    } else if str_eq(label, "Never trust") {
        Some("never")
    } else {
        None
    }
}

/// The name of a transport.
pub open spec fn transport_name(transport: Transport) -> Seq<char> {
    match transport {
        Transport::Sse => "sse"@,
        Transport::Websocket => "websocket"@,
        Transport::WebsocketCached => "websocket-cached"@,
        Transport::Auto => "auto"@,
    }
}

/// No two transports have the same name.
pub proof fn transport_names_are_distinct(a: Transport, b: Transport)
    ensures
        transport_name(a) == transport_name(b) ==> a == b,
{
    reveal_strlit("sse");
    reveal_strlit("websocket");
    reveal_strlit("websocket-cached");
    reveal_strlit("auto");
    assert("sse"@.len() == 3 && "websocket"@.len() == 9 && "websocket-cached"@.len() == 16
        && "auto"@.len() == 4);
}

/// The name of a transport.
pub fn transport_as_str(transport: Transport) -> (r: &'static str)
    ensures
        r@ == transport_name(transport),
{
    match transport {
        Transport::Sse => "sse",
        Transport::Websocket => "websocket",
        Transport::WebsocketCached => "websocket-cached",
        Transport::Auto => "auto",
    }
}

/// The transport with the name. Each transport is what its own name gives.
pub fn transport_from_str(value: &str) -> (r: Option<Transport>)
    ensures
        forall|transport: Transport| #[trigger]
            transport_name(transport) == value@ <==> r == Some(transport),
{
    proof {
        assert forall|a: Transport, b: Transport|
            #![trigger transport_name(a), transport_name(b)]
            transport_name(a) == transport_name(b) implies a == b by {
            transport_names_are_distinct(a, b);
        }
    }
    if str_eq(value, "sse") {
        assert(transport_name(Transport::Sse) == value@);
        Some(Transport::Sse)
    } else if str_eq(value, "websocket") {
        assert(transport_name(Transport::Websocket) == value@);
        Some(Transport::Websocket)
    } else if str_eq(value, "websocket-cached") {
        assert(transport_name(Transport::WebsocketCached) == value@);
        Some(Transport::WebsocketCached)
    } else if str_eq(value, "auto") {
        assert(transport_name(Transport::Auto) == value@);
        Some(Transport::Auto)
    } else {
        None
    }
}

/// Thousandths as a fraction, without trailing zeros.
pub open spec fn fraction(thousandths: nat) -> Seq<char> {
    let hundreds = digit(thousandths / 100);
    let tens = digit(thousandths / 10 % 10);
    let ones = digit(thousandths % 10);
    if thousandths % 1000 == 0 {
        Seq::empty()
    } else if thousandths % 100 == 0 {
        seq!['.', hundreds]
    } else if thousandths % 10 == 0 {
        seq!['.', hundreds, tens]
    } else {
        seq!['.', hundreds, tens, ones]
    }
}

/// How an idle timeout is shown: by its label among the choices, otherwise in seconds.
pub open spec fn timeout_label(timeout_ms: nat) -> Seq<char> {
    if timeout_ms == 30_000 {
        "30 sec"@
    } else if timeout_ms == 60_000 {
        "1 min"@
    } else if timeout_ms == 120_000 {
        "2 min"@
    } else if timeout_ms == 300_000 {
        "5 min"@
    } else if timeout_ms == 0 {
        "disabled"@
    } else {
        decimal(timeout_ms / 1000) + fraction(timeout_ms % 1000) + " sec"@
    }
}

/// The idle timeout with the label, among the choices.
pub open spec fn timeout_choice(label: Seq<char>) -> Option<u64> {
    if label == "30 sec"@ {
        Some(30_000)
    } else if label == "1 min"@ {
        Some(60_000)
    } else if label == "2 min"@ {
        Some(120_000)
    } else if label == "5 min"@ {
        Some(300_000)
    } else if label == "disabled"@ {
        Some(0)
    } else {
        None
    }
}

/// How an idle timeout is shown.
#[must_use]
pub fn format_http_idle_timeout_ms(timeout_ms: u64) -> (r: String)
    ensures
        r@ == timeout_label(timeout_ms as nat),
{
    if timeout_ms == 30_000 {
        "30 sec".to_owned()
    } else if timeout_ms == 60_000 {
        "1 min".to_owned()
    } else if timeout_ms == 120_000 {
        "2 min".to_owned()
    } else if timeout_ms == 300_000 {
        "5 min".to_owned()
    } else if timeout_ms == 0 {
        "disabled".to_owned()
    } else {
        let mut r = decimal_str((timeout_ms / 1000) as u128);
        let ghost whole = r@;
        let rest: u128 = (timeout_ms % 1000) as u128;
        if rest > 0 {
            push_char(&mut r, '.');
            push_char(&mut r, digit_char(rest / 100));
            if rest % 100 > 0 {
                push_char(&mut r, digit_char(rest / 10 % 10));
                if rest % 10 > 0 {
                    push_char(&mut r, digit_char(rest % 10));
                }
            }
        }
        assert(r@ =~= whole + fraction(rest as nat));
        r.concat(" sec")
    }
}

/// The idle timeout with the label, among the choices.
pub fn http_idle_timeout_choice(label: &str) -> (r: Option<u64>)
    ensures
        r == timeout_choice(label@),
{
    if str_eq(label, "30 sec") {
        Some(30_000)
    } else if str_eq(label, "1 min") {
        Some(60_000)
    } else if str_eq(label, "2 min") {
        Some(120_000)
    } else if str_eq(label, "5 min") {
        Some(300_000)
    } else if str_eq(label, "disabled") {
        Some(0)
    } else {
        None
    }
}

/// The label of each choice of the idle timeout leads back to the timeout.
pub proof fn timeout_choices_lead_back(timeout_ms: u64)
    requires
        timeout_ms == 30_000 || timeout_ms == 60_000 || timeout_ms == 120_000 || timeout_ms == 300_000
            || timeout_ms == 0,
    ensures
        timeout_choice(timeout_label(timeout_ms as nat)) == Some(timeout_ms),
{
    reveal_strlit("30 sec");
    reveal_strlit("1 min");
    reveal_strlit("2 min");
    reveal_strlit("5 min");
    reveal_strlit("disabled");
    assert("30 sec"@.len() == 6 && "1 min"@.len() == 5 && "2 min"@.len() == 5 && "5 min"@.len() == 5
        && "disabled"@.len() == 8);
    assert("1 min"@[0] == '1' && "2 min"@[0] == '2' && "5 min"@[0] == '5');
}

/// Which warnings are shown; those that are not set are.
#[derive(Debug, Clone, Copy, PartialEq, Eq, Structural)]
pub struct WarningSettings {
    pub anthropic_extra_usage: Option<bool>,
}

/// The settings as they stand.
#[derive(Debug)]
pub struct SettingsConfig {
    pub auto_compact: bool,
    pub show_images: bool,
    pub image_width_cells: u32,
    pub auto_resize_images: bool,
    pub block_images: bool,
    pub enable_skill_commands: bool,
    pub steering_mode: String,
    pub follow_up_mode: String,
    pub transport: Transport,
    pub http_idle_timeout_ms: u64,
    pub thinking_level: ModelThinkingLevel,
    pub available_thinking_levels: Vec<ModelThinkingLevel>,
    pub current_theme: String,
    pub terminal_theme: TerminalTheme,
    pub available_themes: Vec<String>,
    pub hide_thinking_block: bool,
    pub show_cache_miss_notices: bool,
    pub collapse_changelog: bool,
    pub enable_install_telemetry: bool,
    pub double_escape_action: String,
    pub tree_filter_mode: String,
    pub show_hardware_cursor: bool,
    pub editor_padding_x: u32,
    pub output_pad: u8,
    pub autocomplete_max_visible: u32,
    pub quiet_startup: bool,
    pub default_project_trust: String,
    pub clear_on_shrink: bool,
    pub show_terminal_progress: bool,
    pub warnings: WarningSettings,
}

/// The submenu that a setting opens.
#[derive(Debug, Clone, Copy, PartialEq, Eq, Structural)]
pub enum Submenu {
    Nothing,
    Warnings,
    Thinking,
    Theme,
}

/// A setting as it is listed.
#[derive(Debug)]
pub struct SettingItem {
    pub id: String,
    pub label: String,
    pub description: String,
    pub current_value: String,
    /// The values to choose from; none for a setting that opens a submenu.
    pub values: Vec<String>,
    pub submenu: Submenu,
}

/// The content of a setting.
#[verifier::ext_equal]
pub struct SettingView {
    pub id: Seq<char>,
    pub label: Seq<char>,
    pub description: Seq<char>,
    pub current_value: Seq<char>,
    pub values: Seq<Seq<char>>,
    pub submenu: Submenu,
}

impl View for SettingItem {
    type V = SettingView;

    open spec fn view(&self) -> SettingView {
        SettingView {
            id: self.id@,
            label: self.label@,
            description: self.description@,
            current_value: self.current_value@,
            values: texts(self.values@),
            submenu: self.submenu,
        }
    }
}

/// The contents of a list of settings.
pub open spec fn setting_views(items: Seq<SettingItem>) -> Seq<SettingView> {
    items.map_values(|i: SettingItem| i@)
}

/// A setting.
pub open spec fn setting_view(
    id: Seq<char>,
    label: Seq<char>,
    description: Seq<char>,
    current_value: Seq<char>,
    values: Seq<Seq<char>>,
    submenu: Submenu,
) -> SettingView {
    SettingView { id, label, description, current_value, values, submenu }
}

/// A switch as it is shown.
pub open spec fn bool_text(b: bool) -> Seq<char> {
    if b {
        "true"@
    } else {
        "false"@
    }
}

/// A switch as it is shown.
pub fn bool_str(b: bool) -> (r: String)
    ensures
        r@ == bool_text(b),
{
    if b {
        "true".to_owned()
    } else {
        "false".to_owned()
    }
}

fn value_list(values: &[&str]) -> (r: Vec<String>)
    ensures
        texts(r@) == values@.map_values(|s: &str| s@),
{
    let mut r: Vec<String> = Vec::new();
    let mut i: usize = 0;
    while i < values.len()
        invariant
            i <= values.len(),
            texts(r@) =~= values@.map_values(|s: &str| s@).take(i as int),
        decreases values.len() - i,
    {
        push_text(&mut r, values[i].to_owned());
        i = i + 1;
    }
    r
}

/// A setting with the values to choose from.
pub fn make_setting(
    id: &str,
    label: &str,
    description: String,
    current_value: String,
    values: &[&str],
    submenu: Submenu,
) -> (r: SettingItem)
    ensures
        r@ == setting_view(
            id@,
            label@,
            description@,
            current_value@,
            values@.map_values(|s: &str| s@),
            submenu,
        ),
{
    SettingItem {
        id: id.to_owned(),
        label: label.to_owned(),
        description,
        current_value,
        values: value_list(values),
        submenu,
    }
}

fn push_setting(items: &mut Vec<SettingItem>, item: SettingItem)
    ensures
        setting_views(final(items)@) == setting_views(old(items)@).push(item@),
{
    items.push(item);
    assert(setting_views(items@) =~= setting_views(old(items)@).push(item@));
}

/// The settings of inline images.
pub open spec fn image_settings(config: SettingsConfig) -> Seq<SettingView> {
    seq![
            setting_view(
                "show-images"@,
                "Show images"@,
                "Render images inline in terminal"@,
                bool_text(config.show_images),
                seq!["true"@, "false"@],
                Submenu::Nothing,
            ),
            setting_view(
                "image-width-cells"@,
                "Image width"@,
                "Preferred inline image width in terminal cells"@,
                decimal(config.image_width_cells as nat),
                seq!["60"@, "80"@, "120"@],
                Submenu::Nothing,
            ),
    ]
}

/// The settings of images, the editor and the terminal.
pub open spec fn display_settings(config: SettingsConfig) -> Seq<SettingView> {
    seq![
            setting_view(
                "auto-resize-images"@,
                "Auto-resize images"@,
                "Resize large images to 2000x2000 max for better model compatibility"@,
                bool_text(config.auto_resize_images),
                seq!["true"@, "false"@],
                Submenu::Nothing,
            ),
            setting_view(
                "block-images"@,
                "Block images"@,
                "Prevent images from being sent to LLM providers"@,
                bool_text(config.block_images),
                seq!["true"@, "false"@],
                Submenu::Nothing,
            ),
            setting_view(
                "skill-commands"@,
                "Skill commands"@,
                "Register skills as /skill:name commands"@,
                bool_text(config.enable_skill_commands),
                seq!["true"@, "false"@],
                Submenu::Nothing,
            ),
            setting_view(
                "show-hardware-cursor"@,
                "Show hardware cursor"@,
                "Show the terminal cursor while still positioning it for IME support"@,
                bool_text(config.show_hardware_cursor),
                seq!["true"@, "false"@],
                Submenu::Nothing,
            ),
            setting_view(
                "editor-padding"@,
                "Editor padding"@,
                "Horizontal padding for input editor (0-3)"@,
                decimal(config.editor_padding_x as nat),
                seq!["0"@, "1"@, "2"@, "3"@],
                Submenu::Nothing,
            ),
            setting_view(
                "output-padding"@,
                "Output padding"@,
                "Horizontal padding for user messages, assistant messages, and thinking"@,
                decimal(config.output_pad as nat),
                seq!["0"@, "1"@],
                Submenu::Nothing,
            ),
            setting_view(
                "autocomplete-max-visible"@,
                "Autocomplete max items"@,
                "Max visible items in autocomplete dropdown (3-20)"@,
                decimal(config.autocomplete_max_visible as nat),
                seq!["3"@, "5"@, "7"@, "10"@, "15"@, "20"@],
                Submenu::Nothing,
            ),
            setting_view(
                "clear-on-shrink"@,
                "Clear on shrink"@,
                "Clear empty rows when content shrinks (may cause flicker)"@,
                bool_text(config.clear_on_shrink),
                seq!["true"@, "false"@],
                Submenu::Nothing,
            ),
            setting_view(
                "terminal-progress"@,
                "Terminal progress"@,
                "Show OSC 9;4 progress indicators in the terminal tab bar"@,
                bool_text(config.show_terminal_progress),
                seq!["true"@, "false"@],
                Submenu::Nothing,
            ),
    ]
}

/// The settings of queued messages and of the connection.
pub open spec fn queue_settings(config: SettingsConfig, follow_up_key: Seq<char>) -> Seq<SettingView> {
    seq![
            setting_view(
                "steering-mode"@,
                "Steering mode"@,
                "Enter while streaming queues steering messages. 'one-at-a-time': deliver one, wait for response. 'all': deliver all at once."@,
                config.steering_mode@,
                seq!["one-at-a-time"@, "all"@],
                Submenu::Nothing,
            ),
            setting_view(
                "follow-up-mode"@,
                "Follow-up mode"@,
                follow_up_key + " queues follow-up messages until agent stops. 'one-at-a-time': deliver one, wait for response. 'all': deliver all at once."@,
                config.follow_up_mode@,
                seq!["one-at-a-time"@, "all"@],
                Submenu::Nothing,
            ),
            setting_view(
                "transport"@,
                "Transport"@,
                "Preferred transport for providers that support multiple transports"@,
                transport_name(config.transport),
                seq!["sse"@, "websocket"@, "websocket-cached"@, "auto"@],
                Submenu::Nothing,
            ),
            setting_view(
                "http-idle-timeout"@,
                "HTTP idle timeout"@,
                "Maximum idle gap while waiting for HTTP headers or body chunks. Disable for local models that pause longer than five minutes."@,
                timeout_label(config.http_idle_timeout_ms as nat),
                seq!["30 sec"@, "1 min"@, "2 min"@, "5 min"@, "disabled"@],
                Submenu::Nothing,
            ),
    ]
}

/// The settings of what is shown, of startup and of trust.
pub open spec fn startup_settings(config: SettingsConfig) -> Seq<SettingView> {
    seq![
            setting_view(
                "hide-thinking"@,
                "Hide thinking"@,
                "Hide thinking blocks in assistant responses"@,
                bool_text(config.hide_thinking_block),
                seq!["true"@, "false"@],
                Submenu::Nothing,
            ),
            setting_view(
                "cache-miss-notices"@,
                "Cache miss notices"@,
                "Show transcript notices for significant prompt-cache misses"@,
                bool_text(config.show_cache_miss_notices),
                seq!["true"@, "false"@],
                Submenu::Nothing,
            ),
            setting_view(
                "collapse-changelog"@,
                "Collapse changelog"@,
                "Show condensed changelog after updates"@,
                bool_text(config.collapse_changelog),
                seq!["true"@, "false"@],
                Submenu::Nothing,
            ),
            setting_view(
                "quiet-startup"@,
                "Quiet startup"@,
                "Disable verbose printing at startup"@,
                bool_text(config.quiet_startup),
                seq!["true"@, "false"@],
                Submenu::Nothing,
            ),
            setting_view(
                "install-telemetry"@,
                "Install telemetry"@,
                "Send an anonymous version/update ping after changelog-detected updates"@,
                bool_text(config.enable_install_telemetry),
                seq!["true"@, "false"@],
                Submenu::Nothing,
            ),
            setting_view(
                "default-project-trust"@,
                "Default project trust"@,
                "Fallback behavior when no extension or saved trust decision decides project trust"@,
                trust_label(config.default_project_trust@),
                seq!["Ask"@, "Always trust"@, "Never trust"@],
                Submenu::Nothing,
            ),
            setting_view(
                "double-escape-action"@,
                "Double-escape action"@,
                "Action when pressing Escape twice with empty editor"@,
                config.double_escape_action@,
                seq!["tree"@, "fork"@, "none"@],
                Submenu::Nothing,
            ),
            setting_view(
                "tree-filter-mode"@,
                "Tree filter mode"@,
                "Default filter when opening /tree"@,
                config.tree_filter_mode@,
                seq!["default"@, "no-tools"@, "user-only"@, "labeled-only"@, "all"@],
                Submenu::Nothing,
            ),
    ]
}

/// The settings that open a submenu.
pub open spec fn submenu_settings(config: SettingsConfig) -> Seq<SettingView> {
    seq![
            setting_view(
                "warnings"@,
                "Warnings"@,
                "Enable or disable individual warnings"@,
                "configure"@,
                Seq::empty(),
                Submenu::Warnings,
            ),
            setting_view(
                "thinking"@,
                "Thinking level"@,
                "Reasoning depth for thinking-capable models"@,
                level_name(config.thinking_level),
                Seq::empty(),
                Submenu::Thinking,
            ),
            setting_view(
                "theme"@,
                "Theme"@,
                "Color theme for the interface"@,
                config.current_theme@,
                Seq::empty(),
                Submenu::Theme,
            ),
    ]
}

/// The settings that the selector lists. Inline images are only offered where the terminal can show
/// them.
pub open spec fn listed_settings(
    config: SettingsConfig,
    supports_images: bool,
    follow_up_key: Seq<char>,
) -> Seq<SettingView> {
    let first = seq![
            setting_view(
                "autocompact"@,
                "Auto-compact"@,
                "Automatically compact context when it gets too large"@,
                bool_text(config.auto_compact),
                seq!["true"@, "false"@],
                Submenu::Nothing,
            ),
    ];
    let with_images = if supports_images {
        first + image_settings(config)
    } else {
        first
    };
    with_images + display_settings(config) + queue_settings(config, follow_up_key)
        + startup_settings(config) + submenu_settings(config)
}

fn push_image_settings(items: &mut Vec<SettingItem>, config: &SettingsConfig)
    ensures
        setting_views(final(items)@) == setting_views(old(items)@) + image_settings(*config),
{
    push_setting(
        items,
        make_setting(
            "show-images",
            "Show images",
            "Render images inline in terminal".to_owned(),
            bool_str(config.show_images),
            &["true", "false"],
            Submenu::Nothing,
        ),
    );
    push_setting(
        items,
        make_setting(
            "image-width-cells",
            "Image width",
            "Preferred inline image width in terminal cells".to_owned(),
            decimal_str(config.image_width_cells as u128),
            &["60", "80", "120"],
            Submenu::Nothing,
        ),
    );
    assert(setting_views(items@) =~~= setting_views(old(items)@) + image_settings(*config));
}

fn push_display_settings(items: &mut Vec<SettingItem>, config: &SettingsConfig)
    ensures
        setting_views(final(items)@) == setting_views(old(items)@) + display_settings(*config),
{
    push_setting(
        items,
        make_setting(
            "auto-resize-images",
            "Auto-resize images",
            "Resize large images to 2000x2000 max for better model compatibility".to_owned(),
            bool_str(config.auto_resize_images),
            &["true", "false"],
            Submenu::Nothing,
        ),
    );
    push_setting(
        items,
        make_setting(
            "block-images",
            "Block images",
            "Prevent images from being sent to LLM providers".to_owned(),
            bool_str(config.block_images),
            &["true", "false"],
            Submenu::Nothing,
        ),
    );
    push_setting(
        items,
        make_setting(
            "skill-commands",
            "Skill commands",
            "Register skills as /skill:name commands".to_owned(),
            bool_str(config.enable_skill_commands),
            &["true", "false"],
            Submenu::Nothing,
        ),
    );
    push_setting(
        items,
        make_setting(
            "show-hardware-cursor",
            "Show hardware cursor",
            "Show the terminal cursor while still positioning it for IME support".to_owned(),
            bool_str(config.show_hardware_cursor),
            &["true", "false"],
            Submenu::Nothing,
        ),
    );
    push_setting(
        items,
        make_setting(
            "editor-padding",
            "Editor padding",
            "Horizontal padding for input editor (0-3)".to_owned(),
            decimal_str(config.editor_padding_x as u128),
            &["0", "1", "2", "3"],
            Submenu::Nothing,
        ),
    );
    push_setting(
        items,
        make_setting(
            "output-padding",
            "Output padding",
            "Horizontal padding for user messages, assistant messages, and thinking".to_owned(),
            decimal_str(config.output_pad as u128),
            &["0", "1"],
            Submenu::Nothing,
        ),
    );
    push_setting(
        items,
        make_setting(
            "autocomplete-max-visible",
            "Autocomplete max items",
            "Max visible items in autocomplete dropdown (3-20)".to_owned(),
            decimal_str(config.autocomplete_max_visible as u128),
            &["3", "5", "7", "10", "15", "20"],
            Submenu::Nothing,
        ),
    );
    push_setting(
        items,
        make_setting(
            "clear-on-shrink",
            "Clear on shrink",
            "Clear empty rows when content shrinks (may cause flicker)".to_owned(),
            bool_str(config.clear_on_shrink),
            &["true", "false"],
            Submenu::Nothing,
        ),
    );
    push_setting(
        items,
        make_setting(
            "terminal-progress",
            "Terminal progress",
            "Show OSC 9;4 progress indicators in the terminal tab bar".to_owned(),
            bool_str(config.show_terminal_progress),
            &["true", "false"],
            Submenu::Nothing,
        ),
    );
    assert(setting_views(items@) =~~= setting_views(old(items)@) + display_settings(*config));
}

fn push_queue_settings(items: &mut Vec<SettingItem>, config: &SettingsConfig, follow_up_key: &str)
    ensures
        setting_views(final(items)@) == setting_views(old(items)@) + queue_settings(*config, follow_up_key@),
{
    push_setting(
        items,
        make_setting(
            "steering-mode",
            "Steering mode",
            "Enter while streaming queues steering messages. 'one-at-a-time': deliver one, wait for response. 'all': deliver all at once.".to_owned(),
            config.steering_mode.clone(),
            &["one-at-a-time", "all"],
            Submenu::Nothing,
        ),
    );
    push_setting(
        items,
        make_setting(
            "follow-up-mode",
            "Follow-up mode",
            follow_up_key.to_owned().concat(
                " queues follow-up messages until agent stops. 'one-at-a-time': deliver one, wait for response. 'all': deliver all at once.",
            ),
            config.follow_up_mode.clone(),
            &["one-at-a-time", "all"],
            Submenu::Nothing,
        ),
    );
    push_setting(
        items,
        make_setting(
            "transport",
            "Transport",
            "Preferred transport for providers that support multiple transports".to_owned(),
            transport_as_str(config.transport).to_owned(),
            &["sse", "websocket", "websocket-cached", "auto"],
            Submenu::Nothing,
        ),
    );
    push_setting(
        items,
        make_setting(
            "http-idle-timeout",
            "HTTP idle timeout",
            "Maximum idle gap while waiting for HTTP headers or body chunks. Disable for local models that pause longer than five minutes.".to_owned(),
            format_http_idle_timeout_ms(config.http_idle_timeout_ms),
            &["30 sec", "1 min", "2 min", "5 min", "disabled"],
            Submenu::Nothing,
        ),
    );
    assert(setting_views(items@) =~~= setting_views(old(items)@) + queue_settings(*config, follow_up_key@));
}

fn push_startup_settings(items: &mut Vec<SettingItem>, config: &SettingsConfig)
    ensures
        setting_views(final(items)@) == setting_views(old(items)@) + startup_settings(*config),
{
    push_setting(
        items,
        make_setting(
            "hide-thinking",
            "Hide thinking",
            "Hide thinking blocks in assistant responses".to_owned(),
            bool_str(config.hide_thinking_block),
            &["true", "false"],
            Submenu::Nothing,
        ),
    );
    push_setting(
        items,
        make_setting(
            "cache-miss-notices",
            "Cache miss notices",
            "Show transcript notices for significant prompt-cache misses".to_owned(),
            bool_str(config.show_cache_miss_notices),
            &["true", "false"],
            Submenu::Nothing,
        ),
    );
    push_setting(
        items,
        make_setting(
            "collapse-changelog",
            "Collapse changelog",
            "Show condensed changelog after updates".to_owned(),
            bool_str(config.collapse_changelog),
            &["true", "false"],
            Submenu::Nothing,
        ),
    );
    push_setting(
        items,
        make_setting(
            "quiet-startup",
            "Quiet startup",
            "Disable verbose printing at startup".to_owned(),
            bool_str(config.quiet_startup),
            &["true", "false"],
            Submenu::Nothing,
        ),
    );
    push_setting(
        items,
        make_setting(
            "install-telemetry",
            "Install telemetry",
            "Send an anonymous version/update ping after changelog-detected updates".to_owned(),
            bool_str(config.enable_install_telemetry),
            &["true", "false"],
            Submenu::Nothing,
        ),
    );
    push_setting(
        items,
        make_setting(
            "default-project-trust",
            "Default project trust",
            "Fallback behavior when no extension or saved trust decision decides project trust".to_owned(),
            default_project_trust_label(config.default_project_trust.as_str()).to_owned(),
            &["Ask", "Always trust", "Never trust"],
            Submenu::Nothing,
        ),
    );
    push_setting(
        items,
        make_setting(
            "double-escape-action",
            "Double-escape action",
            "Action when pressing Escape twice with empty editor".to_owned(),
            config.double_escape_action.clone(),
            &["tree", "fork", "none"],
            Submenu::Nothing,
        ),
    );
    push_setting(
        items,
        make_setting(
            "tree-filter-mode",
            "Tree filter mode",
            "Default filter when opening /tree".to_owned(),
            config.tree_filter_mode.clone(),
            &["default", "no-tools", "user-only", "labeled-only", "all"],
            Submenu::Nothing,
        ),
    );
    assert(setting_views(items@) =~~= setting_views(old(items)@) + startup_settings(*config));
}

fn push_submenu_settings(items: &mut Vec<SettingItem>, config: &SettingsConfig)
    ensures
        setting_views(final(items)@) == setting_views(old(items)@) + submenu_settings(*config),
{
    push_setting(
        items,
        make_setting(
            "warnings",
            "Warnings",
            "Enable or disable individual warnings".to_owned(),
            "configure".to_owned(),
            &[],
            Submenu::Warnings,
        ),
    );
    push_setting(
        items,
        make_setting(
            "thinking",
            "Thinking level",
            "Reasoning depth for thinking-capable models".to_owned(),
            thinking_level_name(config.thinking_level).to_owned(),
            &[],
            Submenu::Thinking,
        ),
    );
    push_setting(
        items,
        make_setting(
            "theme",
            "Theme",
            "Color theme for the interface".to_owned(),
            config.current_theme.clone(),
            &[],
            Submenu::Theme,
        ),
    );
    assert(setting_views(items@) =~~= setting_views(old(items)@) + submenu_settings(*config));
}

/// The settings that the selector lists, in order. `follow_up_key` is the key that queues a follow-up
/// message.
pub fn settings_items(
    config: &SettingsConfig,
    supports_images: bool,
    follow_up_key: &str,
) -> (r: Vec<SettingItem>)
    ensures
        setting_views(r@) == listed_settings(*config, supports_images, follow_up_key@),
{
    let mut items: Vec<SettingItem> = Vec::new();
    push_setting(
        &mut items,
        make_setting(
            "autocompact",
            "Auto-compact",
            "Automatically compact context when it gets too large".to_owned(),
            bool_str(config.auto_compact),
            &["true", "false"],
            Submenu::Nothing,
        ),
    );
    if supports_images {
        push_image_settings(&mut items, config);
    }
    push_display_settings(&mut items, config);
    push_queue_settings(&mut items, config, follow_up_key);
    push_startup_settings(&mut items, config);
    push_submenu_settings(&mut items, config);
    assert(setting_views(items@) =~~= listed_settings(*config, supports_images, follow_up_key@));
    items
}

} // verus!
