//! The theme submenu: one fixed theme, or a light and a dark one that follow the terminal.

use crate::select_submenu::{submenu, SelectSubmenu, SettingsListShape, SubmenuView};
use crate::settings_changes::{select_views, SelectItem, SelectView};
use crate::settings_selector::{
    make_setting, setting_view, setting_views, SettingItem, SettingView, Submenu, TerminalTheme,
};
use crate::style::{bold_colored, bold_fg, colored, fg, ThemeColor};
use crate::text::{
    chars_of, index_of_char, lemma_index_of_char_bounds, position_of, str_eq, string_of, texts,
};
use crate::transcript::{pieces, push_piece, single_span, text_piece, Piece, PieceView};
use vstd::prelude::*;
use vstd::slice::slice_subrange;
use vstd::string::*;

verus! {

broadcast use vstd::string::group_string_axioms;

/// The light and the dark theme of an automatic setting: two names with one slash between them.
pub open spec fn automatic_pair(setting: Seq<char>) -> Option<(Seq<char>, Seq<char>)> {
    let k = index_of_char(setting, '/') as int;
    if 0 < k < setting.len() - 1 && !setting.skip(k + 1).contains('/') {
        Some((setting.take(k), setting.skip(k + 1)))
    } else {
        None
    }
}

/// The light and the dark theme of an automatic setting.
pub fn parse_auto_theme_setting(setting: &str) -> (r: Option<(String, String)>)
    ensures
        match r {
            Some((light, dark)) => automatic_pair(setting@) == Some((light@, dark@)),
            None => automatic_pair(setting@) is None,
        },
{
    let chars = chars_of(setting);
    proof {
        lemma_index_of_char_bounds(setting@, '/');
        assert(setting@.skip(0) =~= setting@);
    }
    let k = position_of(&chars, 0, '/');
    if k == 0 || k >= chars.len() || k == chars.len() - 1 {
        return None;
    }
    let second = position_of(&chars, k + 1, '/');
    proof {
        let rest = setting@.skip(k + 1);
        lemma_index_of_char_bounds(rest, '/');
        if second < chars.len() {
            assert(rest[second - k - 1] == '/');
            assert(rest.contains('/'));
        } else {
            assert(!rest.contains('/'));
        }
    }
    if second < chars.len() {
        return None;
    }
    let light = string_of(slice_subrange(chars.as_slice(), 0, k));
    let dark = string_of(slice_subrange(chars.as_slice(), k + 1, chars.len()));
    assert(light@ =~= setting@.take(k as int));
    assert(dark@ =~= setting@.skip(k + 1));
    Some((light, dark))
}

/// An automatic setting is read back from its two themes, if neither is empty or holds a slash.
pub proof fn automatic_setting_reads_back(light: Seq<char>, dark: Seq<char>)
    requires
        light.len() > 0,
        dark.len() > 0,
        !light.contains('/'),
        !dark.contains('/'),
    ensures
        automatic_pair(light + seq!['/'] + dark) == Some((light, dark)),
{
    let setting = light + seq!['/'] + dark;
    lemma_index_of_char_bounds(setting, '/');
    let k = index_of_char(setting, '/') as int;
    assert(setting[light.len() as int] == '/');
    if k < light.len() {
        assert(setting[k] == light[k]);
        assert(light.contains(light[k]));
    }
    assert(k == light.len());
    assert(setting.take(k) =~= light);
    assert(setting.skip(k + 1) =~= dark);
}

/// The preferred theme if it is there, otherwise the fallback if it is there, otherwise the first
/// theme; with no themes at all, the fallback.
pub open spec fn preferred(
    themes: Seq<Seq<char>>,
    wanted: Option<Seq<char>>,
    fallback: Seq<char>,
) -> Seq<char> {
    if wanted is Some && themes.contains(wanted->0) {
        wanted->0
    } else if themes.contains(fallback) || themes.len() == 0 {
        fallback
    } else {
        themes[0]
    }
}

/// The themes to offer for an automatic setting, light and dark.
pub open spec fn automatic_themes(setting: Seq<char>, themes: Seq<Seq<char>>) -> (
    Seq<char>,
    Seq<char>,
) {
    match automatic_pair(setting) {
        Some(pair) => pair,
        None => {
            let fixed = if setting.contains('/') {
                None
            } else {
                Some(setting)
            };
            let name = preferred(themes, fixed, "dark"@);
            (name, name)
        },
    }
}

fn has_theme(themes: &Vec<String>, name: &str) -> (r: bool)
    ensures
        r == texts(themes@).contains(name@),
{
    let mut i: usize = 0;
    while i < themes.len()
        invariant
            i <= themes.len(),
            forall|j: int| 0 <= j < i ==> (#[trigger] themes[j])@ != name@,
        decreases themes.len() - i,
    {
        if str_eq(themes[i].as_str(), name) {
            assert(texts(themes@)[i as int] == name@);
            return true;
        }
        i = i + 1;
    }
    assert forall|j: int| 0 <= j < texts(themes@).len() implies texts(themes@)[j] != name@ by {
        assert(texts(themes@)[j] == themes[j]@);
    }
    false
}

/// The preferred theme if it is there, otherwise the fallback, otherwise the first theme.
pub fn preferred_theme(themes: &Vec<String>, wanted: Option<&str>, fallback: &str) -> (r: String)
    ensures
        r@ == preferred(
            texts(themes@),
            match wanted {
                Some(w) => Some(w@),
                None => None,
            },
            fallback@,
        ),
{
    if let Some(w) = wanted {
        if has_theme(themes, w) {
            return w.to_owned();
        }
    }
    if has_theme(themes, fallback) || themes.len() == 0 {
        return fallback.to_owned();
    }
    assert(texts(themes@)[0] == themes[0]@);
    themes[0].clone()
}

fn holds_slash(setting: &str) -> (r: bool)
    ensures
        r == setting@.contains('/'),
{
    let chars = chars_of(setting);
    let k = position_of(&chars, 0, '/');
    proof {
        lemma_index_of_char_bounds(setting@, '/');
        assert(setting@.skip(0) =~= setting@);
        if k < chars.len() {
            assert(setting@[k as int] == '/');
        }
    }
    k < chars.len()
}

/// The themes to offer for an automatic setting, light and dark.
pub fn default_automatic_themes(setting: &str, themes: &Vec<String>) -> (r: (String, String))
    ensures
        (r.0@, r.1@) == automatic_themes(setting@, texts(themes@)),
{
    if let Some(pair) = parse_auto_theme_setting(setting) {
        return pair;
    }
    let fixed = if holds_slash(setting) {
        None
    } else {
        Some(setting)
    };
    let name = preferred_theme(themes, fixed, "dark");
    (name.clone(), name)
}

/// Whether one theme is used, or a light and a dark one.
#[derive(Debug, Clone, Copy, PartialEq, Eq, Structural)]
pub enum ThemeMode {
    Single,
    Automatic,
}

/// Which of the two automatic themes is chosen.
#[derive(Debug, Clone, Copy, PartialEq, Eq, Structural)]
pub enum Appearance {
    Light,
    Dark,
}

/// The theme submenu.
#[derive(Debug)]
pub struct ThemeSubmenu {
    pub mode: ThemeMode,
    pub single_theme: String,
    pub light_theme: String,
    pub dark_theme: String,
    pub terminal_theme: TerminalTheme,
    pub original_setting: String,
    pub themes: Vec<String>,
}

/// What happened in the submenu.
#[derive(Debug)]
pub enum ThemeEvent {
    /// The selection moved in the menu of single themes.
    Highlight(String),
    /// A theme, or the automatic mode, was chosen in the menu of single themes.
    Choose(String),
    /// The selection moved in the menu of light or dark themes.
    HighlightFor(Appearance, String),
    /// A theme was chosen for light or dark terminals.
    ChooseFor(Appearance, String),
    /// The menu of light or dark themes was left.
    LeaveChoice,
    /// A row of the automatic menu was activated.
    Activate(String),
    /// The submenu was left.
    Cancel,
}

/// What the submenu asks for: a theme setting to preview, and whether it is done, with the theme
/// setting to keep if one was chosen.
#[derive(Debug)]
pub struct ThemeStep {
    pub preview: Option<String>,
    pub done: Option<Option<String>>,
}

/// The content of a step.
#[verifier::ext_equal]
pub struct StepView {
    pub preview: Option<Seq<char>>,
    pub done: Option<Option<Seq<char>>>,
}

impl View for ThemeStep {
    type V = StepView;

    open spec fn view(&self) -> StepView {
        StepView {
            preview: match self.preview {
                Some(p) => Some(p@),
                None => None,
            },
            done: match self.done {
                Some(Some(s)) => Some(Some(s@)),
                Some(None) => Some(None),
                None => None,
            },
        }
    }
}

/// The content of the submenu.
#[verifier::ext_equal]
pub struct ThemeView {
    pub mode: ThemeMode,
    pub single_theme: Seq<char>,
    pub light_theme: Seq<char>,
    pub dark_theme: Seq<char>,
    pub terminal_theme: TerminalTheme,
    pub original_setting: Seq<char>,
    pub themes: Seq<Seq<char>>,
}

impl View for ThemeSubmenu {
    type V = ThemeView;

    open spec fn view(&self) -> ThemeView {
        ThemeView {
            mode: self.mode,
            single_theme: self.single_theme@,
            light_theme: self.light_theme@,
            dark_theme: self.dark_theme@,
            terminal_theme: self.terminal_theme,
            original_setting: self.original_setting@,
            themes: texts(self.themes@),
        }
    }
}

impl ThemeView {
    /// The automatic setting with the two themes.
    pub open spec fn automatic_setting(self) -> Seq<char> {
        self.light_theme + seq!['/'] + self.dark_theme
    }

    /// The theme that the automatic setting shows on this terminal.
    pub open spec fn active_theme(self) -> Seq<char> {
        match self.terminal_theme {
            TerminalTheme::Light => self.light_theme,
            TerminalTheme::Dark => self.dark_theme,
        }
    }

    /// The setting that is being put together.
    pub open spec fn setting(self) -> Seq<char> {
        match self.mode {
            ThemeMode::Automatic => self.automatic_setting(),
            ThemeMode::Single => self.single_theme,
        }
    }
}

/// The submenu as it opens over a setting: in automatic mode for an automatic setting. The single
/// theme is the fixed one, or the one that the automatic setting shows on this terminal.
pub open spec fn opened(
    setting: Seq<char>,
    terminal_theme: TerminalTheme,
    themes: Seq<Seq<char>>,
) -> ThemeView {
    let pair = automatic_themes(setting, themes);
    let wanted = if automatic_pair(setting) is Some {
        Some(
            match terminal_theme {
                TerminalTheme::Light => pair.0,
                TerminalTheme::Dark => pair.1,
            },
        )
    } else if setting.contains('/') {
        None
    } else {
        Some(setting)
    };
    ThemeView {
        mode: if automatic_pair(setting) is Some {
            ThemeMode::Automatic
        } else {
            ThemeMode::Single
        },
        single_theme: preferred(themes, wanted, "dark"@),
        light_theme: pair.0,
        dark_theme: pair.1,
        terminal_theme,
        original_setting: setting,
        themes,
    }
}

/// A step that only shows a setting.
pub open spec fn shows(preview: Seq<char>) -> StepView {
    StepView { preview: Some(preview), done: None }
}

/// A step that ends the submenu with a setting to keep.
pub open spec fn keeps(setting: Seq<char>) -> StepView {
    StepView { preview: None, done: Some(Some(setting)) }
}

/// The submenu after an event, and what it asks for. Each menu only hears of its own events.
pub open spec fn stepped(menu: ThemeView, event: ThemeEvent) -> (ThemeView, StepView) {
    let nothing = (menu, StepView { preview: None, done: None });
    match (menu.mode, event) {
        (_, ThemeEvent::Cancel) => (
            menu,
            StepView { preview: Some(menu.original_setting), done: Some(None) },
        ),
        (ThemeMode::Single, ThemeEvent::Highlight(value)) => (
            menu,
            shows(
                if value@ == "/"@ {
                    menu.automatic_setting()
                } else {
                    value@
                },
            ),
        ),
        (ThemeMode::Single, ThemeEvent::Choose(value)) => if value@ == "/"@ {
            (
                ThemeView { mode: ThemeMode::Automatic, ..menu },
                shows(menu.automatic_setting()),
            )
        } else {
            (ThemeView { single_theme: value@, ..menu }, keeps(value@))
        },
        (ThemeMode::Automatic, ThemeEvent::HighlightFor(_, value)) => (menu, shows(value@)),
        (ThemeMode::Automatic, ThemeEvent::ChooseFor(appearance, value)) => {
            let next = match appearance {
                Appearance::Light => ThemeView { light_theme: value@, ..menu },
                Appearance::Dark => ThemeView { dark_theme: value@, ..menu },
            };
            (next, shows(next.automatic_setting()))
        },
        (ThemeMode::Automatic, ThemeEvent::LeaveChoice) => (
            menu,
            shows(menu.automatic_setting()),
        ),
        (ThemeMode::Automatic, ThemeEvent::Activate(id)) => if id@ == "single-mode"@ {
            (
                ThemeView {
                    mode: ThemeMode::Single,
                    single_theme: menu.active_theme(),
                    ..menu
                },
                shows(menu.active_theme()),
            )
        } else if id@ == "apply"@ {
            (menu, keeps(menu.automatic_setting()))
        } else {
            nothing
        },
        _ => nothing,
    }
}

/// Leaving the submenu shows the setting that it was opened over again and keeps nothing.
pub proof fn leaving_restores_the_theme(menu: ThemeView)
    ensures
        stepped(menu, ThemeEvent::Cancel).0 == menu,
        stepped(menu, ThemeEvent::Cancel).1.preview == Some(menu.original_setting),
        stepped(menu, ThemeEvent::Cancel).1.done == Some(None::<Seq<char>>),
{
}

/// No event changes the setting that the submenu was opened over, nor the themes it offers, and
/// what is kept is the setting that was put together.
pub proof fn submenu_keeps_its_ground(menu: ThemeView, event: ThemeEvent)
    ensures
        stepped(menu, event).0.original_setting == menu.original_setting,
        stepped(menu, event).0.themes == menu.themes,
        stepped(menu, event).0.terminal_theme == menu.terminal_theme,
        stepped(menu, event).1.done matches Some(Some(setting)) ==> setting == stepped(
            menu,
            event,
        ).0.setting(),
{
}

/// Opening the submenu over an automatic setting and applying it keeps the setting.
pub proof fn applying_keeps_the_setting(
    setting: Seq<char>,
    terminal_theme: TerminalTheme,
    themes: Seq<Seq<char>>,
    apply: String,
)
    requires
        automatic_pair(setting) is Some,
        apply@ == "apply"@,
    ensures
        stepped(opened(setting, terminal_theme, themes), ThemeEvent::Activate(apply)).1 == keeps(
            setting,
        ),
{
    reveal_strlit("apply");
    reveal_strlit("single-mode");
    assert("apply"@.len() == 5 && "single-mode"@.len() == 11);
    let menu = opened(setting, terminal_theme, themes);
    lemma_index_of_char_bounds(setting, '/');
    assert(menu.automatic_setting() =~= setting);
}

/// The options of a menu of themes.
pub open spec fn theme_options(themes: Seq<Seq<char>>) -> Seq<SelectView> {
    themes.map_values(
        |name: Seq<char>| SelectView { value: name, label: name, description: None },
    )
}

/// The options of the menu of single themes: the automatic mode, then the themes.
pub open spec fn single_mode_options(themes: Seq<Seq<char>>) -> Seq<SelectView> {
    seq![
        SelectView {
            value: "/"@,
            label: "Automatic"@,
            description: Some("Use separate themes for light and dark terminal appearance"@),
        },
    ] + theme_options(themes)
}

/// The rows of the automatic menu.
pub open spec fn automatic_rows(light: Seq<char>, dark: Seq<char>) -> Seq<SettingView> {
    seq![
        setting_view(
            "light-theme"@,
            "Light theme"@,
            "Theme to use in automatic mode when the terminal is light"@,
            light,
            Seq::empty(),
            Submenu::Theme,
        ),
        setting_view(
            "dark-theme"@,
            "Dark theme"@,
            "Theme to use in automatic mode when the terminal is dark"@,
            dark,
            Seq::empty(),
            Submenu::Theme,
        ),
        setting_view(
            "apply"@,
            "Apply"@,
            "Save and go back"@,
            "save and go back"@,
            seq!["save and go back"@],
            Submenu::Nothing,
        ),
        setting_view(
            "single-mode"@,
            "Change mode"@,
            "Switch to one theme for light and dark"@,
            "switch to single theme"@,
            seq!["switch to single theme"@],
            Submenu::Nothing,
        ),
    ]
}

impl ThemeView {
    /// The menu of single themes, on the one that is used.
    pub open spec fn single_menu(self) -> SubmenuView {
        submenu(
            "Theme"@,
            "Select a theme, or choose Automatic to follow terminal appearance."@,
            single_mode_options(self.themes),
            self.single_theme,
        )
    }
}

/// The pieces of the automatic menu: its title, what it is for, and its rows.
pub open spec fn automatic_menu() -> Seq<PieceView> {
    seq![
        text_piece(bold_colored(ThemeColor::Accent, "Automatic Theme"@), 0),
        PieceView::Spacer(1),
        text_piece(
            colored(
                ThemeColor::Muted,
                "Choose themes for terminal light and dark appearance."@,
            ),
            0,
        ),
        text_piece(
            colored(ThemeColor::Muted, "Light/dark detection requires terminal support."@),
            0,
        ),
        PieceView::Spacer(1),
        PieceView::List,
    ]
}

fn push_theme_items(items: &mut Vec<SelectItem>, themes: &Vec<String>)
    ensures
        select_views(final(items)@) == select_views(old(items)@) + theme_options(texts(themes@)),
{
    let ghost before = select_views(items@);
    let mut i: usize = 0;
    while i < themes.len()
        invariant
            i <= themes.len(),
            select_views(items@) =~= before + theme_options(texts(themes@)).take(i as int),
        decreases themes.len() - i,
    {
        let item = SelectItem { value: themes[i].clone(), label: themes[i].clone(), description: None };
        let ghost shown = items@;
        items.push(item);
        assert(select_views(items@) =~= select_views(shown).push(item@));
        assert(texts(themes@)[i as int] == themes[i as int]@);
        assert(item@ =~= theme_options(texts(themes@))[i as int]);
        i = i + 1;
    }
    assert(theme_options(texts(themes@)).take(i as int) =~= theme_options(texts(themes@)));
}

/// The options of a menu of themes.
pub fn theme_items(themes: &Vec<String>) -> (r: Vec<SelectItem>)
    ensures
        select_views(r@) == theme_options(texts(themes@)),
{
    let mut items: Vec<SelectItem> = Vec::new();
    push_theme_items(&mut items, themes);
    assert(select_views(items@) =~= theme_options(texts(themes@)));
    items
}

/// The options of the menu of single themes.
pub fn single_mode_theme_items(themes: &Vec<String>) -> (r: Vec<SelectItem>)
    ensures
        select_views(r@) == single_mode_options(texts(themes@)),
{
    let mut items: Vec<SelectItem> = Vec::new();
    items.push(
        SelectItem {
            value: "/".to_owned(),
            label: "Automatic".to_owned(),
            description: Some(
                "Use separate themes for light and dark terminal appearance".to_owned(),
            ),
        },
    );
    push_theme_items(&mut items, themes);
    assert(select_views(items@) =~~= single_mode_options(texts(themes@)));
    items
}

impl ThemeSubmenu {
    /// The submenu over a setting.
    pub fn new(setting: &str, terminal_theme: TerminalTheme, themes: Vec<String>) -> (r: Self)
        ensures
            r@ == opened(setting@, terminal_theme, texts(themes@)),
    {
        let automatic = parse_auto_theme_setting(setting).is_some();
        let (light_theme, dark_theme) = default_automatic_themes(setting, &themes);
        let wanted = if automatic {
            Some(
                match terminal_theme {
                    TerminalTheme::Light => light_theme.as_str(),
                    TerminalTheme::Dark => dark_theme.as_str(),
                },
            )
        } else if holds_slash(setting) {
            None
        } else {
            Some(setting)
        };
        let single_theme = preferred_theme(&themes, wanted, "dark");
        let mode = if automatic {
            ThemeMode::Automatic
        } else {
            ThemeMode::Single
        };
        ThemeSubmenu {
            mode,
            single_theme,
            light_theme,
            dark_theme,
            terminal_theme,
            original_setting: setting.to_owned(),
            themes,
        }
    }

    /// The automatic setting with the two themes.
    pub fn automatic_setting(&self) -> (r: String)
        ensures
            r@ == self@.automatic_setting(),
    {
        let r = self.light_theme.clone().concat("/").concat(self.dark_theme.as_str());
        proof {
            reveal_strlit("/");
            assert("/"@ =~= seq!['/']);
        }
        r
    }

    /// The theme that the automatic setting shows on this terminal.
    pub fn active_automatic_theme(&self) -> (r: String)
        ensures
            r@ == self@.active_theme(),
    {
        match self.terminal_theme {
            TerminalTheme::Light => self.light_theme.clone(),
            TerminalTheme::Dark => self.dark_theme.clone(),
        }
    }

    /// The setting that is being put together.
    pub fn theme_setting(&self) -> (r: String)
        ensures
            r@ == self@.setting(),
    {
        match self.mode {
            ThemeMode::Automatic => self.automatic_setting(),
            ThemeMode::Single => self.single_theme.clone(),
        }
    }

    /// The menu of single themes, on the one that is used.
    pub fn build_single_menu(&self) -> (r: SelectSubmenu)
        ensures
            r@ == self@.single_menu(),
    {
        SelectSubmenu::new(
            "Theme",
            "Select a theme, or choose Automatic to follow terminal appearance.",
            single_mode_theme_items(&self.themes),
            self.single_theme.as_str(),
        )
    }

    /// The menu of the themes for light or dark terminals, on the one that is shown for them.
    pub fn theme_select(&self, appearance: Appearance, current_value: &str) -> (r: SelectSubmenu)
        ensures
            r@ == match appearance {
                Appearance::Light => submenu(
                    "Light Theme"@,
                    "Select the theme to use for light terminal appearance"@,
                    theme_options(texts(self.themes@)),
                    current_value@,
                ),
                Appearance::Dark => submenu(
                    "Dark Theme"@,
                    "Select the theme to use for dark terminal appearance"@,
                    theme_options(texts(self.themes@)),
                    current_value@,
                ),
            },
    {
        match appearance {
            Appearance::Light => SelectSubmenu::new(
                "Light Theme",
                "Select the theme to use for light terminal appearance",
                theme_items(&self.themes),
                current_value,
            ),
            Appearance::Dark => SelectSubmenu::new(
                "Dark Theme",
                "Select the theme to use for dark terminal appearance",
                theme_items(&self.themes),
                current_value,
            ),
        }
    }

    /// The pieces of the submenu: the menu of single themes, or the rows of the automatic menu under
    /// their title.
    pub fn render(&self) -> (r: Vec<Piece>)
        ensures
            pieces(r@) == match self.mode {
                ThemeMode::Single => self@.single_menu().screen(),
                ThemeMode::Automatic => automatic_menu(),
            },
    {
        if self.mode == ThemeMode::Single {
            return self.build_single_menu().render();
        }
        let mut list: Vec<Piece> = Vec::new();
        push_piece(&mut list, single_span(bold_fg(ThemeColor::Accent, "Automatic Theme"), 0));
        push_piece(&mut list, Piece::Spacer(1));
        let purpose = "Choose themes for terminal light and dark appearance.";
        push_piece(&mut list, single_span(fg(ThemeColor::Muted, purpose), 0));
        let support = "Light/dark detection requires terminal support.";
        push_piece(&mut list, single_span(fg(ThemeColor::Muted, support), 0));
        push_piece(&mut list, Piece::Spacer(1));
        push_piece(&mut list, Piece::List);
        assert(pieces(list@) =~= automatic_menu());
        list
    }

    /// How the rows of the automatic menu are shown: all of them, without a search.
    pub fn automatic_list_shape(&self) -> (r: SettingsListShape)
        ensures
            r == (SettingsListShape { max_visible: 4, enable_search: false }),
    {
        SettingsListShape { max_visible: 4, enable_search: false }
    }

    /// The rows of the automatic menu.
    pub fn automatic_items(&self) -> (r: Vec<SettingItem>)
        ensures
            setting_views(r@) == automatic_rows(self.light_theme@, self.dark_theme@),
    {
        let mut items: Vec<SettingItem> = Vec::new();
        items.push(
            make_setting(
                "light-theme",
                "Light theme",
                "Theme to use in automatic mode when the terminal is light".to_owned(),
                self.light_theme.clone(),
                &[],
                Submenu::Theme,
            ),
        );
        items.push(
            make_setting(
                "dark-theme",
                "Dark theme",
                "Theme to use in automatic mode when the terminal is dark".to_owned(),
                self.dark_theme.clone(),
                &[],
                Submenu::Theme,
            ),
        );
        items.push(
            make_setting(
                "apply",
                "Apply",
                "Save and go back".to_owned(),
                "save and go back".to_owned(),
                &["save and go back"],
                Submenu::Nothing,
            ),
        );
        items.push(
            make_setting(
                "single-mode",
                "Change mode",
                "Switch to one theme for light and dark".to_owned(),
                "switch to single theme".to_owned(),
                &["switch to single theme"],
                Submenu::Nothing,
            ),
        );
        assert(setting_views(items@) =~~= automatic_rows(self.light_theme@, self.dark_theme@));
        items
    }

    /// Takes in an event and says what it asks for.
    pub fn handle(&mut self, event: &ThemeEvent) -> (r: ThemeStep)
        ensures
            (final(self)@, r@) == stepped(old(self)@, *event),
    {
        match (self.mode, event) {
            (_, ThemeEvent::Cancel) => ThemeStep {
                preview: Some(self.original_setting.clone()),
                done: Some(None),
            },
            (ThemeMode::Single, ThemeEvent::Highlight(value)) => {
                let preview = if str_eq(value.as_str(), "/") {
                    self.automatic_setting()
                } else {
                    value.clone()
                };
                ThemeStep { preview: Some(preview), done: None }
            },
            (ThemeMode::Single, ThemeEvent::Choose(value)) => {
                if str_eq(value.as_str(), "/") {
                    self.mode = ThemeMode::Automatic;
                    ThemeStep { preview: Some(self.theme_setting()), done: None }
                } else {
                    self.single_theme = value.clone();
                    ThemeStep { preview: None, done: Some(Some(value.clone())) }
                }
            },
            (ThemeMode::Automatic, ThemeEvent::HighlightFor(_, value)) => ThemeStep {
                preview: Some(value.clone()),
                done: None,
            },
            (ThemeMode::Automatic, ThemeEvent::ChooseFor(appearance, value)) => {
                match appearance {
                    Appearance::Light => {
                        self.light_theme = value.clone();
                    },
                    Appearance::Dark => {
                        self.dark_theme = value.clone();
                    },
                }
                ThemeStep { preview: Some(self.automatic_setting()), done: None }
            },
            (ThemeMode::Automatic, ThemeEvent::LeaveChoice) => ThemeStep {
                preview: Some(self.automatic_setting()),
                done: None,
            },
            (ThemeMode::Automatic, ThemeEvent::Activate(id)) => {
                if str_eq(id.as_str(), "single-mode") {
                    self.mode = ThemeMode::Single;
                    self.single_theme = self.active_automatic_theme();
                    ThemeStep { preview: Some(self.single_theme.clone()), done: None }
                } else if str_eq(id.as_str(), "apply") {
                    ThemeStep { preview: None, done: Some(Some(self.automatic_setting())) }
                } else {
                    ThemeStep { preview: None, done: None }
                }
            },
            _ => ThemeStep { preview: None, done: None },
        }
    }
}

} // verus!
