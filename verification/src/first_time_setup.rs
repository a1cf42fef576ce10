//! First-time theme and analytics setup.

use crate::keybinding_hints::{KeyMatches, KeyTable};
use crate::session::clone_opt;
use crate::settings_selector::TerminalTheme;
use crate::style::{
    bold_colored, bold_fg, colored, fg, plain, push_span, raw, spans, Span, SpanView, ThemeColor,
};
use crate::text::str_eq;
use crate::transcript::{pieces, push_piece, single_span, text_piece, Piece, PieceView};
use crate::trust_selector::{list_hint_line, list_hints};
use vstd::prelude::*;
use vstd::string::*;

verus! {

broadcast use vstd::string::group_string_axioms;

/// What was chosen.
#[derive(Clone, Copy, Debug, PartialEq, Eq, Structural)]
pub struct FirstTimeSetupResult {
    pub theme: TerminalTheme,
    pub share_analytics: bool,
}

/// What the setup starts from.
#[derive(Debug)]
pub struct FirstTimeSetupOptions {
    pub detected_theme: TerminalTheme,
    /// The theme that is in use, if it has a name.
    pub original_theme: Option<String>,
}

/// The steps of the setup.
#[derive(Clone, Copy, Debug, PartialEq, Eq, Structural)]
pub enum SetupStep {
    Theme,
    Analytics,
}

/// What a key press asks for.
#[derive(Debug)]
pub enum SetupAction {
    Nothing,
    /// The theme is to be shown.
    Preview(TerminalTheme),
    Submit(FirstTimeSetupResult),
    /// The setup was skipped; the theme that was in use before is to be shown again, if it has a
    /// name.
    Cancel(Option<String>),
}

/// The setup.
#[derive(Debug)]
pub struct FirstTimeSetup {
    pub step: SetupStep,
    pub detected_theme: TerminalTheme,
    /// The theme that is selected: the first is dark, the second light.
    pub theme_index: usize,
    /// The answer that is selected: the first shares usage data.
    pub analytics_index: usize,
    pub original_theme: Option<String>,
}

/// The theme at a position of the list.
pub open spec fn theme_at(index: int) -> TerminalTheme {
    if index == 0 {
        TerminalTheme::Dark
    } else {
        TerminalTheme::Light
    }
}

/// The name of a terminal's appearance.
pub open spec fn appearance_name(theme: TerminalTheme) -> Seq<char> {
    match theme {
        TerminalTheme::Dark => "dark"@,
        TerminalTheme::Light => "light"@,
    }
}

/// The name of a terminal's appearance.
pub fn terminal_theme_name(theme: TerminalTheme) -> (r: &'static str)
    ensures
        r@ == appearance_name(theme),
{
    match theme {
        TerminalTheme::Dark => "dark",
        TerminalTheme::Light => "light",
    }
}

/// What is asked in a step.
pub open spec fn step_prompt(step: SetupStep) -> Seq<char> {
    match step {
        SetupStep::Theme => "Pick a theme."@,
        SetupStep::Analytics => "Opt-in to anonymous usage data sharing?"@,
    }
}

/// What is explained in a step.
pub open spec fn step_detail(step: SetupStep, detected: TerminalTheme) -> Seq<char> {
    match step {
        SetupStep::Theme => "Detected system appearance: "@ + appearance_name(detected),
        SetupStep::Analytics => "Opting in stores a tracking identifier in settings.json and enables anonymous\nusage analytics. This helps us to better debug, reproduce, and resolve issues\nand bugs within Pi. You can observe what is shared using /privacy and make\nchanges anytime in settings.json."@,
    }
}

/// The choices of a step.
pub open spec fn step_labels(step: SetupStep) -> (Seq<char>, Seq<char>) {
    match step {
        SetupStep::Theme => ("Dark"@, "Light"@),
        SetupStep::Analytics => ("Share anonymous usage data"@, "Don't share"@),
    }
}

/// The row of a choice.
pub open spec fn choice_row(label: Seq<char>, selected: bool) -> Seq<SpanView> {
    if selected {
        seq![colored(ThemeColor::Accent, "→ "@), colored(ThemeColor::Accent, label)]
    } else {
        seq![plain("  "@), colored(ThemeColor::Text, label)]
    }
}

/// The row of a choice.
pub fn choice_line(label: &str, selected: bool) -> (r: Vec<Span>)
    ensures
        spans(r@) == choice_row(label@, selected),
{
    let mut line: Vec<Span> = Vec::new();
    if selected {
        push_span(&mut line, fg(ThemeColor::Accent, "→ "));
        push_span(&mut line, fg(ThemeColor::Accent, label));
    } else {
        push_span(&mut line, raw("  "));
        push_span(&mut line, fg(ThemeColor::Text, label));
    }
    assert(spans(line@) =~= choice_row(label@, selected));
    line
}

/// Whether a key press turns the setup from `before` into `after` and asks for the action.
pub open spec fn setup_responded(
    before: FirstTimeSetup,
    after: FirstTimeSetup,
    keys: KeyMatches,
    data: Seq<char>,
    r: SetupAction,
) -> bool {
    if keys.has("tui.select.up"@) || data == "k"@ {
        (after, r) == before.moved_to(0)
    } else if keys.has("tui.select.down"@) || data == "j"@ {
        (after, r) == before.moved_to(1)
    } else if keys.has("tui.select.confirm"@) || data == "\n"@ {
        match before.step {
            SetupStep::Theme => r is Nothing && after == (FirstTimeSetup {
                step: SetupStep::Analytics,
                ..before
            }),
            SetupStep::Analytics => after == before && r == SetupAction::Submit(
                FirstTimeSetupResult {
                    theme: theme_at(before.theme_index as int),
                    share_analytics: before.analytics_index == 0,
                },
            ),
        }
    } else if keys.has("tui.select.cancel"@) {
        after == before && r == SetupAction::Cancel(before.original_theme)
    } else {
        after == before && r is Nothing
    }
}

impl FirstTimeSetup {
    /// Whether the selections are among the choices.
    pub open spec fn wf(&self) -> bool {
        self.theme_index <= 1 && self.analytics_index <= 1
    }

    /// The setup with the terminal's own appearance selected.
    #[must_use]
    pub fn new(options: FirstTimeSetupOptions) -> (r: Self)
        ensures
            r.wf(),
            r.step == SetupStep::Theme,
            r.detected_theme == options.detected_theme,
            theme_at(r.theme_index as int) == options.detected_theme,
            r.analytics_index == 0,
            r.original_theme == options.original_theme,
    {
        let theme_index: usize = match options.detected_theme {
            TerminalTheme::Dark => 0,
            TerminalTheme::Light => 1,
        };
        FirstTimeSetup {
            step: SetupStep::Theme,
            detected_theme: options.detected_theme,
            theme_index,
            analytics_index: 0,
            original_theme: options.original_theme,
        }
    }

    /// The setup after the selection moves to a choice, and what that asks for.
    pub open spec fn moved_to(self, index: usize) -> (FirstTimeSetup, SetupAction) {
        match self.step {
            SetupStep::Theme => (
                FirstTimeSetup { theme_index: index, ..self },
                if index != self.theme_index {
                    SetupAction::Preview(theme_at(index as int))
                } else {
                    SetupAction::Nothing
                },
            ),
            SetupStep::Analytics => (
                FirstTimeSetup { analytics_index: index, ..self },
                SetupAction::Nothing,
            ),
        }
    }

    fn move_to(&mut self, index: usize) -> (r: SetupAction)
        requires
            index <= 1,
        ensures
            (*final(self), r) == old(self).moved_to(index),
    {
        match self.step {
            SetupStep::Theme => {
                if index != self.theme_index {
                    self.theme_index = index;
                    SetupAction::Preview(
                        if index == 0 {
                            TerminalTheme::Dark
                        } else {
                            TerminalTheme::Light
                        },
                    )
                } else {
                    SetupAction::Nothing
                }
            },
            SetupStep::Analytics => {
                self.analytics_index = index;
                SetupAction::Nothing
            },
        }
    }

    /// Takes in a key press. The first step leads to the second, and the second to the result.
    pub fn handle_input(&mut self, keys: &KeyMatches, data: &str) -> (r: SetupAction)
        requires
            old(self).wf(),
        ensures
            final(self).wf(),
            setup_responded(*old(self), *final(self), *keys, data@, r),
    {
        if keys.matches("tui.select.up") || str_eq(data, "k") {
            self.move_to(0)
        } else if keys.matches("tui.select.down") || str_eq(data, "j") {
            self.move_to(1)
        } else if keys.matches("tui.select.confirm") || str_eq(data, "\n") {
            match self.step {
                SetupStep::Theme => {
                    self.step = SetupStep::Analytics;
                    SetupAction::Nothing
                },
                SetupStep::Analytics => SetupAction::Submit(
                    FirstTimeSetupResult {
                        theme: if self.theme_index == 0 {
                            TerminalTheme::Dark
                        } else {
                            TerminalTheme::Light
                        },
                        share_analytics: self.analytics_index == 0,
                    },
                ),
            }
        } else if keys.matches("tui.select.cancel") {
            SetupAction::Cancel(clone_opt(&self.original_theme))
        } else {
            SetupAction::Nothing
        }
    }

    /// The line that welcomes the user.
    pub fn welcome() -> (r: Span)
        ensures
            r@ == bold_colored(ThemeColor::Accent, "Welcome to pi, the minimal coding agent."@),
    {
        bold_fg(ThemeColor::Accent, "Welcome to pi, the minimal coding agent.")
    }

    /// The choice that is selected in the current step.
    pub open spec fn index(&self) -> usize {
        match self.step {
            SetupStep::Theme => self.theme_index,
            SetupStep::Analytics => self.analytics_index,
        }
    }

    /// The hints of the current step.
    pub open spec fn hints(&self, table: KeyTable) -> Seq<SpanView> {
        list_hints(
            table,
            match self.step {
                SetupStep::Theme => "continue"@,
                SetupStep::Analytics => "finish"@,
            },
            "skip setup"@,
        )
    }

    /// The pieces of the screen: the logo, the welcome, the current step and its hints, between two
    /// borders.
    pub open spec fn screen(&self, table: KeyTable) -> Seq<PieceView> {
        let labels = step_labels(self.step);
        seq![
            PieceView::Border(ThemeColor::Border),
            PieceView::Spacer(1),
            text_piece(
                colored(ThemeColor::Accent, "██████\n██  ██\n████  ██\n██    ██"@),
                1,
            ),
            PieceView::Spacer(1),
            text_piece(
                bold_colored(ThemeColor::Accent, "Welcome to pi, the minimal coding agent."@),
                1,
            ),
            PieceView::Spacer(1),
            text_piece(colored(ThemeColor::Text, step_prompt(self.step)), 1),
            text_piece(
                colored(ThemeColor::Muted, step_detail(self.step, self.detected_theme)),
                1,
            ),
            PieceView::Spacer(1),
            PieceView::Text { spans: choice_row(labels.0, self.index() == 0), padding: 1 },
            PieceView::Text { spans: choice_row(labels.1, self.index() == 1), padding: 1 },
            PieceView::Spacer(1),
            PieceView::Text { spans: self.hints(table), padding: 1 },
            PieceView::Spacer(1),
            PieceView::Border(ThemeColor::Border),
        ]
    }

    fn step_parts(&self) -> (r: (&'static str, String, &'static str, &'static str, usize))
        ensures
            r.0@ == step_prompt(self.step),
            r.1@ == step_detail(self.step, self.detected_theme),
            (r.2@, r.3@) == step_labels(self.step),
            r.4 == self.index(),
    {
        match self.step {
            SetupStep::Theme => (
                "Pick a theme.",
                "Detected system appearance: ".to_owned().concat(
                    terminal_theme_name(self.detected_theme),
                ),
                "Dark",
                "Light",
                self.theme_index,
            ),
            SetupStep::Analytics => (
                "Opt-in to anonymous usage data sharing?",
                "Opting in stores a tracking identifier in settings.json and enables anonymous\nusage analytics. This helps us to better debug, reproduce, and resolve issues\nand bugs within Pi. You can observe what is shared using /privacy and make\nchanges anytime in settings.json.".to_owned(),
                "Share anonymous usage data",
                "Don't share",
                self.analytics_index,
            ),
        }
    }

    /// The pieces of the screen: the logo, the welcome, the current step and its hints, between two
    /// borders.
    pub fn render(&self, table: &KeyTable) -> (r: Vec<Piece>)
        ensures
            pieces(r@) == self.screen(*table),
    {
        let (prompt, detail, first, second, index) = self.step_parts();
        let mut list: Vec<Piece> = Vec::new();
        push_piece(&mut list, Piece::Border(ThemeColor::Border));
        push_piece(&mut list, Piece::Spacer(1));
        push_piece(
            &mut list,
            single_span(
                fg(ThemeColor::Accent, "██████\n██  ██\n████  ██\n██    ██"),
                1,
            ),
        );
        push_piece(&mut list, Piece::Spacer(1));
        push_piece(&mut list, single_span(Self::welcome(), 1));
        push_piece(&mut list, Piece::Spacer(1));
        push_piece(&mut list, single_span(fg(ThemeColor::Text, prompt), 1));
        push_piece(&mut list, single_span(fg(ThemeColor::Muted, detail.as_str()), 1));
        push_piece(&mut list, Piece::Spacer(1));
        push_piece(
            &mut list,
            Piece::Text { spans: choice_line(first, index == 0), padding: 1 },
        );
        push_piece(
            &mut list,
            Piece::Text { spans: choice_line(second, index == 1), padding: 1 },
        );
        push_piece(&mut list, Piece::Spacer(1));
        push_piece(&mut list, Piece::Text { spans: self.hint_line(table), padding: 1 });
        push_piece(&mut list, Piece::Spacer(1));
        push_piece(&mut list, Piece::Border(ThemeColor::Border));
        assert(pieces(list@) =~= self.screen(*table));
        list
    }

    /// The hints of the current step.
    pub fn hint_line(&self, table: &KeyTable) -> (r: Vec<Span>)
        ensures
            spans(r@) == self.hints(*table),
    {
        let confirm = match self.step {
            SetupStep::Theme => "continue",
            SetupStep::Analytics => "finish",
        };
        list_hint_line(table, confirm, "skip setup")
    }
}

} // verus!
