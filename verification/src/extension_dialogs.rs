//! Dialogs that extensions open: a list, a line of text, and an editor.

use crate::countdown_timer::{timed_title, title_with_countdown, DialogCountdown};
use crate::first_time_setup::{choice_line, choice_row};
use crate::keybinding_hints::{bound_text, hint_spans, key_hint, KeyMatches, KeyTable};
use crate::scroll::{move_down, move_up, moved_down, moved_up};
use crate::style::{
    append_spans, bold_colored, bold_fg, colored, fg, plain, push_line, push_span, raw, span_lines,
    spans, Span, SpanView, ThemeColor,
};
use crate::text::{
    char_texts, chars_of, decimal, decimal_str, push_text, str_eq, string_of, texts, trim,
    trim_str, words, words_of,
};
use crate::transcript::{
    pieces, push_piece, push_texts, single_span, text_piece, text_pieces, Piece, PieceView,
};
use crate::trust_selector::{list_hint_line, list_hints};
use vstd::prelude::*;
use vstd::slice::slice_subrange;
use vstd::string::*;

verus! {

broadcast use vstd::string::group_string_axioms;

/// What a key press asks of a dialog's surroundings.
#[derive(Debug, PartialEq, Eq)]
pub enum DialogAction {
    Nothing,
    Submit(String),
    Cancel,
    /// Tool output is to be expanded or collapsed.
    ToggleToolsExpanded,
    /// The text is to be edited in an external editor.
    OpenExternalEditor,
    /// The press belongs to the text.
    Edit,
}

/// The content of an action.
#[verifier::ext_equal]
pub enum DialogActionView {
    Nothing,
    Submit(Seq<char>),
    Cancel,
    ToggleToolsExpanded,
    OpenExternalEditor,
    Edit,
}

impl View for DialogAction {
    type V = DialogActionView;

    open spec fn view(&self) -> DialogActionView {
        match self {
            DialogAction::Nothing => DialogActionView::Nothing,
            DialogAction::Submit(text) => DialogActionView::Submit(text@),
            DialogAction::Cancel => DialogActionView::Cancel,
            DialogAction::ToggleToolsExpanded => DialogActionView::ToggleToolsExpanded,
            DialogAction::OpenExternalEditor => DialogActionView::OpenExternalEditor,
            DialogAction::Edit => DialogActionView::Edit,
        }
    }
}

/// A list of options to choose from.
#[derive(Debug)]
pub struct ExtensionSelector {
    pub title: String,
    pub options: Vec<String>,
    pub selected: usize,
    pub countdown: DialogCountdown,
}

impl ExtensionSelector {
    /// A list with its first option selected.
    #[must_use]
    pub fn new(title: String, options: Vec<String>) -> (r: Self)
        ensures
            r.title == title,
            r.options == options,
            r.selected == 0,
            r.countdown.deadline_ms is None,
            !r.countdown.expired,
    {
        ExtensionSelector { title, options, selected: 0, countdown: DialogCountdown::none() }
    }

    /// The list, cancelled after the timeout.
    #[must_use]
    pub fn with_timeout(self, timeout_ms: u64, now_ms: u64) -> (r: Self)
        requires
            self.countdown.wf(),
        ensures
            r.countdown.wf(),
            r.title == self.title,
            r.options == self.options,
            r.selected == self.selected,
            r.countdown.expired == self.countdown.expired,
            r.countdown.deadline_ms == if timeout_ms > 0 {
                Some((now_ms + timeout_ms) as u128)
            } else {
                self.countdown.deadline_ms
            },
    {
        ExtensionSelector {
            title: self.title,
            options: self.options,
            selected: self.selected,
            countdown: self.countdown.with_timeout(timeout_ms, now_ms),
        }
    }

    /// The option that is selected at a later press, and what the press asks for.
    pub open spec fn pressed(&self, keys: KeyMatches, data: Seq<char>) -> (int, DialogActionView) {
        let selected = self.selected as int;
        let len = self.options.len() as int;
        if keys.has("app.tools.expand"@) {
            (selected, DialogActionView::ToggleToolsExpanded)
        } else if keys.has("tui.select.up"@) || data == "k"@ {
            (moved_up(selected, 1), DialogActionView::Nothing)
        } else if keys.has("tui.select.down"@) || data == "j"@ {
            (moved_down(selected, len, 1), DialogActionView::Nothing)
        } else if keys.has("tui.select.confirm"@) || data == "\n"@ {
            (
                selected,
                if selected < len {
                    DialogActionView::Submit(self.options[selected]@)
                } else {
                    DialogActionView::Nothing
                },
            )
        } else if keys.has("tui.select.cancel"@) {
            (selected, DialogActionView::Cancel)
        } else {
            (selected, DialogActionView::Nothing)
        }
    }

    /// Takes in a key press. The selection stops at both ends.
    pub fn handle_input(&mut self, keys: &KeyMatches, data: &str) -> (r: DialogAction)
        ensures
            *final(self) == (ExtensionSelector { selected: final(self).selected, ..*old(self) }),
            (final(self).selected as int, r@) == old(self).pressed(*keys, data@),
    {
        if keys.matches("app.tools.expand") {
            DialogAction::ToggleToolsExpanded
        } else if keys.matches("tui.select.up") || str_eq(data, "k") {
            self.selected = move_up(self.selected, 1);
            DialogAction::Nothing
        } else if keys.matches("tui.select.down") || str_eq(data, "j") {
            self.selected = move_down(self.selected, self.options.len(), 1);
            DialogAction::Nothing
        } else if keys.matches("tui.select.confirm") || str_eq(data, "\n") {
            if self.selected < self.options.len() {
                DialogAction::Submit(self.options[self.selected].clone())
            } else {
                DialogAction::Nothing
            }
        } else if keys.matches("tui.select.cancel") {
            DialogAction::Cancel
        } else {
            DialogAction::Nothing
        }
    }

    /// The title, with the seconds that are left.
    pub fn title_text(&self, seconds: Option<u64>) -> (r: String)
        ensures
            r@ == timed_title(self.title@, seconds),
    {
        title_with_countdown(self.title.as_str(), seconds)
    }

    /// The rows of the options.
    pub fn option_lines(&self) -> (r: Vec<Vec<Span>>)
        ensures
            span_lines(r@) == Seq::new(
                self.options@.len(),
                |i: int| choice_row(self.options[i]@, i == self.selected),
            ),
    {
        let mut lines: Vec<Vec<Span>> = Vec::new();
        let mut i: usize = 0;
        while i < self.options.len()
            invariant
                i <= self.options.len(),
                span_lines(lines@) =~= Seq::new(
                    i as nat,
                    |i: int| choice_row(self.options[i]@, i == self.selected),
                ),
            decreases self.options.len() - i,
        {
            push_line(&mut lines, choice_line(self.options[i].as_str(), i == self.selected));
            i = i + 1;
        }
        lines
    }

    /// The pieces of the list, with the seconds that are left, between two borders.
    pub open spec fn screen(&self, seconds: Option<u64>, table: KeyTable) -> Seq<PieceView> {
        seq![
            PieceView::Border(ThemeColor::Border),
            PieceView::Spacer(1),
            text_piece(bold_colored(ThemeColor::Accent, timed_title(self.title@, seconds)), 1),
            PieceView::Spacer(1),
        ] + text_pieces(
            Seq::new(
                self.options@.len(),
                |i: int| choice_row(self.options[i]@, i == self.selected),
            ),
            1,
        ) + seq![
            PieceView::Spacer(1),
            PieceView::Text { spans: list_hints(table, "select"@, "cancel"@), padding: 1 },
            PieceView::Spacer(1),
            PieceView::Border(ThemeColor::Border),
        ]
    }

    /// The pieces of the list at the time, and whether its time is up now.
    pub fn render(&mut self, now_ms: u64, table: &KeyTable) -> (r: (Vec<Piece>, bool))
        requires
            old(self).countdown.wf(),
        ensures
            final(self).countdown.wf(),
            *final(self) == (ExtensionSelector { countdown: final(self).countdown, ..*old(self) }),
            (final(self).countdown, r.1) == old(self).countdown.ticked(now_ms),
            pieces(r.0@) == old(self).screen(old(self).countdown.seconds(now_ms), *table),
    {
        let (seconds, cancels) = self.countdown.tick(now_ms);
        let mut list: Vec<Piece> = Vec::new();
        push_piece(&mut list, Piece::Border(ThemeColor::Border));
        push_piece(&mut list, Piece::Spacer(1));
        let title = self.title_text(seconds);
        push_piece(&mut list, single_span(bold_fg(ThemeColor::Accent, title.as_str()), 1));
        push_piece(&mut list, Piece::Spacer(1));
        push_texts(&mut list, &self.option_lines(), 1);
        push_piece(&mut list, Piece::Spacer(1));
        push_piece(
            &mut list,
            Piece::Text { spans: list_hint_line(table, "select", "cancel"), padding: 1 },
        );
        push_piece(&mut list, Piece::Spacer(1));
        push_piece(&mut list, Piece::Border(ThemeColor::Border));
        assert(pieces(list@) =~= old(self).screen(seconds, *table));
        (list, cancels)
    }
}

/// A line of text to enter.
#[derive(Debug)]
pub struct ExtensionInput {
    pub title: String,
    pub value: String,
    pub countdown: DialogCountdown,
}

impl ExtensionInput {
    /// An empty line.
    #[must_use]
    pub fn new(title: String) -> (r: Self)
        ensures
            r.title == title,
            r.value@ == Seq::<char>::empty(),
            r.countdown.deadline_ms is None,
            !r.countdown.expired,
    {
        ExtensionInput { title, value: String::new(), countdown: DialogCountdown::none() }
    }

    /// The line, cancelled after the timeout.
    #[must_use]
    pub fn with_timeout(self, timeout_ms: u64, now_ms: u64) -> (r: Self)
        requires
            self.countdown.wf(),
        ensures
            r.countdown.wf(),
            r.title == self.title,
            r.value == self.value,
            r.countdown.expired == self.countdown.expired,
            r.countdown.deadline_ms == if timeout_ms > 0 {
                Some((now_ms + timeout_ms) as u128)
            } else {
                self.countdown.deadline_ms
            },
    {
        ExtensionInput {
            title: self.title,
            value: self.value,
            countdown: self.countdown.with_timeout(timeout_ms, now_ms),
        }
    }

    /// The text that was entered.
    #[must_use]
    pub fn value(&self) -> (r: &str)
        ensures
            r@ == self.value@,
    {
        self.value.as_str()
    }

    /// Replaces the text.
    pub fn set_value(&mut self, value: &str)
        ensures
            final(self).value@ == value@,
            final(self).title == old(self).title,
            final(self).countdown == old(self).countdown,
    {
        self.value = value.to_owned();
    }

    /// What a key asks for.
    pub open spec fn answered(&self, keys: KeyMatches, data: Seq<char>) -> DialogActionView {
        if keys.has("tui.select.confirm"@) || data == "\n"@ {
            DialogActionView::Submit(self.value@)
        } else if keys.has("tui.select.cancel"@) {
            DialogActionView::Cancel
        } else {
            DialogActionView::Edit
        }
    }

    /// Takes in a key press.
    pub fn handle_input(&self, keys: &KeyMatches, data: &str) -> (r: DialogAction)
        ensures
            r@ == self.answered(*keys, data@),
    {
        if keys.matches("tui.select.confirm") || str_eq(data, "\n") {
            DialogAction::Submit(self.value.clone())
        } else if keys.matches("tui.select.cancel") {
            DialogAction::Cancel
        } else {
            DialogAction::Edit
        }
    }

    /// The hints under the line.
    pub fn hint_line(table: &KeyTable) -> (r: Vec<Span>)
        ensures
            spans(r@) == input_hints(*table),
    {
        let mut line = key_hint(table, "tui.select.confirm", "submit");
        push_span(&mut line, raw("  "));
        append_spans(&mut line, key_hint(table, "tui.select.cancel", "cancel"));
        assert(spans(line@) =~= input_hints(*table));
        line
    }

    /// The pieces of the line, with the seconds that are left, between two borders.
    pub open spec fn screen(&self, seconds: Option<u64>, table: KeyTable) -> Seq<PieceView> {
        seq![
            PieceView::Border(ThemeColor::Border),
            PieceView::Spacer(1),
            text_piece(colored(ThemeColor::Accent, timed_title(self.title@, seconds)), 1),
            PieceView::Spacer(1),
            PieceView::Input,
            PieceView::Spacer(1),
            PieceView::Text { spans: input_hints(table), padding: 1 },
            PieceView::Spacer(1),
            PieceView::Border(ThemeColor::Border),
        ]
    }

    /// The pieces of the line at the time, and whether its time is up now.
    pub fn render(&mut self, now_ms: u64, table: &KeyTable) -> (r: (Vec<Piece>, bool))
        requires
            old(self).countdown.wf(),
        ensures
            final(self).countdown.wf(),
            *final(self) == (ExtensionInput { countdown: final(self).countdown, ..*old(self) }),
            (final(self).countdown, r.1) == old(self).countdown.ticked(now_ms),
            pieces(r.0@) == old(self).screen(old(self).countdown.seconds(now_ms), *table),
    {
        let (seconds, cancels) = self.countdown.tick(now_ms);
        let title = title_with_countdown(self.title.as_str(), seconds);
        let list = framed_input(title.as_str(), Self::hint_line(table));
        assert(pieces(list@) =~= old(self).screen(seconds, *table));
        (list, cancels)
    }
}

/// An editor for several lines of text.
#[derive(Debug)]
pub struct ExtensionEditor {
    pub title: String,
    pub text: String,
    pub external_editor_command: Option<String>,
}

/// The editor's command: the configured one, otherwise what the environment names, otherwise the
/// system's own.
pub open spec fn editor_command(
    configured: Option<Seq<char>>,
    visual: Option<Seq<char>>,
    editor: Option<Seq<char>>,
    windows: bool,
) -> Seq<char> {
    match (configured, visual, editor) {
        (Some(command), _, _) => command,
        (None, Some(command), _) => command,
        (None, None, Some(command)) => command,
        (None, None, None) => if windows {
            "notepad"@
        } else {
            "nano"@
        },
    }
}

/// The content of an optional text.
pub open spec fn opt_str(text: Option<&str>) -> Option<Seq<char>> {
    match text {
        Some(t) => Some(t@),
        None => None,
    }
}

/// The text that was edited externally: the file without the newline at its end.
pub open spec fn edited_text(content: Seq<char>) -> Seq<char> {
    if content.len() > 0 && content.last() == '\n' {
        content.drop_last()
    } else {
        content
    }
}

impl ExtensionEditor {
    /// An editor with a text to start from.
    #[must_use]
    pub fn new(title: String, prefill: Option<&str>) -> (r: Self)
        ensures
            r.title == title,
            r.text@ == match prefill {
                Some(text) => text@,
                None => Seq::empty(),
            },
            r.external_editor_command is None,
    {
        let text = match prefill {
            Some(text) => text.to_owned(),
            None => String::new(),
        };
        ExtensionEditor { title, text, external_editor_command: None }
    }

    /// Sets the command of the external editor.
    pub fn set_external_editor_command(&mut self, command: Option<String>)
        ensures
            final(self).external_editor_command == command,
            final(self).title == old(self).title,
            final(self).text == old(self).text,
    {
        self.external_editor_command = command;
    }

    /// The text.
    #[must_use]
    pub fn value(&self) -> (r: String)
        ensures
            r@ == self.text@,
    {
        self.text.clone()
    }

    /// Replaces the text.
    pub fn set_value(&mut self, value: &str)
        ensures
            final(self).text@ == value@,
            final(self).title == old(self).title,
            final(self).external_editor_command == old(self).external_editor_command,
    {
        self.text = value.to_owned();
    }

    /// The command of the external editor.
    pub fn external_editor_command(
        &self,
        visual: Option<&str>,
        editor: Option<&str>,
        windows: bool,
    ) -> (r: String)
        ensures
            r@ == editor_command(
                match self.external_editor_command {
                    Some(command) => Some(command@),
                    None => None,
                },
                opt_str(visual),
                opt_str(editor),
                windows,
            ),
    {
        match (&self.external_editor_command, visual, editor) {
            (Some(command), _, _) => command.clone(),
            (None, Some(command), _) => command.to_owned(),
            (None, None, Some(command)) => command.to_owned(),
            (None, None, None) => {
                if windows {
                    "notepad".to_owned()
                } else {
                    "nano".to_owned()
                }
            },
        }
    }

    /// What a key asks for, with the text as it stands once the pasted parts are expanded.
    pub open spec fn answered(&self, keys: KeyMatches, expanded: Seq<char>) -> DialogActionView {
        if keys.has("tui.select.cancel"@) {
            DialogActionView::Cancel
        } else if keys.has("app.editor.external"@) {
            DialogActionView::OpenExternalEditor
        } else if keys.has("tui.select.confirm"@) {
            DialogActionView::Submit(trim(expanded))
        } else {
            DialogActionView::Edit
        }
    }

    /// Takes in a key press. `expanded` is the text with what was pasted into it.
    pub fn handle_input(&self, keys: &KeyMatches, expanded: &str) -> (r: DialogAction)
        ensures
            r@ == self.answered(*keys, expanded@),
    {
        if keys.matches("tui.select.cancel") {
            DialogAction::Cancel
        } else if keys.matches("app.editor.external") {
            DialogAction::OpenExternalEditor
        } else if keys.matches("tui.select.confirm") {
            DialogAction::Submit(trim_str(expanded))
        } else {
            DialogAction::Edit
        }
    }

    /// Takes over the text that was edited externally, if the editor succeeded and its file could
    /// be read.
    pub fn finish_external_edit(&mut self, success: bool, content: Option<&str>)
        ensures
            final(self).title == old(self).title,
            final(self).external_editor_command == old(self).external_editor_command,
            final(self).text@ == match content {
                Some(content) if success => edited_text(content@),
                _ => old(self).text@,
            },
    {
        if let Some(content) = content {
            if success {
                let chars = chars_of(content);
                let end: usize = if chars.len() > 0 && chars[chars.len() - 1] == '\n' {
                    chars.len() - 1
                } else {
                    chars.len()
                };
                self.text = string_of(slice_subrange(chars.as_slice(), 0, end));
                assert(self.text@ =~= edited_text(content@));
            }
        }
    }

    /// The hints under the editor.
    pub fn hint_line(table: &KeyTable) -> (r: Vec<Span>)
        ensures
            spans(r@) == editor_hints(*table),
    {
        let mut line = key_hint(table, "tui.select.confirm", "submit");
        push_span(&mut line, raw("  "));
        append_spans(&mut line, key_hint(table, "tui.input.newLine", "newline"));
        push_span(&mut line, raw("  "));
        append_spans(&mut line, key_hint(table, "tui.select.cancel", "cancel"));
        push_span(&mut line, raw("  "));
        append_spans(&mut line, key_hint(table, "app.editor.external", "external editor"));
        assert(spans(line@) =~= editor_hints(*table));
        line
    }

    /// The pieces of the editor, between two borders.
    pub open spec fn screen(&self, table: KeyTable) -> Seq<PieceView> {
        seq![
            PieceView::Border(ThemeColor::Border),
            PieceView::Spacer(1),
            text_piece(colored(ThemeColor::Accent, self.title@), 1),
            PieceView::Spacer(1),
            PieceView::Input,
            PieceView::Spacer(1),
            PieceView::Text { spans: editor_hints(table), padding: 1 },
            PieceView::Spacer(1),
            PieceView::Border(ThemeColor::Border),
        ]
    }

    /// The pieces of the editor.
    pub fn render(&self, table: &KeyTable) -> (r: Vec<Piece>)
        ensures
            pieces(r@) == self.screen(*table),
    {
        let list = framed_input(self.title.as_str(), Self::hint_line(table));
        assert(pieces(list@) =~= self.screen(*table));
        list
    }
}

/// The hints under a line of text.
pub open spec fn input_hints(table: KeyTable) -> Seq<SpanView> {
    hint_spans(bound_text(table, "tui.select.confirm"@), "submit"@) + seq![plain("  "@)]
        + hint_spans(bound_text(table, "tui.select.cancel"@), "cancel"@)
}

/// A title, the input and hints, between two borders.
fn framed_input(title: &str, hints: Vec<Span>) -> (r: Vec<Piece>)
    ensures
        pieces(r@) == seq![
            PieceView::Border(ThemeColor::Border),
            PieceView::Spacer(1),
            text_piece(colored(ThemeColor::Accent, title@), 1),
            PieceView::Spacer(1),
            PieceView::Input,
            PieceView::Spacer(1),
            PieceView::Text { spans: spans(hints@), padding: 1 },
            PieceView::Spacer(1),
            PieceView::Border(ThemeColor::Border),
        ],
{
    let mut list: Vec<Piece> = Vec::new();
    push_piece(&mut list, Piece::Border(ThemeColor::Border));
    push_piece(&mut list, Piece::Spacer(1));
    push_piece(&mut list, single_span(fg(ThemeColor::Accent, title), 1));
    push_piece(&mut list, Piece::Spacer(1));
    push_piece(&mut list, Piece::Input);
    push_piece(&mut list, Piece::Spacer(1));
    push_piece(&mut list, Piece::Text { spans: hints, padding: 1 });
    push_piece(&mut list, Piece::Spacer(1));
    push_piece(&mut list, Piece::Border(ThemeColor::Border));
    assert(pieces(list@) =~= seq![
        PieceView::Border(ThemeColor::Border),
        PieceView::Spacer(1),
        text_piece(colored(ThemeColor::Accent, title@), 1),
        PieceView::Spacer(1),
        PieceView::Input,
        PieceView::Spacer(1),
        PieceView::Text { spans: spans(hints@), padding: 1 },
        PieceView::Spacer(1),
        PieceView::Border(ThemeColor::Border),
    ]);
    list
}

/// The hints under an editor.
pub open spec fn editor_hints(table: KeyTable) -> Seq<SpanView> {
    hint_spans(bound_text(table, "tui.select.confirm"@), "submit"@) + seq![plain("  "@)]
        + hint_spans(bound_text(table, "tui.input.newLine"@), "newline"@) + seq![plain("  "@)]
        + hint_spans(bound_text(table, "tui.select.cancel"@), "cancel"@) + seq![plain("  "@)]
        + hint_spans(bound_text(table, "app.editor.external"@), "external editor"@)
}

/// The name of the file that is handed to the external editor.
pub fn external_file_name(timestamp_ms: u128) -> (r: String)
    ensures
        r@ == "pi-extension-editor-"@ + decimal(timestamp_ms as nat) + ".md"@,
{
    "pi-extension-editor-".to_owned().concat(decimal_str(timestamp_ms).as_str()).concat(".md")
}

/// The program of the external editor with its arguments, the file last; a blank command has none.
pub fn external_invocation(command: &str, path: &str) -> (r: Option<(String, Vec<String>)>)
    ensures
        ({
            let parts = words(command@);
            match r {
                Some((program, args)) => parts.len() > 0 && program@ == parts[0] && texts(args@)
                    == parts.skip(1).push(path@),
                None => parts.len() == 0,
            }
        }),
{
    let chars = chars_of(command);
    let parts = words_of(chars.as_slice());
    let ghost all = char_texts(parts@);
    assert(all.len() == parts.len());
    if parts.len() == 0 {
        return None;
    }
    assert(all[0] == parts@[0]@);
    let program = string_of(parts[0].as_slice());
    let mut args: Vec<String> = Vec::new();
    let mut i: usize = 1;
    while i < parts.len()
        invariant
            1 <= i <= parts.len(),
            all == char_texts(parts@),
            texts(args@) =~= all.subrange(1, i as int),
        decreases parts.len() - i,
    {
        assert(all[i as int] == parts@[i as int]@);
        push_text(&mut args, string_of(parts[i].as_slice()));
        i = i + 1;
    }
    assert(all.subrange(1, i as int) =~= all.skip(1));
    push_text(&mut args, path.to_owned());
    Some((program, args))
}

} // verus!
