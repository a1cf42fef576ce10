//! OAuth and credential-entry dialog.

use crate::keybinding_hints::{bound_text, hint_spans, key_hint, KeyMatches, KeyTable};
use crate::style::{
    append_spans, bold_colored, bold_fg, colored, fg, plain, push_blank, push_line, push_span,
    push_span_line, raw, span_lines, spans, Span, SpanView, ThemeColor,
};
use crate::text::{chars_of, push_repeat, repeat, str_eq, texts};
use crate::transcript::{
    copy_line, pieces, push_piece, push_texts, single_line, single_span, text_piece, text_pieces,
    Piece, PieceView,
};
use vstd::prelude::*;
use vstd::string::*;

verus! {

broadcast use vstd::string::group_string_axioms;

/// What a key press asks of the dialog's surroundings.
#[derive(Debug, PartialEq, Eq)]
pub enum LoginAction {
    Nothing,
    Submit(String),
    /// The login failed with the message.
    Fail(String),
    /// The press belongs to the input.
    Edit,
}

/// The dialog.
#[derive(Debug)]
pub struct LoginDialogComponent {
    pub title: String,
    pub content: Vec<Vec<Span>>,
    pub input: String,
    pub input_visible: bool,
    pub input_hint: Option<Vec<Span>>,
    pub masked: bool,
    pub cancelled: bool,
}

/// The content of the dialog.
#[verifier::ext_equal]
pub struct LoginView {
    pub title: Seq<char>,
    pub content: Seq<Seq<SpanView>>,
    pub input: Seq<char>,
    pub input_visible: bool,
    pub input_hint: Option<Seq<SpanView>>,
    pub masked: bool,
    pub cancelled: bool,
}

impl View for LoginDialogComponent {
    type V = LoginView;

    open spec fn view(&self) -> LoginView {
        LoginView {
            title: self.title@,
            content: span_lines(self.content@),
            input: self.input@,
            input_visible: self.input_visible,
            input_hint: match self.input_hint {
                Some(hint) => Some(spans(hint@)),
                None => None,
            },
            masked: self.masked,
            cancelled: self.cancelled,
        }
    }
}

/// A text that links to the address.
pub open spec fn link(url: Seq<char>, text: Seq<char>) -> Seq<char> {
    "\x1b]8;;"@ + url + "\x07"@ + text + "\x1b]8;;\x07"@
}

/// How an address is opened.
pub open spec fn click_hint(macos: bool) -> Seq<char> {
    if macos {
        "Cmd+click to open"@
    } else {
        "Ctrl+click to open"@
    }
}

/// The lines of an address.
pub open spec fn address_lines(url: Seq<char>, macos: bool) -> Seq<Seq<SpanView>> {
    seq![
        Seq::empty(),
        seq![colored(ThemeColor::Accent, link(url, url))],
        seq![colored(ThemeColor::Dim, link(url, click_hint(macos)))],
    ]
}

/// A hint in brackets.
pub open spec fn bracketed(hint: Seq<SpanView>) -> Seq<SpanView> {
    seq![plain("("@)] + hint + seq![plain(")"@)]
}

/// The hint of the key that cancels.
pub open spec fn cancel_hint(table: KeyTable, description: Seq<char>) -> Seq<SpanView> {
    hint_spans(bound_text(table, "tui.select.cancel"@), description)
}

impl LoginView {
    /// The dialog with other content, and no input.
    pub open spec fn showing(self, content: Seq<Seq<SpanView>>) -> LoginView {
        LoginView { content, input_visible: false, input_hint: None, ..self }
    }

    /// What the input shows of a text.
    pub open spec fn displayed(self) -> Seq<char> {
        if self.masked {
            repeat('•', self.input.len())
        } else {
            self.input
        }
    }

    /// The line of an input whose content is hidden: one dot for each character, filled up to the
    /// width.
    pub open spec fn masked_line(self, width: nat) -> Seq<char> {
        let dots = repeat('•', self.input.len());
        let fill = if self.input.len() + 2 < width {
            (width - self.input.len() - 2) as nat
        } else {
            0
        };
        " "@ + dots + repeat(' ', fill) + " "@
    }

    /// The pieces of the dialog at the width.
    pub open spec fn screen(self, width: nat) -> Seq<PieceView> {
        let input = if !self.input_visible {
            Seq::empty()
        } else if self.masked {
            seq![PieceView::Line(seq![plain(self.masked_line(width))])]
        } else {
            seq![PieceView::Input]
        };
        let hint = match self.input_hint {
            Some(spans) => seq![PieceView::Text { spans, padding: 1 }],
            None => Seq::empty(),
        };
        seq![
            PieceView::Border(ThemeColor::Border),
            text_piece(bold_colored(ThemeColor::Accent, self.title), 1),
        ] + text_pieces(self.content, 1) + input + hint + seq![
            PieceView::Border(ThemeColor::Border),
        ]
    }

    /// The dialog after its input is submitted: what was entered stays as a line.
    pub open spec fn submitted(self) -> LoginView {
        LoginView {
            content: self.content.push(seq![plain("> "@ + self.displayed())]),
            input_visible: false,
            ..self
        }
    }
}

fn linked(url: &str, text: &str) -> (r: String)
    ensures
        r@ == link(url@, text@),
{
    "\x1b]8;;".to_owned().concat(url).concat("\x07").concat(text).concat("\x1b]8;;\x07")
}

fn make_address_lines(url: &str, macos: bool) -> (r: Vec<Vec<Span>>)
    ensures
        span_lines(r@) == address_lines(url@, macos),
{
    let hint = if macos {
        "Cmd+click to open"
    } else {
        "Ctrl+click to open"
    };
    let mut lines: Vec<Vec<Span>> = Vec::new();
    push_blank(&mut lines);
    push_span_line(&mut lines, fg(ThemeColor::Accent, linked(url, url).as_str()));
    push_span_line(&mut lines, fg(ThemeColor::Dim, linked(url, hint).as_str()));
    assert(span_lines(lines@) =~= address_lines(url@, macos));
    lines
}

fn in_brackets(hint: Vec<Span>) -> (r: Vec<Span>)
    ensures
        spans(r@) == bracketed(spans(hint@)),
{
    let mut line: Vec<Span> = Vec::new();
    push_span(&mut line, raw("("));
    append_spans(&mut line, hint);
    push_span(&mut line, raw(")"));
    assert(spans(line@) =~= bracketed(spans(hint@)));
    line
}

impl LoginDialogComponent {
    /// The dialog for a provider.
    #[must_use]
    pub fn new(provider_id: &str, provider_name: Option<&str>, title: Option<&str>) -> (r: Self)
        ensures
            r@ == (LoginView {
                title: match title {
                    Some(title) => title@,
                    None => "Login to "@ + match provider_name {
                        Some(name) => name@,
                        None => provider_id@,
                    },
                },
                content: Seq::empty(),
                input: Seq::empty(),
                input_visible: false,
                input_hint: None,
                masked: false,
                cancelled: false,
            }),
    {
        let name = match provider_name {
            Some(name) => name,
            None => provider_id,
        };
        let title = match title {
            Some(title) => title.to_owned(),
            None => "Login to ".to_owned().concat(name),
        };
        let r = LoginDialogComponent {
            title,
            content: Vec::new(),
            input: String::new(),
            input_visible: false,
            input_hint: None,
            masked: false,
            cancelled: false,
        };
        assert(r@.content =~= Seq::<Seq<SpanView>>::empty());
        r
    }

    /// Whether what is entered is hidden.
    pub fn set_masked(&mut self, masked: bool)
        ensures
            final(self)@ == (LoginView { masked, ..old(self)@ }),
    {
        self.masked = masked;
        assert(self@ =~= (LoginView { masked, ..old(self)@ }));
    }

    fn show(&mut self, content: Vec<Vec<Span>>)
        ensures
            final(self)@ == old(self)@.showing(span_lines(content@)),
    {
        self.content = content;
        self.input_visible = false;
        self.input_hint = None;
        assert(self@ =~= old(self)@.showing(span_lines(content@)));
    }

    /// Shows an address to open.
    pub fn show_auth(&mut self, url: &str, instructions: Option<&str>, macos: bool)
        ensures
            final(self)@ == old(self)@.showing(
                address_lines(url@, macos) + match instructions {
                    Some(text) => seq![Seq::empty(), seq![colored(ThemeColor::Warning, text@)]],
                    None => Seq::empty(),
                },
            ),
    {
        let mut lines = make_address_lines(url, macos);
        let ghost address = span_lines(lines@);
        if let Some(text) = instructions {
            push_blank(&mut lines);
            push_span_line(&mut lines, fg(ThemeColor::Warning, text));
        }
        assert(span_lines(lines@) =~= address + match instructions {
            Some(text) => seq![Seq::empty(), seq![colored(ThemeColor::Warning, text@)]],
            None => Seq::empty(),
        });
        self.show(lines);
    }

    /// Shows an address to open and a code to enter there.
    pub fn show_device_code(&mut self, url: &str, code: &str, macos: bool)
        ensures
            final(self)@ == old(self)@.showing(
                address_lines(url@, macos) + seq![
                    Seq::empty(),
                    seq![colored(ThemeColor::Warning, "Enter code: "@ + code@)],
                ],
            ),
    {
        let mut lines = make_address_lines(url, macos);
        let ghost address = span_lines(lines@);
        push_blank(&mut lines);
        let text = "Enter code: ".to_owned().concat(code);
        push_span_line(&mut lines, fg(ThemeColor::Warning, text.as_str()));
        assert(span_lines(lines@) =~= address + seq![
            Seq::empty(),
            seq![colored(ThemeColor::Warning, text@)],
        ]);
        self.show(lines);
    }

    /// Asks for a text with a prompt.
    pub fn show_manual_input(&mut self, prompt: &str, table: &KeyTable)
        ensures
            final(self)@ == (LoginView {
                content: old(self)@.content + seq![
                    Seq::empty(),
                    seq![colored(ThemeColor::Dim, prompt@)],
                ],
                input: Seq::empty(),
                input_visible: true,
                input_hint: Some(bracketed(cancel_hint(*table, "to cancel"@))),
                ..old(self)@
            }),
    {
        self.input = String::new();
        push_blank(&mut self.content);
        push_span_line(&mut self.content, fg(ThemeColor::Dim, prompt));
        self.input_hint =
        Some(in_brackets(key_hint(table, "tui.select.cancel", "to cancel")));
        self.input_visible = true;
        assert(self@.content =~= old(self)@.content + seq![
            Seq::empty(),
            seq![colored(ThemeColor::Dim, prompt@)],
        ]);
    }

    /// Asks for a text with a message and an example.
    pub fn show_prompt(&mut self, message: &str, placeholder: Option<&str>, table: &KeyTable)
        ensures
            final(self)@ == (LoginView {
                content: old(self)@.content + seq![
                    Seq::empty(),
                    seq![colored(ThemeColor::Text, message@)],
                ] + match placeholder {
                    Some(text) => seq![seq![colored(ThemeColor::Dim, "e.g., "@ + text@)]],
                    None => Seq::empty(),
                },
                input: Seq::empty(),
                input_visible: true,
                input_hint: Some(
                    bracketed(
                        cancel_hint(*table, "to cancel,"@) + seq![plain(" "@)] + hint_spans(
                            bound_text(*table, "tui.select.confirm"@),
                            "to submit"@,
                        ),
                    ),
                ),
                ..old(self)@
            }),
    {
        push_blank(&mut self.content);
        push_span_line(&mut self.content, fg(ThemeColor::Text, message));
        if let Some(text) = placeholder {
            let example = "e.g., ".to_owned().concat(text);
            push_span_line(&mut self.content, fg(ThemeColor::Dim, example.as_str()));
        }
        let mut hint = key_hint(table, "tui.select.cancel", "to cancel,");
        push_span(&mut hint, raw(" "));
        append_spans(&mut hint, key_hint(table, "tui.select.confirm", "to submit"));
        assert(spans(hint@) =~= cancel_hint(*table, "to cancel,"@) + seq![plain(" "@)]
            + hint_spans(bound_text(*table, "tui.select.confirm"@), "to submit"@));
        self.input_hint = Some(in_brackets(hint));
        self.input = String::new();
        self.input_visible = true;
        assert(self@.content =~= old(self)@.content + seq![
            Seq::empty(),
            seq![colored(ThemeColor::Text, message@)],
        ] + match placeholder {
            Some(text) => seq![seq![colored(ThemeColor::Dim, "e.g., "@ + text@)]],
            None => Seq::empty(),
        });
    }

    /// Shows lines of text.
    pub fn show_details(&mut self, lines: &Vec<String>)
        ensures
            final(self)@ == old(self)@.showing(detail_lines(texts(lines@))),
    {
        let ghost wanted = detail_lines(texts(lines@));
        let mut content: Vec<Vec<Span>> = Vec::new();
        push_blank(&mut content);
        let mut i: usize = 0;
        while i < lines.len()
            invariant
                i <= lines.len(),
                wanted == detail_lines(texts(lines@)),
                span_lines(content@) =~= wanted.take(i + 1),
            decreases lines.len() - i,
        {
            assert(texts(lines@)[i as int] == lines[i as int]@);
            push_span_line(&mut content, raw(lines[i].as_str()));
            i = i + 1;
        }
        assert(span_lines(content@) =~= wanted);
        self.show(content);
    }

    /// Shows lines of text and how to close the dialog.
    pub fn show_info(&mut self, lines: &Vec<String>, table: &KeyTable)
        ensures
            final(self)@ == old(self)@.showing(
                detail_lines(texts(lines@)) + seq![
                    Seq::empty(),
                    bracketed(cancel_hint(*table, "to close"@)),
                ],
            ),
    {
        self.show_details(lines);
        let ghost details = self@.content;
        push_blank(&mut self.content);
        push_line(&mut self.content, in_brackets(key_hint(table, "tui.select.cancel", "to close")));
        assert(self@.content =~= details + seq![
            Seq::empty(),
            bracketed(cancel_hint(*table, "to close"@)),
        ]);
    }

    /// Shows that something is awaited.
    pub fn show_waiting(&mut self, message: &str, table: &KeyTable)
        ensures
            final(self)@ == old(self)@.showing(
                old(self)@.content + seq![
                    Seq::empty(),
                    seq![colored(ThemeColor::Dim, message@)],
                    bracketed(cancel_hint(*table, "to cancel"@)),
                ],
            ),
    {
        push_blank(&mut self.content);
        push_span_line(&mut self.content, fg(ThemeColor::Dim, message));
        push_line(
            &mut self.content,
            in_brackets(key_hint(table, "tui.select.cancel", "to cancel")),
        );
        self.input_visible = false;
        self.input_hint = None;
        assert(self@.content =~= old(self)@.content + seq![
            Seq::empty(),
            seq![colored(ThemeColor::Dim, message@)],
            bracketed(cancel_hint(*table, "to cancel"@)),
        ]);
    }

    /// Shows how the login goes on.
    pub fn show_progress(&mut self, message: &str)
        ensures
            final(self)@ == (LoginView {
                content: old(self)@.content.push(seq![colored(ThemeColor::Dim, message@)]),
                ..old(self)@
            }),
    {
        push_span_line(&mut self.content, fg(ThemeColor::Dim, message));
        assert(self@ =~= (LoginView {
            content: old(self)@.content.push(seq![colored(ThemeColor::Dim, message@)]),
            ..old(self)@
        }));
    }

    /// What the input shows.
    pub fn displayed(&self) -> (r: String)
        ensures
            r@ == self@.displayed(),
    {
        if self.masked {
            let count: usize = chars_of(self.input.as_str()).len();
            let mut dots = String::new();
            push_repeat(&mut dots, '•', count);
            assert(dots@ =~= repeat('•', count as nat));
            dots
        } else {
            self.input.clone()
        }
    }

    /// Takes in a key press. Cancelling fails the login once.
    pub fn handle_input(&mut self, keys: &KeyMatches, data: &str) -> (r: LoginAction)
        ensures
            login_responded(old(self)@, final(self)@, *keys, data@, r),
    {
        if keys.matches("tui.select.cancel") {
            if self.cancelled {
                assert(self@ =~= (LoginView { cancelled: true, ..old(self)@ }));
                return LoginAction::Nothing;
            }
            self.cancelled = true;
            assert(self@ =~= (LoginView { cancelled: true, ..old(self)@ }));
            LoginAction::Fail("Login cancelled".to_owned())
        } else if self.input_visible && (keys.matches("tui.select.confirm") || str_eq(data, "\n")) {
            let value = self.input.clone();
            let text = "> ".to_owned().concat(self.displayed().as_str());
            push_span_line(&mut self.content, raw(text.as_str()));
            self.input_visible = false;
            assert(self@ =~= old(self)@.submitted());
            LoginAction::Submit(value)
        } else if self.input_visible {
            LoginAction::Edit
        } else {
            LoginAction::Nothing
        }
    }

    /// The spaces after the input where what is entered is hidden.
    pub fn masked_fill(width: u16, value_width: usize) -> (r: usize)
        ensures
            r == if value_width + 2 < width {
                width - value_width - 2
            } else {
                0
            },
    {
        if (value_width as u128) + 2 < width as u128 {
            width as usize - value_width - 2
        } else {
            0
        }
    }

    /// The pieces of the dialog at the width. What is entered shows as dots where it is hidden.
    pub fn render(&self, width: u16) -> (r: Vec<Piece>)
        ensures
            pieces(r@) == self@.screen(width as nat),
    {
        let mut list: Vec<Piece> = Vec::new();
        push_piece(&mut list, Piece::Border(ThemeColor::Border));
        push_piece(&mut list, single_span(bold_fg(ThemeColor::Accent, self.title.as_str()), 1));
        push_texts(&mut list, &self.content, 1);
        if self.input_visible {
            if self.masked {
                let count: usize = chars_of(self.input.as_str()).len();
                let fill = Self::masked_fill(width, count);
                let mut text = " ".to_owned().concat(self.displayed().as_str());
                push_repeat(&mut text, ' ', fill);
                push_piece(&mut list, single_line(raw(text.concat(" ").as_str())));
            } else {
                push_piece(&mut list, Piece::Input);
            }
        }
        if let Some(hint) = &self.input_hint {
            push_piece(&mut list, Piece::Text { spans: copy_line(hint), padding: 1 });
        }
        push_piece(&mut list, Piece::Border(ThemeColor::Border));
        assert(pieces(list@) =~= self@.screen(width as nat));
        list
    }
}

/// Whether a key leads from one state of the dialog to another and asks for the action.
pub open spec fn login_responded(
    before: LoginView,
    after: LoginView,
    keys: KeyMatches,
    data: Seq<char>,
    r: LoginAction,
) -> bool {
    if keys.has("tui.select.cancel"@) {
        &&& after == (LoginView { cancelled: true, ..before })
        &&& if before.cancelled {
            r is Nothing
        } else {
            r matches LoginAction::Fail(message) && message@ == "Login cancelled"@
        }
    } else if before.input_visible && (keys.has("tui.select.confirm"@) || data == "\n"@) {
        &&& after == before.submitted()
        &&& r matches LoginAction::Submit(value) && value@ == before.input
    } else {
        after == before && if before.input_visible {
            r is Edit
        } else {
            r is Nothing
        }
    }
}

/// Lines of text under an empty line.
pub open spec fn detail_lines(lines: Seq<Seq<char>>) -> Seq<Seq<SpanView>> {
    seq![Seq::<SpanView>::empty()] + lines.map_values(|line: Seq<char>| seq![plain(line)])
}

/// What is entered where it is hidden never shows: the line that stays depends on its length alone.
pub proof fn masked_input_stays_hidden(v: LoginView, other: Seq<char>)
    requires
        v.masked,
        other.len() == v.input.len(),
    ensures
        v.submitted().content == (LoginView { input: other, ..v }).submitted().content,
{
}

} // verus!
