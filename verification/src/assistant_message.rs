//! Streaming assistant transcript message.

use crate::style::{colored, fg, italic_colored, italic_fg, ThemeColor};
use crate::text::str_eq;
use crate::transcript::{pieces, push_piece, single_span, text_piece, Piece, PieceView};
use vstd::prelude::*;
use vstd::string::*;

verus! {

broadcast use vstd::string::group_string_axioms;

/// One part of a message's content.
#[derive(Debug)]
pub enum MessagePart {
    Text(String),
    Thinking(String),
    ToolCall,
    Image,
    Other,
}

/// Why a response ended.
#[derive(Debug, Clone, Copy, PartialEq, Eq, Structural)]
pub enum StopReason {
    Stop,
    Length,
    ToolUse,
    Error,
    Aborted,
}

/// A response of the model.
#[derive(Debug)]
pub struct AssistantMessage {
    pub content: Vec<MessagePart>,
    pub stop_reason: StopReason,
    pub error_message: Option<String>,
}

/// The transcript block of a response.
#[derive(Debug)]
pub struct AssistantMessageComponent {
    pub message: Option<AssistantMessage>,
    pub hide_thinking: bool,
    pub hidden_thinking_label: String,
    pub output_pad: usize,
}

/// Whether the part shows: text or thinking that is not empty.
pub open spec fn is_shown(part: MessagePart) -> bool {
    match part {
        MessagePart::Text(text) => text@.len() > 0,
        MessagePart::Thinking(text) => text@.len() > 0,
        _ => false,
    }
}

/// Whether one of the parts from an index on shows.
pub open spec fn any_shown(content: Seq<MessagePart>, from: int) -> bool {
    exists|i: int| from <= i < content.len() && is_shown(#[trigger] content[i])
}

/// Whether the response calls tools.
pub open spec fn calls_tools(content: Seq<MessagePart>) -> bool {
    exists|i: int| 0 <= i < content.len() && #[trigger] content[i] is ToolCall
}

/// How the end of a response is reported. A response that calls tools leaves an abort or an error to
/// the tools.
pub open spec fn ending_text(message: AssistantMessage) -> Option<Seq<char>> {
    let calls = calls_tools(message.content@);
    match message.stop_reason {
        StopReason::Length => Some(
            "Error: Model stopped because it reached the maximum output token limit. The response may be incomplete."@,
        ),
        StopReason::Aborted if !calls => Some(
            match message.error_message {
                Some(text) if text@ != "Request was aborted"@ => text@,
                _ => "Operation aborted"@,
            },
        ),
        StopReason::Error if !calls => Some(
            "Error: "@ + match message.error_message {
                Some(text) => text@,
                None => "Unknown error"@,
            },
        ),
        _ => None,
    }
}

impl AssistantMessageComponent {
    /// The pieces of one part. Thinking is in italics, or hidden behind a label, and set off from
    /// what follows it.
    pub open spec fn part_pieces(&self, content: Seq<MessagePart>, i: int) -> Seq<PieceView> {
        let padding = self.output_pad as nat;
        match content[i] {
            MessagePart::Text(text) if text@.len() > 0 => seq![
                PieceView::Markdown {
                    text: text@,
                    padding,
                    color: None,
                    italic: false,
                    options: None,
                },
            ],
            MessagePart::Thinking(text) if text@.len() > 0 => {
                let body = if self.hide_thinking {
                    text_piece(
                        italic_colored(ThemeColor::ThinkingText, self.hidden_thinking_label@),
                        padding,
                    )
                } else {
                    PieceView::Markdown {
                        text: text@,
                        padding,
                        color: Some(ThemeColor::ThinkingText),
                        italic: true,
                        options: None,
                    }
                };
                if any_shown(content, i + 1) {
                    seq![body, PieceView::Spacer(1)]
                } else {
                    seq![body]
                }
            },
            _ => Seq::empty(),
        }
    }

    /// The pieces of the first `n` parts.
    pub open spec fn content_pieces(&self, content: Seq<MessagePart>, n: nat) -> Seq<PieceView>
        decreases n,
    {
        if n == 0 {
            Seq::empty()
        } else {
            self.content_pieces(content, (n - 1) as nat) + self.part_pieces(content, n - 1)
        }
    }

    /// The pieces of the block: an empty line above what shows, the content, and how it ended.
    pub open spec fn block(&self) -> Seq<PieceView> {
        match self.message {
            None => Seq::empty(),
            Some(message) => {
                let content = message.content@;
                let above = if any_shown(content, 0) {
                    seq![PieceView::Spacer(1)]
                } else {
                    Seq::empty()
                };
                let ending = match ending_text(message) {
                    Some(text) => seq![
                        PieceView::Spacer(1),
                        text_piece(colored(ThemeColor::Error, text), self.output_pad as nat),
                    ],
                    None => Seq::empty(),
                };
                above + self.content_pieces(content, content.len()) + ending
            },
        }
    }

    /// A block that shows thinking, with a padding of one column.
    #[must_use]
    pub fn new(message: Option<AssistantMessage>) -> (r: Self)
        ensures
            r.message == message,
            !r.hide_thinking,
            r.hidden_thinking_label@ == "Thinking..."@,
            r.output_pad == 1,
    {
        AssistantMessageComponent {
            message,
            hide_thinking: false,
            hidden_thinking_label: "Thinking...".to_owned(),
            output_pad: 1,
        }
    }

    /// Shows another state of the response.
    pub fn update_message(&mut self, message: AssistantMessage)
        ensures
            *final(self) == (AssistantMessageComponent { message: Some(message), ..*old(self) }),
    {
        self.message = Some(message);
    }

    /// Shows another state of the response.
    pub fn update_content(&mut self, message: AssistantMessage)
        ensures
            *final(self) == (AssistantMessageComponent { message: Some(message), ..*old(self) }),
    {
        self.update_message(message);
    }

    /// Whether thinking is hidden.
    pub fn set_hide_thinking_block(&mut self, hide: bool)
        ensures
            *final(self) == (AssistantMessageComponent { hide_thinking: hide, ..*old(self) }),
    {
        self.hide_thinking = hide;
    }

    /// What stands for thinking where it is hidden.
    pub fn set_hidden_thinking_label(&mut self, label: String)
        ensures
            *final(self) == (AssistantMessageComponent {
                hidden_thinking_label: label,
                ..*old(self)
            }),
    {
        self.hidden_thinking_label = label;
    }

    /// The empty columns at the sides.
    pub fn set_output_pad(&mut self, padding: usize)
        ensures
            *final(self) == (AssistantMessageComponent { output_pad: padding, ..*old(self) }),
    {
        self.output_pad = padding;
    }

    fn push_part(&self, list: &mut Vec<Piece>, content: &Vec<MessagePart>, i: usize)
        requires
            i < content.len(),
        ensures
            pieces(final(list)@) == pieces(old(list)@) + self.part_pieces(content@, i as int),
    {
        match &content[i] {
            MessagePart::Text(text) => {
                if !text.as_str().is_empty() {
                    push_piece(
                        list,
                        Piece::Markdown {
                            text: text.clone(),
                            padding: self.output_pad,
                            color: None,
                            italic: false,
                            options: None,
                        },
                    );
                }
            },
            MessagePart::Thinking(text) => {
                if !text.as_str().is_empty() {
                    let body = if self.hide_thinking {
                        single_span(
                            italic_fg(
                                ThemeColor::ThinkingText,
                                self.hidden_thinking_label.as_str(),
                            ),
                            self.output_pad,
                        )
                    } else {
                        Piece::Markdown {
                            text: text.clone(),
                            padding: self.output_pad,
                            color: Some(ThemeColor::ThinkingText),
                            italic: true,
                            options: None,
                        }
                    };
                    push_piece(list, body);
                    if shows_from(content, i + 1) {
                        push_piece(list, Piece::Spacer(1));
                    }
                }
            },
            _ => {},
        }
        assert(pieces(list@) =~= pieces(old(list)@) + self.part_pieces(content@, i as int));
    }

    /// The pieces of the block.
    pub fn rebuild(&self) -> (r: Vec<Piece>)
        ensures
            pieces(r@) == self.block(),
    {
        let mut list: Vec<Piece> = Vec::new();
        let message = match &self.message {
            Some(message) => message,
            None => {
                assert(pieces(list@) =~= Seq::empty());
                return list;
            },
        };
        if shows_from(&message.content, 0) {
            push_piece(&mut list, Piece::Spacer(1));
        }
        let ghost above = pieces(list@);
        let mut i: usize = 0;
        assert(above =~= above + self.content_pieces(message.content@, 0));
        while i < message.content.len()
            invariant
                i <= message.content.len(),
                pieces(list@) == above + self.content_pieces(message.content@, i as nat),
            decreases message.content.len() - i,
        {
            self.push_part(&mut list, &message.content, i);
            assert(pieces(list@) =~= above + self.content_pieces(message.content@, (i + 1) as nat));
            i = i + 1;
        }
        if let Some(text) = describe_ending(message) {
            push_piece(&mut list, Piece::Spacer(1));
            push_piece(
                &mut list,
                single_span(fg(ThemeColor::Error, text.as_str()), self.output_pad),
            );
        }
        assert(pieces(list@) =~= self.block());
        list
    }
}

fn shows_from(content: &Vec<MessagePart>, from: usize) -> (r: bool)
    requires
        from <= content.len(),
    ensures
        r == any_shown(content@, from as int),
{
    let mut i: usize = from;
    while i < content.len()
        invariant
            from <= i <= content.len(),
            forall|j: int| from <= j < i ==> !is_shown(#[trigger] content@[j]),
        decreases content.len() - i,
    {
        let shown = match &content[i] {
            MessagePart::Text(text) => !text.as_str().is_empty(),
            MessagePart::Thinking(text) => !text.as_str().is_empty(),
            _ => false,
        };
        assert(shown == is_shown(content@[i as int]));
        if shown {
            return true;
        }
        i = i + 1;
    }
    false
}

fn has_tool_calls(content: &Vec<MessagePart>) -> (r: bool)
    ensures
        r == calls_tools(content@),
{
    let mut i: usize = 0;
    while i < content.len()
        invariant
            i <= content.len(),
            forall|j: int| 0 <= j < i ==> !(#[trigger] content@[j] is ToolCall),
        decreases content.len() - i,
    {
        if let MessagePart::ToolCall = &content[i] {
            assert(content@[i as int] is ToolCall);
            return true;
        }
        i = i + 1;
    }
    false
}

/// How the end of a response is reported.
pub fn describe_ending(message: &AssistantMessage) -> (r: Option<String>)
    ensures
        match r {
            Some(text) => ending_text(*message) == Some(text@),
            None => ending_text(*message) is None,
        },
{
    let calls = has_tool_calls(&message.content);
    match message.stop_reason {
        StopReason::Length => Some(
            "Error: Model stopped because it reached the maximum output token limit. The response may be incomplete.".to_owned(),
        ),
        StopReason::Aborted => {
            if calls {
                return None;
            }
            match &message.error_message {
                Some(text) => {
                    if str_eq(text.as_str(), "Request was aborted") {
                        Some("Operation aborted".to_owned())
                    } else {
                        Some(text.clone())
                    }
                },
                None => Some("Operation aborted".to_owned()),
            }
        },
        StopReason::Error => {
            if calls {
                return None;
            }
            match &message.error_message {
                Some(text) => Some("Error: ".to_owned().concat(text.as_str())),
                None => Some("Error: ".to_owned().concat("Unknown error")),
            }
        },
        _ => None,
    }
}

/// Hiding thinking hides all of it: the block is the same whatever was thought, as long as it is not
/// empty.
pub proof fn hidden_thinking_stays_hidden(
    component: AssistantMessageComponent,
    content: Seq<MessagePart>,
    i: int,
    other: String,
)
    requires
        component.hide_thinking,
        0 <= i < content.len(),
        content[i] matches MessagePart::Thinking(text) && text@.len() > 0,
        other@.len() > 0,
    ensures
        component.part_pieces(content, i) == component.part_pieces(
            content.update(i, MessagePart::Thinking(other)),
            i,
        ),
{
    let changed = content.update(i, MessagePart::Thinking(other));
    assert(any_shown(content, i + 1) == any_shown(changed, i + 1)) by {
        if any_shown(content, i + 1) {
            let j = choose|j: int| i + 1 <= j < content.len() && is_shown(#[trigger] content[j]);
            assert(is_shown(changed[j]));
        }
        if any_shown(changed, i + 1) {
            let j = choose|j: int| i + 1 <= j < changed.len() && is_shown(#[trigger] changed[j]);
            assert(is_shown(content[j]));
        }
    }
}

} // verus!
