//! Transcript blocks of summaries, skills, custom messages and user messages.

use crate::assistant_message::MessagePart;
use crate::style::{
    bold_colored, bold_fg, colored, fg, push_span, spans, Span, ThemeBg, ThemeColor,
};
use crate::text::{decimal, decimal_str, join, join_strs, push_text, texts};
use crate::transcript::{
    pieces, push_piece, single_span, text_piece, Frame, MarkdownOptions, Piece, PieceView,
};
use vstd::prelude::*;
use vstd::string::*;

verus! {

broadcast use vstd::string::group_string_axioms;

/// The label of a block.
pub open spec fn label_piece(label: Seq<char>) -> PieceView {
    text_piece(bold_colored(ThemeColor::CustomMessageLabel, label), 0)
}

/// A block's text.
pub open spec fn body_text(text: Seq<char>) -> PieceView {
    text_piece(colored(ThemeColor::CustomMessageText, text), 0)
}

/// A block's markdown.
pub open spec fn body_markdown(text: Seq<char>) -> PieceView {
    PieceView::Markdown {
        text,
        padding: 0,
        color: Some(ThemeColor::CustomMessageText),
        italic: false,
        options: None,
    }
}

/// The box around a block: a column and a line on each side, on the background of custom messages.
pub open spec fn message_frame() -> Frame {
    Frame { padding_x: 1, padding_y: 1, background: ThemeBg::CustomMessageBg }
}

fn boxed() -> (r: Frame)
    ensures
        r == message_frame(),
{
    Frame { padding_x: 1, padding_y: 1, background: ThemeBg::CustomMessageBg }
}

fn label(text: &str) -> (r: Piece)
    ensures
        r@ == label_piece(text@),
{
    single_span(bold_fg(ThemeColor::CustomMessageLabel, text), 0)
}

fn text_body(text: &str) -> (r: Piece)
    ensures
        r@ == body_text(text@),
{
    single_span(fg(ThemeColor::CustomMessageText, text), 0)
}

fn markdown_body(text: String) -> (r: Piece)
    ensures
        r@ == body_markdown(text@),
{
    Piece::Markdown {
        text,
        padding: 0,
        color: Some(ThemeColor::CustomMessageText),
        italic: false,
        options: None,
    }
}

/// The block of a branch summary.
#[derive(Debug)]
pub struct BranchSummaryMessageComponent {
    pub summary: String,
    pub expanded: bool,
}

impl BranchSummaryMessageComponent {
    /// The pieces of the block.
    pub open spec fn block(&self) -> Seq<PieceView> {
        seq![
            label_piece("[branch]"@),
            PieceView::Spacer(1),
            if self.expanded {
                body_markdown("**Branch Summary**\n\n"@ + self.summary@)
            } else {
                body_text("Branch summary (expand to expand)"@)
            },
        ]
    }

    /// A collapsed block.
    #[must_use]
    pub fn new(summary: String) -> (r: Self)
        ensures
            r.summary == summary,
            !r.expanded,
    {
        BranchSummaryMessageComponent { summary, expanded: false }
    }

    /// Whether the summary shows.
    pub fn set_expanded(&mut self, expanded: bool)
        ensures
            final(self).expanded == expanded,
            final(self).summary == old(self).summary,
    {
        self.expanded = expanded;
    }

    /// The box around the block.
    pub fn frame(&self) -> (r: Frame)
        ensures
            r == message_frame(),
    {
        boxed()
    }

    /// The pieces of the block.
    pub fn rebuild(&self) -> (r: Vec<Piece>)
        ensures
            pieces(r@) == self.block(),
    {
        let mut list: Vec<Piece> = Vec::new();
        push_piece(&mut list, label("[branch]"));
        push_piece(&mut list, Piece::Spacer(1));
        if self.expanded {
            let text = "**Branch Summary**\n\n".to_owned().concat(self.summary.as_str());
            push_piece(&mut list, markdown_body(text));
        } else {
            push_piece(&mut list, text_body("Branch summary (expand to expand)"));
        }
        assert(pieces(list@) =~= self.block());
        list
    }
}

/// The block of a compaction summary.
#[derive(Debug)]
pub struct CompactionSummaryMessageComponent {
    pub summary: String,
    pub tokens_before: u64,
    pub expanded: bool,
}

impl CompactionSummaryMessageComponent {
    /// The pieces of the block.
    pub open spec fn block(&self) -> Seq<PieceView> {
        let tokens = decimal(self.tokens_before as nat);
        seq![
            label_piece("[compaction]"@),
            PieceView::Spacer(1),
            if self.expanded {
                body_markdown("**Compacted from "@ + tokens + " tokens**\n\n"@ + self.summary@)
            } else {
                body_text("Compacted from "@ + tokens + " tokens (expand to expand)"@)
            },
        ]
    }

    /// A collapsed block.
    #[must_use]
    pub fn new(summary: String, tokens_before: u64) -> (r: Self)
        ensures
            r.summary == summary,
            r.tokens_before == tokens_before,
            !r.expanded,
    {
        CompactionSummaryMessageComponent { summary, tokens_before, expanded: false }
    }

    /// Whether the summary shows.
    pub fn set_expanded(&mut self, expanded: bool)
        ensures
            *final(self) == (CompactionSummaryMessageComponent { expanded, ..*old(self) }),
    {
        self.expanded = expanded;
    }

    /// The box around the block.
    pub fn frame(&self) -> (r: Frame)
        ensures
            r == message_frame(),
    {
        boxed()
    }

    /// The pieces of the block.
    pub fn rebuild(&self) -> (r: Vec<Piece>)
        ensures
            pieces(r@) == self.block(),
    {
        let tokens = decimal_str(self.tokens_before as u128);
        let mut list: Vec<Piece> = Vec::new();
        push_piece(&mut list, label("[compaction]"));
        push_piece(&mut list, Piece::Spacer(1));
        if self.expanded {
            let text = "**Compacted from ".to_owned().concat(tokens.as_str()).concat(
                " tokens**\n\n",
            ).concat(self.summary.as_str());
            push_piece(&mut list, markdown_body(text));
        } else {
            let text = "Compacted from ".to_owned().concat(tokens.as_str()).concat(
                " tokens (expand to expand)",
            );
            push_piece(&mut list, text_body(text.as_str()));
        }
        assert(pieces(list@) =~= self.block());
        list
    }
}

/// The block of a skill.
#[derive(Debug)]
pub struct SkillInvocationMessageComponent {
    pub name: String,
    pub content: String,
    pub expanded: bool,
}

impl SkillInvocationMessageComponent {
    /// The pieces of the block.
    pub open spec fn block(&self) -> Seq<PieceView> {
        if self.expanded {
            seq![
                label_piece("[skill]"@),
                body_markdown("**"@ + self.name@ + "**\n\n"@ + self.content@),
            ]
        } else {
            seq![
                PieceView::Text {
                    spans: seq![
                        bold_colored(ThemeColor::CustomMessageLabel, "[skill]"@),
                        colored(ThemeColor::CustomMessageLabel, " "@),
                        colored(ThemeColor::CustomMessageText, self.name@),
                        colored(ThemeColor::Dim, " (expand to expand)"@),
                    ],
                    padding: 0,
                },
            ]
        }
    }

    /// A collapsed block.
    #[must_use]
    pub fn new(name: String, content: String) -> (r: Self)
        ensures
            r.name == name,
            r.content == content,
            !r.expanded,
    {
        SkillInvocationMessageComponent { name, content, expanded: false }
    }

    /// Whether the skill's content shows.
    pub fn set_expanded(&mut self, expanded: bool)
        ensures
            *final(self) == (SkillInvocationMessageComponent { expanded, ..*old(self) }),
    {
        self.expanded = expanded;
    }

    /// The box around the block.
    pub fn frame(&self) -> (r: Frame)
        ensures
            r == message_frame(),
    {
        boxed()
    }

    /// The pieces of the block.
    pub fn rebuild(&self) -> (r: Vec<Piece>)
        ensures
            pieces(r@) == self.block(),
    {
        let mut list: Vec<Piece> = Vec::new();
        if self.expanded {
            push_piece(&mut list, label("[skill]"));
            let text = "**".to_owned().concat(self.name.as_str()).concat("**\n\n").concat(
                self.content.as_str(),
            );
            push_piece(&mut list, markdown_body(text));
        } else {
            let mut line: Vec<Span> = Vec::new();
            push_span(&mut line, bold_fg(ThemeColor::CustomMessageLabel, "[skill]"));
            push_span(&mut line, fg(ThemeColor::CustomMessageLabel, " "));
            push_span(&mut line, fg(ThemeColor::CustomMessageText, self.name.as_str()));
            push_span(&mut line, fg(ThemeColor::Dim, " (expand to expand)"));
            assert(spans(line@) =~= seq![
                bold_colored(ThemeColor::CustomMessageLabel, "[skill]"@),
                colored(ThemeColor::CustomMessageLabel, " "@),
                colored(ThemeColor::CustomMessageText, self.name@),
                colored(ThemeColor::Dim, " (expand to expand)"@),
            ]);
            push_piece(&mut list, Piece::Text { spans: line, padding: 0 });
        }
        assert(pieces(list@) =~= self.block());
        list
    }
}

/// The texts among parts.
pub open spec fn part_texts(parts: Seq<MessagePart>) -> Seq<Seq<char>>
    decreases parts.len(),
{
    if parts.len() == 0 {
        Seq::empty()
    } else {
        match parts.last() {
            MessagePart::Text(text) => part_texts(parts.drop_last()).push(text@),
            _ => part_texts(parts.drop_last()),
        }
    }
}

/// The block of a custom message.
#[derive(Debug)]
pub struct CustomMessageComponent {
    pub custom_type: String,
    pub content: Vec<MessagePart>,
    pub expanded: bool,
}

impl CustomMessageComponent {
    /// The pieces of the block.
    pub open spec fn block(&self) -> Seq<PieceView> {
        seq![
            label_piece("["@ + self.custom_type@ + "]"@),
            PieceView::Spacer(1),
            body_markdown(join(part_texts(self.content@), "\n"@)),
        ]
    }

    /// A collapsed block.
    #[must_use]
    pub fn new(custom_type: String, content: Vec<MessagePart>) -> (r: Self)
        ensures
            r.custom_type == custom_type,
            r.content == content,
            !r.expanded,
    {
        CustomMessageComponent { custom_type, content, expanded: false }
    }

    /// A collapsed block of one text.
    #[must_use]
    pub fn from_text(custom_type: String, text: String) -> (r: Self)
        ensures
            r.custom_type == custom_type,
            r.content@ == seq![MessagePart::Text(text)],
            !r.expanded,
    {
        let mut content: Vec<MessagePart> = Vec::new();
        content.push(MessagePart::Text(text));
        assert(content@ =~= seq![MessagePart::Text(text)]);
        Self::new(custom_type, content)
    }

    /// Whether the block is expanded.
    pub fn set_expanded(&mut self, expanded: bool)
        ensures
            *final(self) == (CustomMessageComponent { expanded, ..*old(self) }),
    {
        self.expanded = expanded;
    }

    /// The box around the block.
    pub fn frame(&self) -> (r: Frame)
        ensures
            r == message_frame(),
    {
        boxed()
    }

    /// The pieces of the block.
    pub fn rebuild(&self) -> (r: Vec<Piece>)
        ensures
            pieces(r@) == self.block(),
    {
        let mut found: Vec<String> = Vec::new();
        let mut i: usize = 0;
        assert(texts(found@) =~= part_texts(self.content@.take(0)));
        while i < self.content.len()
            invariant
                i <= self.content.len(),
                texts(found@) == part_texts(self.content@.take(i as int)),
            decreases self.content.len() - i,
        {
            proof {
                assert(self.content@.take(i + 1).drop_last() =~= self.content@.take(i as int));
                assert(self.content@.take(i + 1).last() == self.content@[i as int]);
            }
            if let MessagePart::Text(text) = &self.content[i] {
                push_text(&mut found, text.clone());
            }
            i = i + 1;
        }
        assert(self.content@.take(i as int) =~= self.content@);
        let mut list: Vec<Piece> = Vec::new();
        let title = "[".to_owned().concat(self.custom_type.as_str()).concat("]");
        push_piece(&mut list, label(title.as_str()));
        push_piece(&mut list, Piece::Spacer(1));
        push_piece(&mut list, markdown_body(join_strs(&found, "\n")));
        assert(pieces(list@) =~= self.block());
        list
    }
}

/// What an extension's renderer made of an entry.
#[derive(Debug)]
pub enum RenderedEntry {
    /// There is no renderer.
    NoRenderer,
    /// The renderer shows nothing.
    Nothing,
    /// The renderer shows a component of its own.
    Component,
    Failed(String),
}

/// What a custom entry shows.
#[derive(Debug)]
pub enum EntryBody {
    Nothing,
    /// The component of the renderer.
    Component,
    /// A piece of text.
    Text(Span),
}

/// The entry of an extension.
#[derive(Debug)]
pub struct CustomEntryComponent {
    pub custom_type: String,
    pub body: String,
    pub expanded: bool,
}

impl CustomEntryComponent {
    /// A collapsed entry.
    #[must_use]
    pub fn new(custom_type: String, body: String) -> (r: Self)
        ensures
            r.custom_type == custom_type,
            r.body == body,
            !r.expanded,
    {
        CustomEntryComponent { custom_type, body, expanded: false }
    }

    /// Whether the entry is expanded.
    pub fn set_expanded(&mut self, expanded: bool)
        ensures
            *final(self) == (CustomEntryComponent { expanded, ..*old(self) }),
    {
        self.expanded = expanded;
    }

    /// What the entry shows: what its renderer made of it, that the renderer failed, or, without a
    /// renderer, its text if there is any.
    pub fn rebuild(&self, rendered: &RenderedEntry) -> (r: EntryBody)
        ensures
            match rendered {
                RenderedEntry::Nothing => r is Nothing,
                RenderedEntry::Component => r is Component,
                RenderedEntry::Failed(message) => r matches EntryBody::Text(span) && span@
                    == colored(
                    ThemeColor::Error,
                    "["@ + self.custom_type@ + "] renderer failed: "@ + message@,
                ),
                RenderedEntry::NoRenderer => if self.body@.len() == 0 {
                    r is Nothing
                } else {
                    r matches EntryBody::Text(span) && span@ == colored(
                        ThemeColor::CustomMessageText,
                        "["@ + self.custom_type@ + "] "@ + self.body@,
                    )
                },
            },
    {
        match rendered {
            RenderedEntry::Nothing => EntryBody::Nothing,
            RenderedEntry::Component => EntryBody::Component,
            RenderedEntry::Failed(message) => {
                let text = "[".to_owned().concat(self.custom_type.as_str()).concat(
                    "] renderer failed: ",
                ).concat(message.as_str());
                EntryBody::Text(fg(ThemeColor::Error, text.as_str()))
            },
            RenderedEntry::NoRenderer => {
                if self.body.as_str().is_empty() {
                    EntryBody::Nothing
                } else {
                    let text = "[".to_owned().concat(self.custom_type.as_str()).concat("] ").concat(
                        self.body.as_str(),
                    );
                    EntryBody::Text(fg(ThemeColor::CustomMessageText, text.as_str()))
                }
            },
        }
    }

    /// Whether the entry shows anything.
    #[must_use]
    pub fn has_content(body: &EntryBody) -> (r: bool)
        ensures
            r == !(body is Nothing),
    {
        match body {
            EntryBody::Nothing => false,
            _ => true,
        }
    }

    /// The empty lines above the entry.
    #[must_use]
    pub fn lines_before(body: &EntryBody) -> (r: usize)
        ensures
            r == if body is Nothing {
                0int
            } else {
                1
            },
    {
        if Self::has_content(body) {
            1
        } else {
            0
        }
    }

    /// The box around the entry's text; a renderer's component has none.
    #[must_use]
    pub fn frame(body: &EntryBody) -> (r: Option<Frame>)
        ensures
            r == if body is Text {
                Some(message_frame())
            } else {
                None
            },
    {
        match body {
            EntryBody::Text(_) => Some(boxed()),
            _ => None,
        }
    }
}

/// The block of a user message.
#[derive(Debug)]
pub struct UserMessageComponent {
    pub text: String,
    pub output_pad: usize,
}

impl UserMessageComponent {
    /// A block with a padding of one column.
    #[must_use]
    pub fn new(text: String) -> (r: Self)
        ensures
            r.text == text,
            r.output_pad == 1,
    {
        UserMessageComponent { text, output_pad: 1 }
    }

    /// The empty columns at the sides.
    pub fn set_output_pad(&mut self, padding: usize)
        ensures
            *final(self) == (UserMessageComponent { output_pad: padding, ..*old(self) }),
    {
        self.output_pad = padding;
    }

    /// The text.
    pub fn text(&self) -> (r: &str)
        ensures
            r@ == self.text@,
    {
        self.text.as_str()
    }

    /// The box around the block, on the background of user messages.
    pub fn frame(&self) -> (r: Frame)
        ensures
            r == (Frame {
                padding_x: self.output_pad,
                padding_y: 1,
                background: ThemeBg::UserMessageBg,
            }),
    {
        Frame { padding_x: self.output_pad, padding_y: 1, background: ThemeBg::UserMessageBg }
    }

    /// The piece of the block: the text as markdown, with list numbers and backslashes as they were
    /// written.
    pub fn rebuild(&self) -> (r: Piece)
        ensures
            r@ == (PieceView::Markdown {
                text: self.text@,
                padding: 0,
                color: Some(ThemeColor::UserMessageText),
                italic: false,
                options: Some(
                    MarkdownOptions {
                        preserve_ordered_list_markers: true,
                        preserve_backslash_escapes: true,
                    },
                ),
            }),
    {
        Piece::Markdown {
            text: self.text.clone(),
            padding: 0,
            color: Some(ThemeColor::UserMessageText),
            italic: false,
            options: Some(
                MarkdownOptions {
                    preserve_ordered_list_markers: true,
                    preserve_backslash_escapes: true,
                },
            ),
        }
    }
}

} // verus!
