//! The pieces that transcript blocks and dialogs are made of.

use crate::style::{plain, span_lines, spans, Span, SpanView, ThemeBg, ThemeColor};
use vstd::prelude::*;

verus! {

broadcast use vstd::string::group_string_axioms;

/// How markdown that a user wrote is kept.
#[derive(Debug, Clone, Copy, PartialEq, Eq, Structural)]
pub struct MarkdownOptions {
    /// The numbers of a list show as they were written.
    pub preserve_ordered_list_markers: bool,
    /// A backslash before a mark shows.
    pub preserve_backslash_escapes: bool,
}

/// The box around a block: empty columns at both sides and empty lines above and below, all on the
/// background.
#[derive(Debug, Clone, Copy, PartialEq, Eq, Structural)]
pub struct Frame {
    pub padding_x: usize,
    pub padding_y: usize,
    pub background: ThemeBg,
}

/// A piece of a transcript block or a dialog.
#[derive(Debug)]
pub enum Piece {
    /// Empty lines.
    Spacer(usize),
    /// A line across the whole width.
    Border(ThemeColor),
    /// A line of text that is not wrapped.
    Line(Vec<Span>),
    /// A line of text that is not wrapped, with its background and what marks a cut.
    Row { spans: Vec<Span>, background: Option<ThemeBg>, ellipsis: String },
    /// A line whose body is shown from a column on, behind a gutter that stays.
    Scrolled {
        gutter: Vec<Span>,
        body: Vec<Span>,
        background: Option<ThemeBg>,
        start: usize,
        columns: usize,
    },
    /// The input of the component.
    Input,
    /// The list of the component.
    List,
    /// Text that is wrapped to the width, with empty columns at its sides.
    Text { spans: Vec<Span>, padding: usize },
    /// Markdown that is wrapped to the width, in a color of its own or the default one.
    Markdown {
        text: String,
        padding: usize,
        color: Option<ThemeColor>,
        italic: bool,
        options: Option<MarkdownOptions>,
    },
    /// A message with a spinner, each in its color.
    Loader { message: String, spinner: ThemeColor, message_color: ThemeColor },
    /// The image at an index of the content.
    Image { index: usize, max_width_cells: u32 },
}

/// The content of a piece.
#[verifier::ext_equal]
pub enum PieceView {
    Spacer(nat),
    Border(ThemeColor),
    Line(Seq<SpanView>),
    Row { spans: Seq<SpanView>, background: Option<ThemeBg>, ellipsis: Seq<char> },
    Scrolled {
        gutter: Seq<SpanView>,
        body: Seq<SpanView>,
        background: Option<ThemeBg>,
        start: nat,
        columns: nat,
    },
    Input,
    List,
    Text { spans: Seq<SpanView>, padding: nat },
    Markdown {
        text: Seq<char>,
        padding: nat,
        color: Option<ThemeColor>,
        italic: bool,
        options: Option<MarkdownOptions>,
    },
    Loader { message: Seq<char>, spinner: ThemeColor, message_color: ThemeColor },
    Image { index: nat, max_width_cells: u32 },
}

impl View for Piece {
    type V = PieceView;

    open spec fn view(&self) -> PieceView {
        match self {
            Piece::Spacer(n) => PieceView::Spacer(*n as nat),
            Piece::Border(color) => PieceView::Border(*color),
            Piece::Line(line) => PieceView::Line(spans(line@)),
            Piece::Row { spans: line, background, ellipsis } => PieceView::Row {
                spans: spans(line@),
                background: *background,
                ellipsis: ellipsis@,
            },
            Piece::Scrolled { gutter, body, background, start, columns } => PieceView::Scrolled {
                gutter: spans(gutter@),
                body: spans(body@),
                background: *background,
                start: *start as nat,
                columns: *columns as nat,
            },
            Piece::Input => PieceView::Input,
            Piece::List => PieceView::List,
            Piece::Text { spans: line, padding } => PieceView::Text {
                spans: spans(line@),
                padding: *padding as nat,
            },
            Piece::Markdown { text, padding, color, italic, options } => PieceView::Markdown {
                text: text@,
                padding: *padding as nat,
                color: *color,
                italic: *italic,
                options: *options,
            },
            Piece::Loader { message, spinner, message_color } => PieceView::Loader {
                message: message@,
                spinner: *spinner,
                message_color: *message_color,
            },
            Piece::Image { index, max_width_cells } => PieceView::Image {
                index: *index as nat,
                max_width_cells: *max_width_cells,
            },
        }
    }
}

/// The contents of pieces.
pub open spec fn pieces(list: Seq<Piece>) -> Seq<PieceView> {
    list.map_values(|p: Piece| p@)
}

/// Appends a piece.
pub fn push_piece(list: &mut Vec<Piece>, piece: Piece)
    ensures
        pieces(final(list)@) == pieces(old(list)@).push(piece@),
{
    list.push(piece);
    assert(pieces(list@) =~= pieces(old(list)@).push(piece@));
}

/// A piece of text in one style.
pub open spec fn text_piece(span: SpanView, padding: nat) -> PieceView {
    PieceView::Text { spans: seq![span], padding }
}

/// A piece of text in one style.
pub fn single_span(span: Span, padding: usize) -> (r: Piece)
    ensures
        r@ == text_piece(span@, padding as nat),
{
    let mut line: Vec<Span> = Vec::new();
    crate::style::push_span(&mut line, span);
    assert(spans(line@) =~= seq![span@]);
    Piece::Text { spans: line, padding }
}

/// Whether there is nothing in the line, not even a style.
pub open spec fn is_empty_line(line: Seq<SpanView>) -> bool {
    line.len() == 0 || (line.len() == 1 && line[0] == plain(Seq::empty()))
}

/// A line as a piece of text; an empty one is an empty line.
pub open spec fn line_text(line: Seq<SpanView>, padding: nat) -> PieceView {
    if is_empty_line(line) {
        PieceView::Spacer(1)
    } else {
        PieceView::Text { spans: line, padding }
    }
}

/// Each of the lines as a piece of text.
pub open spec fn text_pieces(lines: Seq<Seq<SpanView>>, padding: nat) -> Seq<PieceView> {
    lines.map_values(|line: Seq<SpanView>| line_text(line, padding))
}

/// Each of the lines as a line.
pub open spec fn line_pieces(lines: Seq<Seq<SpanView>>) -> Seq<PieceView> {
    lines.map_values(|line: Seq<SpanView>| PieceView::Line(line))
}

/// A copy of a line.
pub fn copy_line(line: &Vec<Span>) -> (r: Vec<Span>)
    ensures
        spans(r@) == spans(line@),
{
    let mut r: Vec<Span> = Vec::new();
    let mut i: usize = 0;
    while i < line.len()
        invariant
            i <= line.len(),
            spans(r@) =~= spans(line@).take(i as int),
        decreases line.len() - i,
    {
        crate::style::push_span(&mut r, line[i].clone());
        i = i + 1;
    }
    r
}

/// A line as a piece of text; an empty one is an empty line.
fn text_of_line(line: &Vec<Span>, padding: usize) -> (r: Piece)
    ensures
        r@ == line_text(spans(line@), padding as nat),
{
    let empty = if line.len() == 0 {
        true
    } else if line.len() == 1 {
        let span = &line[0];
        assert(spans(line@)[0] == span@);
        let empty = span.text.as_str().is_empty() && span.color.is_none() && !span.bold
            && !span.italic;
        assert(empty ==> span.text@ =~= Seq::empty());
        empty
    } else {
        false
    };
    assert(empty == is_empty_line(spans(line@)));
    if empty {
        Piece::Spacer(1)
    } else {
        Piece::Text { spans: copy_line(line), padding }
    }
}

/// Appends each of the lines as a piece of text.
pub fn push_texts(list: &mut Vec<Piece>, lines: &Vec<Vec<Span>>, padding: usize)
    ensures
        pieces(final(list)@) == pieces(old(list)@) + text_pieces(
            span_lines(lines@),
            padding as nat,
        ),
{
    let ghost wanted = text_pieces(span_lines(lines@), padding as nat);
    let mut i: usize = 0;
    while i < lines.len()
        invariant
            i <= lines.len(),
            wanted == text_pieces(span_lines(lines@), padding as nat),
            pieces(list@) =~= pieces(old(list)@) + wanted.take(i as int),
        decreases lines.len() - i,
    {
        assert(span_lines(lines@)[i as int] == spans(lines@[i as int]@));
        push_piece(list, text_of_line(&lines[i], padding));
        i = i + 1;
    }
    assert(wanted.take(i as int) =~= wanted);
}

/// Appends each of the lines.
pub fn push_lines(list: &mut Vec<Piece>, lines: &Vec<Vec<Span>>)
    ensures
        pieces(final(list)@) == pieces(old(list)@) + line_pieces(span_lines(lines@)),
{
    let ghost wanted = line_pieces(span_lines(lines@));
    let mut i: usize = 0;
    while i < lines.len()
        invariant
            i <= lines.len(),
            wanted == line_pieces(span_lines(lines@)),
            pieces(list@) =~= pieces(old(list)@) + wanted.take(i as int),
        decreases lines.len() - i,
    {
        assert(span_lines(lines@)[i as int] == spans(lines@[i as int]@));
        push_piece(list, Piece::Line(copy_line(&lines[i])));
        i = i + 1;
    }
    assert(wanted.take(i as int) =~= wanted);
}

/// A line with a single span.
pub fn single_line(span: Span) -> (r: Piece)
    ensures
        r@ == PieceView::Line(seq![span@]),
{
    let mut line: Vec<Span> = Vec::new();
    crate::style::push_span(&mut line, span);
    assert(spans(line@) =~= seq![span@]);
    Piece::Line(line)
}

/// Appends pieces.
pub fn push_pieces(list: &mut Vec<Piece>, more: Vec<Piece>)
    ensures
        pieces(final(list)@) == pieces(old(list)@) + pieces(more@),
{
    let mut rest = more;
    list.append(&mut rest);
    assert(pieces(list@) =~= pieces(old(list)@) + pieces(more@));
}

/// A line that is cut to the width without a mark.
pub open spec fn cut_line(line: Seq<SpanView>) -> PieceView {
    PieceView::Row { spans: line, background: None, ellipsis: Seq::empty() }
}

/// A line with a single span that is cut to the width without a mark.
pub fn plain_row(span: Span) -> (r: Piece)
    ensures
        r@ == cut_line(seq![span@]),
{
    let mut line: Vec<Span> = Vec::new();
    crate::style::push_span(&mut line, span);
    assert(spans(line@) =~= seq![span@]);
    cut_row(line)
}

/// A line that is cut to the width without a mark.
pub fn cut_row(line: Vec<Span>) -> (r: Piece)
    ensures
        r@ == cut_line(spans(line@)),
{
    let ellipsis = String::new();
    assert(ellipsis@ =~= Seq::empty());
    Piece::Row { spans: line, background: None, ellipsis }
}

} // verus!
