//! Styled text: what a component shows, before a theme turns it into terminal
//! escape codes.

use vstd::prelude::*;

verus! {

/// The foreground colors that a theme defines for the components.
#[derive(Debug, Clone, Copy, PartialEq, Eq, Structural)]
pub enum ThemeColor {
    Accent,
    BashMode,
    Border,
    BorderAccent,
    CustomMessageLabel,
    CustomMessageText,
    Dim,
    Error,
    MdLink,
    Muted,
    Success,
    Text,
    ThinkingText,
    ToolDiffAdded,
    ToolDiffContext,
    ToolDiffRemoved,
    ToolOutput,
    ToolTitle,
    UserMessageText,
    Warning,
}

/// The background colors that a theme defines for the components.
#[derive(Debug, Clone, Copy, PartialEq, Eq, Structural)]
pub enum ThemeBg {
    CustomMessageBg,
    SelectedBg,
    ToolErrorBg,
    ToolPendingBg,
    ToolSuccessBg,
    UserMessageBg,
}

/// A stretch of text in one style.
#[derive(Debug, PartialEq, Eq)]
pub struct Span {
    pub text: String,
    /// The color, or none for the surrounding one.
    pub color: Option<ThemeColor>,
    pub bold: bool,
    pub italic: bool,
}

/// The content of a span.
#[verifier::ext_equal]
pub struct SpanView {
    pub text: Seq<char>,
    pub color: Option<ThemeColor>,
    pub bold: bool,
    pub italic: bool,
}

impl View for Span {
    type V = SpanView;

    open spec fn view(&self) -> SpanView {
        SpanView { text: self.text@, color: self.color, bold: self.bold, italic: self.italic }
    }
}

impl Clone for Span {
    fn clone(&self) -> (r: Self)
        ensures
            r == *self,
    {
        Span { text: self.text.clone(), color: self.color, bold: self.bold, italic: self.italic }
    }
}

/// Text in a color.
pub open spec fn colored(color: ThemeColor, text: Seq<char>) -> SpanView {
    SpanView { text, color: Some(color), bold: false, italic: false }
}

/// Text in the surrounding style.
pub open spec fn plain(text: Seq<char>) -> SpanView {
    SpanView { text, color: None, bold: false, italic: false }
}

/// Text in a color and in bold.
pub open spec fn bold_colored(color: ThemeColor, text: Seq<char>) -> SpanView {
    SpanView { text, color: Some(color), bold: true, italic: false }
}

/// Text in bold.
pub open spec fn bolded(text: Seq<char>) -> SpanView {
    SpanView { text, color: None, bold: true, italic: false }
}

/// Text in a color and in italics.
pub open spec fn italic_colored(color: ThemeColor, text: Seq<char>) -> SpanView {
    SpanView { text, color: Some(color), bold: false, italic: true }
}

/// The spans, all of them in bold if `bold`.
pub open spec fn emboldened(line: Seq<SpanView>, bold: bool) -> Seq<SpanView> {
    line.map_values(|s: SpanView| SpanView { bold: s.bold || bold, ..s })
}

/// The contents of a line of spans.
pub open spec fn spans(line: Seq<Span>) -> Seq<SpanView> {
    line.map_values(|s: Span| s@)
}

/// The contents of several lines of spans.
pub open spec fn span_lines(lines: Seq<Vec<Span>>) -> Seq<Seq<SpanView>> {
    lines.map_values(|l: Vec<Span>| spans(l@))
}

/// The text of a line of spans, without its styles.
pub open spec fn text_of(line: Seq<SpanView>) -> Seq<char>
    decreases line.len(),
{
    if line.len() == 0 {
        Seq::empty()
    } else {
        text_of(line.drop_last()) + line.last().text
    }
}

/// Text in a color.
pub fn fg(color: ThemeColor, text: &str) -> (r: Span)
    ensures
        r@ == colored(color, text@),
{
    Span { text: text.to_owned(), color: Some(color), bold: false, italic: false }
}

/// Text in the surrounding style.
pub fn raw(text: &str) -> (r: Span)
    ensures
        r@ == plain(text@),
{
    Span { text: text.to_owned(), color: None, bold: false, italic: false }
}

/// Text in bold.
pub fn bold(text: &str) -> (r: Span)
    ensures
        r@ == bolded(text@),
{
    Span { text: text.to_owned(), color: None, bold: true, italic: false }
}

/// Text in a color and in bold.
pub fn bold_fg(color: ThemeColor, text: &str) -> (r: Span)
    ensures
        r@ == bold_colored(color, text@),
{
    Span { text: text.to_owned(), color: Some(color), bold: true, italic: false }
}

/// Text in a color and in italics.
pub fn italic_fg(color: ThemeColor, text: &str) -> (r: Span)
    ensures
        r@ == italic_colored(color, text@),
{
    Span { text: text.to_owned(), color: Some(color), bold: false, italic: true }
}

/// A text with the columns that it takes.
#[derive(Debug)]
pub struct Measured {
    pub text: String,
    pub width: usize,
}

/// The spans, all of them in bold if `bold`.
pub fn embolden(line: Vec<Span>, bold: bool) -> (r: Vec<Span>)
    ensures
        spans(r@) == emboldened(spans(line@), bold),
{
    let mut r: Vec<Span> = Vec::new();
    let mut i: usize = 0;
    while i < line.len()
        invariant
            i <= line.len(),
            spans(r@) =~= emboldened(spans(line@), bold).take(i as int),
        decreases line.len() - i,
    {
        let mut span = line[i].clone();
        span.bold = span.bold || bold;
        push_span(&mut r, span);
        i = i + 1;
    }
    r
}

/// Appends spans to a line.
pub fn append_spans(line: &mut Vec<Span>, more: Vec<Span>)
    ensures
        spans(final(line)@) == spans(old(line)@) + spans(more@),
{
    let mut more = more;
    let ghost added = more@;
    line.append(&mut more);
    assert(spans(line@) =~= spans(old(line)@) + spans(added));
}

/// Appends a span to a line.
pub fn push_span(line: &mut Vec<Span>, span: Span)
    ensures
        spans(final(line)@) == spans(old(line)@).push(span@),
{
    line.push(span);
    assert(spans(line@) =~= spans(old(line)@).push(span@));
}

/// Appends a line.
pub fn push_line(lines: &mut Vec<Vec<Span>>, line: Vec<Span>)
    ensures
        span_lines(final(lines)@) == span_lines(old(lines)@).push(spans(line@)),
{
    lines.push(line);
    assert(span_lines(lines@) =~= span_lines(old(lines)@).push(spans(line@)));
}

/// Appends an empty line.
pub fn push_blank(lines: &mut Vec<Vec<Span>>)
    ensures
        span_lines(final(lines)@) == span_lines(old(lines)@).push(Seq::empty()),
{
    let line: Vec<Span> = Vec::new();
    assert(spans(line@) =~= Seq::empty());
    push_line(lines, line);
}

/// Appends a line with a single span.
pub fn push_span_line(lines: &mut Vec<Vec<Span>>, span: Span)
    ensures
        span_lines(final(lines)@) == span_lines(old(lines)@).push(seq![span@]),
{
    let mut line: Vec<Span> = Vec::new();
    push_span(&mut line, span);
    assert(spans(line@) =~= seq![span@]);
    push_line(lines, line);
}

/// The text of a line of spans, without its styles.
pub fn plain_text(line: &Vec<Span>) -> (r: String)
    ensures
        r@ == text_of(spans(line@)),
{
    let mut r = String::new();
    let mut i: usize = 0;
    while i < line.len()
        invariant
            i <= line.len(),
            r@ == text_of(spans(line@).take(i as int)),
        decreases line.len() - i,
    {
        vstd::string::StringExecFns::append(&mut r, line[i].text.as_str());
        assert(spans(line@).take(i as int + 1).drop_last() =~= spans(line@).take(i as int));
        i = i + 1;
    }
    assert(spans(line@).take(i as int) =~= spans(line@));
    r
}

/// The line with what has no color in the given one.
pub open spec fn tinted(line: Seq<SpanView>, color: Option<ThemeColor>) -> Seq<SpanView> {
    line.map_values(
        |s: SpanView|
            SpanView {
                color: match s.color {
                    Some(own) => Some(own),
                    None => color,
                },
                ..s
            },
    )
}

/// The line with what has no color in the given one.
pub fn tint_line(line: &Vec<Span>, color: Option<ThemeColor>) -> (r: Vec<Span>)
    ensures
        spans(r@) == tinted(spans(line@), color),
{
    let ghost wanted = tinted(spans(line@), color);
    let mut r: Vec<Span> = Vec::new();
    let mut i: usize = 0;
    while i < line.len()
        invariant
            i <= line.len(),
            wanted == tinted(spans(line@), color),
            spans(r@) =~= wanted.take(i as int),
        decreases line.len() - i,
    {
        let mut span = line[i].clone();
        if span.color.is_none() {
            span.color = color;
        }
        assert(spans(line@)[i as int] == line@[i as int]@);
        assert(span@ == wanted[i as int]);
        push_span(&mut r, span);
        i = i + 1;
    }
    assert(wanted.take(i as int) =~= wanted);
    r
}

} // verus!
