//! Fitting texts and lines into a number of columns.
//!
//! How wide a text is, and where it can be cut, depends on the terminal. Both are measured outside
//! and handed in; what is shown follows from them here.

use crate::style::{push_span, spans, Measured, Span, SpanView};
use crate::text::{chars_of, string_of};
use vstd::prelude::*;
use vstd::slice::slice_subrange;
use vstd::string::*;

verus! {

broadcast use vstd::string::group_string_axioms;

/// A line with the columns that it takes.
#[derive(Debug)]
pub struct MeasuredLine {
    pub spans: Vec<Span>,
    pub width: usize,
}

/// How wide a text is, and the text cut to the columns that are left beside an ellipsis.
#[derive(Debug)]
pub struct TextCut {
    pub width: usize,
    pub cut: Measured,
}

/// How wide a line is, and the line cut to the columns that are left beside an ellipsis.
#[derive(Debug)]
pub struct LineCut {
    pub width: usize,
    pub cut: MeasuredLine,
}

/// How a text is fitted into a number of columns.
#[derive(Debug, Clone, Copy, PartialEq, Eq, Structural)]
pub enum Fit {
    /// Nothing is shown.
    Empty,
    /// The text is shown whole.
    Whole,
    /// Only the ellipsis is shown, cut to the columns.
    CutEllipsis,
    /// The text is cut to this many columns and the ellipsis follows.
    Cut(usize),
}

/// How a text of `text_width` columns is fitted into `max_width` columns when a cut is marked by an
/// ellipsis of `ellipsis_width` columns.
pub open spec fn fit(text_width: int, max_width: int, ellipsis_width: int) -> Fit {
    if max_width == 0 {
        Fit::Empty
    } else if text_width <= max_width {
        Fit::Whole
    } else if ellipsis_width >= max_width {
        Fit::CutEllipsis
    } else {
        Fit::Cut((max_width - ellipsis_width) as usize)
    }
}

/// How a text of `text_width` columns is fitted into `max_width` columns when a cut is marked by an
/// ellipsis of `ellipsis_width` columns.
pub fn fit_with_ellipsis(text_width: usize, max_width: usize, ellipsis_width: usize) -> (r: Fit)
    ensures
        r == fit(text_width as int, max_width as int, ellipsis_width as int),
{
    if max_width == 0 {
        Fit::Empty
    } else if text_width <= max_width {
        Fit::Whole
    } else if ellipsis_width >= max_width {
        Fit::CutEllipsis
    } else {
        Fit::Cut(max_width - ellipsis_width)
    }
}

/// Whether a text, where it has to be cut, was cut to the columns left for it.
pub open spec fn is_cut(
    text_width: int,
    cut_width: int,
    max_width: int,
    ellipsis_width: int,
) -> bool {
    match fit(text_width, max_width, ellipsis_width) {
        Fit::Cut(columns) => cut_width <= columns,
        _ => true,
    }
}

/// The columns that a fitted text takes.
pub open spec fn fitted_width(
    text_width: int,
    cut_width: int,
    max_width: int,
    ellipsis_width: int,
) -> int {
    match fit(text_width, max_width, ellipsis_width) {
        Fit::Empty => 0,
        Fit::Whole => text_width,
        Fit::CutEllipsis => max_width,
        Fit::Cut(_) => cut_width + ellipsis_width,
    }
}

/// The text as it is shown in `max_width` columns. Each character of the ellipsis takes one column.
pub open spec fn fitted_text(
    text: Seq<char>,
    text_width: int,
    cut: Seq<char>,
    max_width: int,
    ellipsis: Seq<char>,
) -> Seq<char> {
    match fit(text_width, max_width, ellipsis.len() as int) {
        Fit::Empty => Seq::empty(),
        Fit::Whole => text,
        Fit::CutEllipsis => ellipsis.take(max_width),
        Fit::Cut(_) => cut + ellipsis,
    }
}

/// The line as it is shown in `max_width` columns. Each character of the ellipsis takes one column.
pub open spec fn fitted_line(
    line: Seq<SpanView>,
    line_width: int,
    cut: Seq<SpanView>,
    max_width: int,
    ellipsis: SpanView,
) -> Seq<SpanView> {
    match fit(line_width, max_width, ellipsis.text.len() as int) {
        Fit::Empty => Seq::empty(),
        Fit::Whole => line,
        Fit::CutEllipsis => seq![SpanView { text: ellipsis.text.take(max_width), ..ellipsis }],
        Fit::Cut(_) => cut.push(ellipsis),
    }
}

fn take_chars(text: &str, count: usize) -> (r: String)
    requires
        count <= text@.len(),
    ensures
        r@ == text@.take(count as int),
{
    let chars = chars_of(text);
    let kept = slice_subrange(chars.as_slice(), 0, count);
    assert(kept@ =~= text@.take(count as int));
    string_of(kept)
}

/// The text as it is shown in `max_width` columns, and the columns that it takes.
pub fn fit_text(text: &str, cut: &TextCut, max_width: usize, ellipsis: &str) -> (r: Measured)
    requires
        is_cut(cut.width as int, cut.cut.width as int, max_width as int, ellipsis@.len() as int),
    ensures
        r.text@ == fitted_text(
            text@,
            cut.width as int,
            cut.cut.text@,
            max_width as int,
            ellipsis@,
        ),
        r.width == fitted_width(
            cut.width as int,
            cut.cut.width as int,
            max_width as int,
            ellipsis@.len() as int,
        ),
        r.width <= max_width,
{
    let mark = chars_of(ellipsis).len();
    match fit_with_ellipsis(cut.width, max_width, mark) {
        Fit::Empty => {
            let empty = String::new();
            assert(empty@ =~= Seq::empty());
            Measured { text: empty, width: 0 }
        },
        Fit::Whole => Measured { text: text.to_owned(), width: cut.width },
        Fit::CutEllipsis => Measured {
            text: take_chars(ellipsis, max_width),
            width: max_width,
        },
        Fit::Cut(_) => {
            let shown = cut.cut.text.clone().concat(ellipsis);
            Measured { text: shown, width: cut.cut.width + mark }
        },
    }
}

/// The line as it is shown in `max_width` columns, and the columns that it takes.
pub fn fit_line(line: Vec<Span>, cut: LineCut, max_width: usize, ellipsis: Span) -> (r: MeasuredLine)
    requires
        is_cut(
            cut.width as int,
            cut.cut.width as int,
            max_width as int,
            ellipsis@.text.len() as int,
        ),
    ensures
        spans(r.spans@) == fitted_line(
            spans(line@),
            cut.width as int,
            spans(cut.cut.spans@),
            max_width as int,
            ellipsis@,
        ),
        r.width == fitted_width(
            cut.width as int,
            cut.cut.width as int,
            max_width as int,
            ellipsis@.text.len() as int,
        ),
        r.width <= max_width,
{
    let mark = chars_of(ellipsis.text.as_str()).len();
    match fit_with_ellipsis(cut.width, max_width, mark) {
        Fit::Empty => {
            let empty: Vec<Span> = Vec::new();
            assert(spans(empty@) =~= Seq::empty());
            MeasuredLine { spans: empty, width: 0 }
        },
        Fit::Whole => MeasuredLine { spans: line, width: cut.width },
        Fit::CutEllipsis => {
            let mut shown: Vec<Span> = Vec::new();
            let text = take_chars(ellipsis.text.as_str(), max_width);
            let ghost whole = ellipsis@;
            let span = Span {
                text,
                color: ellipsis.color,
                bold: ellipsis.bold,
                italic: ellipsis.italic,
            };
            push_span(&mut shown, span);
            assert(spans(shown@) =~= seq![
                SpanView { text: whole.text.take(max_width as int), ..whole },
            ]);
            MeasuredLine { spans: shown, width: max_width }
        },
        Fit::Cut(_) => {
            let mut shown = cut.cut.spans;
            push_span(&mut shown, ellipsis);
            MeasuredLine { spans: shown, width: cut.cut.width + mark }
        },
    }
}

} // verus!
