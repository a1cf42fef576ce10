//! Colorized unified-diff renderer.

use crate::bash_execution::split_pieces_join;
use crate::lines::lemma_split_pieces;
use crate::style::{colored, fg, push_span, spans, Span, SpanView, ThemeColor};
use crate::text::{
    char_texts, chars_of, index_of_char, is_white, is_whitespace, join, lemma_index_of_char_bounds,
    split, split_chars, string_of,
};
use vstd::prelude::*;

verus! {

broadcast use vstd::string::group_string_axioms;

/// The lines of a diff, which newlines separate. After a final newline no line follows.
pub open spec fn diff_lines(text: Seq<char>) -> Seq<Seq<char>> {
    let pieces = split(text, '\n');
    if pieces.last().len() == 0 {
        pieces.drop_last()
    } else {
        pieces
    }
}

/// Whether the line has a number after its mark: something that whitespace ends.
pub open spec fn is_numbered(line: Seq<char>) -> bool {
    exists|i: int| 1 <= i < line.len() && is_whitespace(#[trigger] line[i])
}

/// The color of a line: that of its mark where a number follows it, otherwise that of context.
pub open spec fn diff_color(line: Seq<char>) -> ThemeColor {
    if is_numbered(line) && line[0] == '+' {
        ThemeColor::ToolDiffAdded
    } else if is_numbered(line) && line[0] == '-' {
        ThemeColor::ToolDiffRemoved
    } else {
        ThemeColor::ToolDiffContext
    }
}

/// The lines of a diff as they are shown: each as it is, in its color.
pub open spec fn shown_diff(diff_text: Seq<char>) -> Seq<SpanView> {
    diff_lines(diff_text).map_values(|line: Seq<char>| colored(diff_color(line), line))
}

fn check_numbered(line: &Vec<char>) -> (r: bool)
    ensures
        r == is_numbered(line@),
{
    let mut i: usize = 1;
    while i < line.len()
        invariant
            1 <= i,
            forall|j: int| 1 <= j < i && j < line@.len() ==> !is_whitespace(#[trigger] line@[j]),
        decreases line.len() - i,
    {
        if is_white(line[i]) {
            return true;
        }
        i = i + 1;
    }
    false
}

fn render_line(line: &Vec<char>) -> (r: Span)
    ensures
        r@ == colored(diff_color(line@), line@),
{
    let text = string_of(line.as_slice());
    let color = if !check_numbered(line) {
        ThemeColor::ToolDiffContext
    } else if line[0] == '+' {
        ThemeColor::ToolDiffAdded
    } else if line[0] == '-' {
        ThemeColor::ToolDiffRemoved
    } else {
        ThemeColor::ToolDiffContext
    };
    fg(color, text.as_str())
}

/// The lines of a diff, colored by their marks.
pub fn render_diff(diff_text: &str) -> (r: Vec<Span>)
    ensures
        spans(r@) == shown_diff(diff_text@),
{
    let chars = chars_of(diff_text);
    let all = split_chars(chars.as_slice(), '\n');
    let ghost pieces = char_texts(all@);
    let ghost wanted = shown_diff(diff_text@);
    proof {
        lemma_split_pieces(diff_text@, '\n');
    }
    assert(pieces.len() == all@.len());
    assert(pieces.last() == all@[all@.len() - 1]@);
    let last: usize = all.len() - 1;
    let count: usize = if all[last].len() == 0 {
        last
    } else {
        all.len()
    };
    let mut r: Vec<Span> = Vec::new();
    let mut i: usize = 0;
    while i < count
        invariant
            i <= count <= all.len(),
            pieces == char_texts(all@),
            diff_lines(diff_text@).len() == count,
            forall|j: int| 0 <= j < count ==> diff_lines(diff_text@)[j] == #[trigger] pieces[j],
            wanted == shown_diff(diff_text@),
            spans(r@) =~= wanted.take(i as int),
        decreases count - i,
    {
        assert(pieces[i as int] == all@[i as int]@);
        push_span(&mut r, render_line(&all[i]));
        i = i + 1;
    }
    assert(spans(r@) =~= wanted);
    r
}

proof fn lemma_join_ends_empty(pieces: Seq<Seq<char>>, sep: Seq<char>)
    requires
        pieces.len() > 1,
        pieces.last().len() == 0,
    ensures
        join(pieces, sep) == join(pieces.drop_last(), sep) + sep,
{
    assert(join(pieces, sep) =~= join(pieces.drop_last(), sep) + sep);
}

/// Nothing stands after a separator that ends the text.
proof fn lemma_last_piece(s: Seq<char>, c: char)
    requires
        s.len() > 0,
        s.last() == c,
    ensures
        split(s, c).len() > 1,
        split(s, c).last().len() == 0,
    decreases s.len(),
{
    lemma_index_of_char_bounds(s, c);
    let n = index_of_char(s, c) as int;
    assert(n < s.len());
    let rest = s.skip(n + 1);
    lemma_split_pieces(rest, c);
    if rest.len() > 0 {
        assert(rest.last() == s.last());
        lemma_last_piece(rest, c);
    } else {
        lemma_index_of_char_bounds(rest, c);
    }
}

/// Coloring keeps the text: without their colors the lines, joined by newlines, are the diff, but for
/// a newline at its end.
pub proof fn coloring_keeps_the_text(diff_text: Seq<char>)
    ensures
        ({
            let shown = shown_diff(diff_text).map_values(|span: SpanView| span.text);
            if diff_text.len() > 0 && diff_text.last() == '\n' {
                join(shown, seq!['\n']) + seq!['\n'] == diff_text
            } else {
                join(shown, seq!['\n']) == diff_text
            }
        }),
{
    let pieces = split(diff_text, '\n');
    let shown = shown_diff(diff_text).map_values(|span: SpanView| span.text);
    assert(shown =~= diff_lines(diff_text));
    lemma_split_pieces(diff_text, '\n');
    split_pieces_join(diff_text, '\n');
    if diff_text.len() > 0 && diff_text.last() == '\n' {
        lemma_last_piece(diff_text, '\n');
    }
    if pieces.last().len() == 0 && pieces.len() > 1 {
        lemma_join_ends_empty(pieces, seq!['\n']);
        assert(diff_text.last() == '\n');
    }
}

} // verus!
