//! Cutting a styled line by terminal columns.

use crate::text::{push_text, string_of, texts};
use vstd::prelude::*;
use vstd::slice::slice_subrange;
use vstd::string::*;

verus! {

/// A piece of a line: an escape code that takes no column, or a cluster of characters.
#[derive(Debug)]
pub enum LinePiece {
    Code(String),
    Cluster { text: String, width: usize },
}

/// What is left of the pieces from index `i` on when the line is cut to the columns from `start` to
/// `end`. `col` is the column that has been reached, and `pending` the codes before `start` that
/// still apply. With `strict`, a cluster that would reach past the end is left out.
pub open spec fn cut_columns(
    pieces: Seq<LinePiece>,
    i: int,
    col: int,
    pending: Seq<char>,
    start: int,
    end: int,
    strict: bool,
) -> Seq<char>
    decreases pieces.len() - i,
{
    if i < 0 || i >= pieces.len() || col >= end {
        Seq::empty()
    } else {
        match pieces[i] {
            LinePiece::Code(code) => if col >= start {
                code@ + cut_columns(pieces, i + 1, col, pending, start, end, strict)
            } else {
                cut_columns(pieces, i + 1, col, pending + code@, start, end, strict)
            },
            LinePiece::Cluster { text, width } => if col >= start && (!strict || col + width
                <= end) {
                pending + text@ + cut_columns(
                    pieces,
                    i + 1,
                    col + width,
                    Seq::empty(),
                    start,
                    end,
                    strict,
                )
            } else {
                cut_columns(pieces, i + 1, col + width, pending, start, end, strict)
            },
        }
    }
}

/// The line cut to `length` columns from column `start_col` on, with the codes that apply there.
pub fn slice_by_column(
    pieces: &Vec<LinePiece>,
    start_col: usize,
    length: usize,
    strict: bool,
) -> (r: String)
    ensures
        r@ == if length == 0 {
            Seq::empty()
        } else {
            cut_columns(
                pieces@,
                0,
                0,
                Seq::empty(),
                start_col as int,
                start_col + length,
                strict,
            )
        },
{
    let mut out = String::new();
    if length == 0 {
        return out;
    }
    let start: u128 = start_col as u128;
    let end: u128 = start + length as u128;
    let mut pending = String::new();
    let mut col: u128 = 0;
    let mut i: usize = 0;
    let ghost target = cut_columns(
        pieces@,
        0,
        0,
        Seq::empty(),
        start_col as int,
        start_col + length,
        strict,
    );
    while i < pieces.len() && col < end
        invariant
            i <= pieces.len(),
            start == start_col,
            end == start_col + length,
            end <= 2 * usize::MAX,
            col <= 3 * usize::MAX,
            target =~= out@ + cut_columns(
                pieces@,
                i as int,
                col as int,
                pending@,
                start as int,
                end as int,
                strict,
            ),
        decreases pieces.len() - i,
    {
        match &pieces[i] {
            LinePiece::Code(code) => {
                if col >= start {
                    out.append(code.as_str());
                } else {
                    pending.append(code.as_str());
                }
            },
            LinePiece::Cluster { text, width } => {
                if col >= start && (!strict || col + *width as u128 <= end) {
                    out.append(pending.as_str());
                    pending = String::new();
                    out.append(text.as_str());
                }
                col = col + *width as u128;
            },
        }
        i = i + 1;
    }
    out
}

/// The characters in clusters: a character that takes no column belongs to the one before it.
/// `widths` holds the columns of each character.
pub open spec fn clusters(chars: Seq<char>, widths: Seq<usize>) -> Seq<Seq<char>>
    decreases chars.len(),
{
    if chars.len() == 0 {
        Seq::empty()
    } else {
        let before = clusters(chars.drop_last(), widths);
        if chars.len() == 1 || widths[chars.len() - 1] > 0 {
            before.push(seq![chars.last()])
        } else {
            before.update(before.len() - 1, before.last().push(chars.last()))
        }
    }
}

/// The characters in clusters: a character that takes no column belongs to the one before it.
pub fn grapheme_like_segments(chars: &Vec<char>, widths: &Vec<usize>) -> (r: Vec<String>)
    requires
        chars@.len() == widths@.len(),
    ensures
        texts(r@) == clusters(chars@, widths@),
{
    let mut r: Vec<String> = Vec::new();
    if chars.len() == 0 {
        assert(texts(r@) =~= clusters(chars@, widths@));
        return r;
    }
    let mut start: usize = 0;
    let mut i: usize = 1;
    proof {
        assert(clusters(chars@.take(1).drop_last(), widths@) =~= Seq::empty());
        assert(seq![chars@.take(1).last()] =~= chars@.subrange(0, 1));
        assert(clusters(chars@.take(1), widths@) =~= texts(r@).push(chars@.subrange(0, 1)));
    }
    while i < chars.len()
        invariant
            start < i <= chars.len(),
            chars@.len() == widths@.len(),
            clusters(chars@.take(i as int), widths@) =~= texts(r@).push(
                chars@.subrange(start as int, i as int),
            ),
        decreases chars.len() - i,
    {
        let ghost done = clusters(chars@.take(i as int), widths@);
        let ghost open = chars@.subrange(start as int, i as int);
        proof {
            assert(chars@.take(i as int + 1).drop_last() =~= chars@.take(i as int));
            assert(done.last() =~= open);
            assert(open.push(chars@[i as int]) =~= chars@.subrange(start as int, i as int + 1));
        }
        if widths[i] > 0 {
            push_text(&mut r, string_of(slice_subrange(chars.as_slice(), start, i)));
            start = i;
            assert(chars@.subrange(i as int, i as int + 1) =~= seq![chars@[i as int]]);
        }
        i = i + 1;
    }
    assert(chars@.take(i as int) =~= chars@);
    push_text(&mut r, string_of(slice_subrange(chars.as_slice(), start, i)));
    r
}

} // verus!
