//! The lines of a text.

use crate::text::{char_texts, chars_of, push_text, split, split_chars, string_of, texts};
use vstd::prelude::*;
use vstd::slice::slice_subrange;

verus! {

broadcast use vstd::string::group_string_axioms;

/// A line without the carriage return that ends it.
pub open spec fn without_return(line: Seq<char>) -> Seq<char> {
    if line.len() > 0 && line.last() == '\r' {
        line.drop_last()
    } else {
        line
    }
}

/// The lines of a text. A line ends with a newline or with a carriage return and a newline; after
/// the last of these a line only follows if it is not empty.
pub open spec fn lines(text: Seq<char>) -> Seq<Seq<char>> {
    let pieces = split(text, '\n');
    let ended = pieces.drop_last().map_values(|line: Seq<char>| without_return(line));
    if pieces.last().len() == 0 {
        ended
    } else {
        ended.push(pieces.last())
    }
}

/// A split text has at least one piece.
pub proof fn lemma_split_pieces(text: Seq<char>, c: char)
    ensures
        split(text, c).len() > 0,
{
}

/// The lines of a text.
pub fn lines_of(text: &str) -> (r: Vec<String>)
    ensures
        texts(r@) == lines(text@),
{
    let chars = chars_of(text);
    let pieces = split_chars(chars.as_slice(), '\n');
    let ghost all = char_texts(pieces@);
    proof {
        lemma_split_pieces(text@, '\n');
    }
    assert(all.len() == pieces.len());
    let last: usize = pieces.len() - 1;
    let ghost ended = all.drop_last().map_values(|line: Seq<char>| without_return(line));
    let mut r: Vec<String> = Vec::new();
    let mut i: usize = 0;
    while i < last
        invariant
            i <= last,
            last == pieces.len() - 1,
            all == char_texts(pieces@),
            ended == all.drop_last().map_values(|line: Seq<char>| without_return(line)),
            texts(r@) =~= ended.take(i as int),
        decreases last - i,
    {
        let piece = &pieces[i];
        assert(all[i as int] == piece@);
        let end: usize = if piece.len() > 0 && piece[piece.len() - 1] == '\r' {
            piece.len() - 1
        } else {
            piece.len()
        };
        let line = string_of(slice_subrange(piece.as_slice(), 0, end));
        assert(line@ =~= without_return(piece@));
        push_text(&mut r, line);
        i = i + 1;
    }
    assert(texts(r@) =~= ended);
    assert(all.last() == pieces@[last as int]@);
    if pieces[last].len() > 0 {
        push_text(&mut r, string_of(pieces[last].as_slice()));
    }
    r
}

} // verus!
