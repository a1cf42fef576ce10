//! Streaming bash execution transcript block.

use crate::style::{
    bold_colored, bold_fg, colored, fg, plain, push_span, raw, spans, Span, ThemeColor,
};
use crate::text::{
    char_texts, chars_of, decimal, decimal_str, join, join_strs, push_text, split, split_chars,
    string_of, texts,
};
use crate::tool_calls::{signed_decimal, signed_decimal_str};
use crate::transcript::{pieces, push_piece, single_span, text_piece, Piece, PieceView};
use vstd::prelude::*;
use vstd::string::*;

verus! {

broadcast use vstd::string::group_string_axioms;

/// How many lines of output are shown where the block is collapsed.
pub const PREVIEW_LINES: usize = 20;

/// The transcript block of a command.
#[derive(Debug)]
pub struct BashExecutionComponent {
    pub command: String,
    pub output: Vec<String>,
    pub running: bool,
    pub cancelled: bool,
    pub exit_code: Option<i32>,
    pub expanded: bool,
    pub exclude_from_context: bool,
}

/// The content of the block.
#[verifier::ext_equal]
pub struct BashView {
    pub command: Seq<char>,
    pub output: Seq<Seq<char>>,
    pub running: bool,
    pub cancelled: bool,
    pub exit_code: Option<i32>,
    pub expanded: bool,
    pub exclude_from_context: bool,
}

impl View for BashExecutionComponent {
    type V = BashView;

    open spec fn view(&self) -> BashView {
        BashView {
            command: self.command@,
            output: texts(self.output@),
            running: self.running,
            cancelled: self.cancelled,
            exit_code: self.exit_code,
            expanded: self.expanded,
            exclude_from_context: self.exclude_from_context,
        }
    }
}

/// The text with each carriage return, alone or before a newline, made a newline.
pub open spec fn clean_newlines(s: Seq<char>) -> Seq<char>
    decreases s.len(),
{
    if s.len() == 0 {
        Seq::empty()
    } else if s.len() > 1 && s[0] == '\r' && s[1] == '\n' {
        seq!['\n'] + clean_newlines(s.skip(2))
    } else if s[0] == '\r' {
        seq!['\n'] + clean_newlines(s.skip(1))
    } else {
        seq![s[0]] + clean_newlines(s.skip(1))
    }
}

fn with_clean_newlines(s: &Vec<char>) -> (r: Vec<char>)
    ensures
        r@ == clean_newlines(s@),
{
    let mut r: Vec<char> = Vec::new();
    let mut i: usize = 0;
    assert(s@.skip(0) =~= s@);
    while i < s.len()
        invariant
            i <= s.len(),
            clean_newlines(s@) =~= r@ + clean_newlines(s@.skip(i as int)),
        decreases s.len() - i,
    {
        let ghost rest = s@.skip(i as int);
        proof {
            assert(rest.skip(1) =~= s@.skip(i + 1));
            assert(rest.len() > 1 ==> rest.skip(2) =~= s@.skip(i + 2));
        }
        if s[i] == '\r' {
            r.push('\n');
            if i + 1 < s.len() && s[i + 1] == '\n' {
                i = i + 1;
            }
        } else {
            r.push(s[i]);
        }
        i = i + 1;
    }
    r
}

/// The lines with more output added: it goes on in the last line.
pub open spec fn continued(lines: Seq<Seq<char>>, more: Seq<Seq<char>>) -> Seq<Seq<char>> {
    if lines.len() == 0 {
        more
    } else {
        lines.drop_last().push(lines.last() + more[0]) + more.skip(1)
    }
}

/// The pieces of a text give the text again when they are joined.
pub proof fn split_pieces_join(s: Seq<char>, c: char)
    ensures
        split(s, c).len() > 0,
        join(split(s, c), seq![c]) == s,
    decreases s.len(),
{
    let n = crate::text::index_of_char(s, c);
    crate::text::lemma_index_of_char_bounds(s, c);
    if n < s.len() {
        let rest = s.skip(n as int + 1);
        split_pieces_join(rest, c);
        lemma_join_first(s.take(n as int), split(rest, c), seq![c]);
        assert(s.take(n as int) + seq![c] + rest =~= s);
    } else {
        assert(split(s, c) =~= seq![s]);
    }
}

proof fn lemma_join_first(first: Seq<char>, rest: Seq<Seq<char>>, sep: Seq<char>)
    requires
        rest.len() > 0,
    ensures
        join(seq![first] + rest, sep) == first + sep + join(rest, sep),
    decreases rest.len(),
{
    let all = seq![first] + rest;
    assert(all.last() == rest.last());
    if rest.len() == 1 {
        assert(all.drop_last() =~= seq![first]);
        assert(join(all.drop_last(), sep) == first);
        assert(join(rest, sep) == rest[0]);
        assert(all.len() == 2);
        assert(join(all, sep) == join(all.drop_last(), sep) + sep + all.last());
    } else {
        assert(all.drop_last() =~= seq![first] + rest.drop_last());
        lemma_join_first(first, rest.drop_last(), sep);
        assert(join(all, sep) =~= first + sep + join(rest, sep));
    }
}

proof fn lemma_join_append(a: Seq<Seq<char>>, b: Seq<Seq<char>>, sep: Seq<char>)
    requires
        a.len() > 0,
        b.len() > 0,
    ensures
        join(a + b, sep) == join(a, sep) + sep + join(b, sep),
    decreases b.len(),
{
    let all = a + b;
    assert(all.last() == b.last());
    if b.len() == 1 {
        assert(all.drop_last() =~= a);
    } else {
        assert(all.drop_last() =~= a + b.drop_last());
        lemma_join_append(a, b.drop_last(), sep);
        assert(join(all, sep) =~= join(a, sep) + sep + join(b, sep));
    }
}

/// Output is neither lost nor reordered: adding a chunk adds its text, with clean newlines, to the
/// end of the output.
pub proof fn output_is_appended(lines: Seq<Seq<char>>, chunk: Seq<char>)
    ensures
        join(continued(lines, split(chunk, '\n')), seq!['\n']) == join(lines, seq!['\n']) + chunk,
{
    let sep = seq!['\n'];
    let more = split(chunk, '\n');
    split_pieces_join(chunk, '\n');
    if lines.len() == 0 {
        assert(join(lines, sep) =~= Seq::empty());
        assert(Seq::<char>::empty() + chunk =~= chunk);
    } else {
        let first = lines.drop_last().push(lines.last() + more[0]);
        assert(first.drop_last() =~= lines.drop_last());
        if lines.len() == 1 {
            assert(join(first, sep) =~= lines[0] + more[0]);
            assert(join(lines, sep) =~= lines[0]);
        } else {
            assert(join(first, sep) =~= join(lines.drop_last(), sep) + sep + (lines.last()
                + more[0]));
        }
        assert(join(first, sep) =~= join(lines, sep) + more[0]);
        if more.len() == 1 {
            assert(first + more.skip(1) =~= first);
            assert(join(more, sep) =~= more[0]);
        } else {
            lemma_join_append(first, more.skip(1), sep);
            assert(more =~= seq![more[0]] + more.skip(1));
            lemma_join_first(more[0], more.skip(1), sep);
            assert(join(first + more.skip(1), sep) =~= join(lines, sep) + chunk);
        }
    }
}

impl BashView {
    /// The color of the block.
    pub open spec fn color(self) -> ThemeColor {
        if self.exclude_from_context {
            ThemeColor::Dim
        } else {
            ThemeColor::BashMode
        }
    }

    /// The output that shows: all of it, or its last lines.
    pub open spec fn preview(self) -> Seq<char> {
        let total = self.output.len() as int;
        let start = if self.expanded || total <= PREVIEW_LINES {
            0
        } else {
            total - PREVIEW_LINES
        };
        join(self.output.skip(start), "\n"@)
    }

    /// How the command ended: how many lines are not shown, and whether it was cancelled or failed.
    pub open spec fn status_parts(self) -> Seq<Seq<char>> {
        let more = if self.output.len() > PREVIEW_LINES && !self.expanded {
            seq![
                "... "@ + decimal((self.output.len() - PREVIEW_LINES) as nat)
                    + " more lines (expand to expand)"@,
            ]
        } else {
            Seq::empty()
        };
        let end = if self.cancelled {
            seq!["(cancelled)"@]
        } else {
            match self.exit_code {
                Some(code) if code != 0 => seq!["(exit "@ + signed_decimal(code as int) + ")"@],
                _ => Seq::empty(),
            }
        };
        more + end
    }

    /// The pieces under the output: that the command is running, or how it ended.
    pub open spec fn status(self) -> Seq<PieceView> {
        if self.running {
            seq![
                PieceView::Loader {
                    message: "Running... (Ctrl+C to cancel)"@,
                    spinner: self.color(),
                    message_color: ThemeColor::Muted,
                },
            ]
        } else if self.status_parts().len() == 0 {
            Seq::empty()
        } else {
            seq![text_piece(plain("\n"@ + join(self.status_parts(), "\n"@)), 1)]
        }
    }

    /// The pieces of the block.
    pub open spec fn block(self) -> Seq<PieceView> {
        let output = if self.preview().len() == 0 {
            Seq::empty()
        } else {
            seq![
                PieceView::Text {
                    spans: seq![plain("\n"@), colored(ThemeColor::Muted, self.preview())],
                    padding: 1,
                },
            ]
        };
        seq![
            PieceView::Spacer(1),
            PieceView::Border(self.color()),
            text_piece(bold_colored(self.color(), "$ "@ + self.command), 1),
        ] + output + self.status() + seq![PieceView::Border(self.color())]
    }
}

impl BashExecutionComponent {
    /// The block of a command that has just started.
    #[must_use]
    pub fn new(command: String, exclude_from_context: bool) -> (r: Self)
        ensures
            r@ == (BashView {
                command: command@,
                output: Seq::empty(),
                running: true,
                cancelled: false,
                exit_code: None,
                expanded: false,
                exclude_from_context,
            }),
    {
        let r = BashExecutionComponent {
            command,
            output: Vec::new(),
            running: true,
            cancelled: false,
            exit_code: None,
            expanded: false,
            exclude_from_context,
        };
        assert(r@.output =~= Seq::<Seq<char>>::empty());
        r
    }

    /// Adds a chunk of output. It goes on in the last line.
    pub fn append_output(&mut self, chunk: &str)
        ensures
            final(self)@ == (BashView {
                output: continued(old(self)@.output, split(clean_newlines(chunk@), '\n')),
                ..old(self)@
            }),
            join(final(self)@.output, seq!['\n']) == join(old(self)@.output, seq!['\n'])
                + clean_newlines(chunk@),
    {
        let clean = with_clean_newlines(&chars_of(chunk));
        let parts = split_chars(clean.as_slice(), '\n');
        let ghost more = char_texts(parts@);
        let ghost before = texts(self.output@);
        proof {
            split_pieces_join(clean@, '\n');
            output_is_appended(before, clean@);
        }
        assert(more.len() == parts.len());
        assert(before.len() == self.output@.len());
        assert(more[0] == parts@[0]@);
        let first = string_of(parts[0].as_slice());
        let n: usize = self.output.len();
        if n == 0 {
            push_text(&mut self.output, first);
        } else {
            let line = self.output[n - 1].clone().concat(first.as_str());
            self.output.set(n - 1, line);
        }
        let ghost started = if n == 0 {
            seq![more[0]]
        } else {
            before.drop_last().push(before.last() + more[0])
        };
        assert(texts(self.output@) =~= started);
        let mut i: usize = 1;
        while i < parts.len()
            invariant
                1 <= i <= parts.len(),
                more == char_texts(parts@),
                texts(self.output@) =~= started + more.subrange(1, i as int),
                self.command == old(self).command,
                self.running == old(self).running,
                self.cancelled == old(self).cancelled,
                self.exit_code == old(self).exit_code,
                self.expanded == old(self).expanded,
                self.exclude_from_context == old(self).exclude_from_context,
            decreases parts.len() - i,
        {
            assert(more[i as int] == parts@[i as int]@);
            push_text(&mut self.output, string_of(parts[i].as_slice()));
            i = i + 1;
        }
        assert(more.subrange(1, i as int) =~= more.skip(1));
        assert(texts(self.output@) =~= continued(before, more));
    }

    /// The command has ended.
    pub fn set_complete(&mut self, exit_code: Option<i32>, cancelled: bool)
        ensures
            final(self)@ == (BashView { exit_code, cancelled, running: false, ..old(self)@ }),
    {
        self.exit_code = exit_code;
        self.cancelled = cancelled;
        self.running = false;
    }

    /// Whether all output shows.
    pub fn set_expanded(&mut self, expanded: bool)
        ensures
            final(self)@ == (BashView { expanded, ..old(self)@ }),
    {
        self.expanded = expanded;
    }

    /// The output.
    #[must_use]
    pub fn output(&self) -> (r: String)
        ensures
            r@ == join(self@.output, "\n"@),
    {
        join_strs(&self.output, "\n")
    }

    /// The command.
    #[must_use]
    pub fn command(&self) -> (r: &str)
        ensures
            r@ == self@.command,
    {
        self.command.as_str()
    }

    fn preview(&self) -> (r: String)
        ensures
            r@ == self@.preview(),
    {
        let total: usize = self.output.len();
        let start: usize = if self.expanded || total <= PREVIEW_LINES {
            0
        } else {
            total - PREVIEW_LINES
        };
        let mut shown: Vec<String> = Vec::new();
        let mut i: usize = start;
        while i < total
            invariant
                start <= i <= total,
                total == self.output.len(),
                texts(shown@) =~= self@.output.subrange(start as int, i as int),
            decreases total - i,
        {
            push_text(&mut shown, self.output[i].clone());
            i = i + 1;
        }
        assert(self@.output.subrange(start as int, total as int) =~= self@.output.skip(
            start as int,
        ));
        join_strs(&shown, "\n")
    }

    fn status_parts(&self) -> (r: Vec<String>)
        ensures
            texts(r@) == self@.status_parts(),
    {
        let mut parts: Vec<String> = Vec::new();
        let total: usize = self.output.len();
        assert(self@.output.len() == total);
        if total > PREVIEW_LINES && !self.expanded {
            push_text(
                &mut parts,
                "... ".to_owned().concat(
                    decimal_str((total - PREVIEW_LINES) as u128).as_str(),
                ).concat(" more lines (expand to expand)"),
            );
        }
        if self.cancelled {
            push_text(&mut parts, "(cancelled)".to_owned());
        } else if let Some(code) = self.exit_code {
            if code != 0 {
                push_text(
                    &mut parts,
                    "(exit ".to_owned().concat(signed_decimal_str(code as i128).as_str()).concat(
                        ")",
                    ),
                );
            }
        }
        assert(texts(parts@) =~= self@.status_parts());
        parts
    }

    /// The pieces of the block.
    pub fn rebuild(&self) -> (r: Vec<Piece>)
        ensures
            pieces(r@) == self@.block(),
    {
        let color = if self.exclude_from_context {
            ThemeColor::Dim
        } else {
            ThemeColor::BashMode
        };
        let mut list: Vec<Piece> = Vec::new();
        push_piece(&mut list, Piece::Spacer(1));
        push_piece(&mut list, Piece::Border(color));
        let title = "$ ".to_owned().concat(self.command.as_str());
        push_piece(&mut list, single_span(bold_fg(color, title.as_str()), 1));
        let preview = self.preview();
        if !preview.as_str().is_empty() {
            let mut line: Vec<Span> = Vec::new();
            push_span(&mut line, raw("\n"));
            push_span(&mut line, fg(ThemeColor::Muted, preview.as_str()));
            assert(spans(line@) =~= seq![plain("\n"@), colored(ThemeColor::Muted, preview@)]);
            push_piece(&mut list, Piece::Text { spans: line, padding: 1 });
        }
        if self.running {
            push_piece(
                &mut list,
                Piece::Loader {
                    message: "Running... (Ctrl+C to cancel)".to_owned(),
                    spinner: color,
                    message_color: ThemeColor::Muted,
                },
            );
        } else {
            let parts = self.status_parts();
            assert(texts(parts@).len() == parts.len());
            if parts.len() > 0 {
                let text = "\n".to_owned().concat(join_strs(&parts, "\n").as_str());
                push_piece(&mut list, single_span(raw(text.as_str()), 1));
            }
        }
        push_piece(&mut list, Piece::Border(color));
        assert(pieces(list@) =~= self@.block());
        list
    }
}

} // verus!
