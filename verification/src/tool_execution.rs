//! Streaming tool execution transcript block.

use crate::diff::{render_diff, shown_diff};
use crate::json::{json_compact, json_keys, opt_texts, read_json_keys, write_json_compact};
use crate::lines::{lines, lines_of};
use crate::style::{
    append_spans, bold_colored, bold_fg, colored, fg, plain, push_span, raw, spans, Span, SpanView,
    ThemeBg, ThemeColor,
};
use crate::text::{join, join_strs, push_text, str_eq, texts};
use crate::transcript::{pieces, push_piece, single_span, text_piece, Frame, Piece, PieceView};
use crate::visual_truncate::{skipped_lines, truncate_to_visual_lines};
use vstd::prelude::*;
use vstd::string::*;

verus! {

broadcast use vstd::string::group_string_axioms;

/// How many lines of output are shown where the block is collapsed.
pub const PREVIEW_LINES: usize = 20;

/// How far a tool call has come.
#[derive(Debug, Clone, Copy, PartialEq, Eq, Structural)]
pub enum ToolState {
    Pending,
    Success,
    Error,
}

/// One part of a tool's result.
#[derive(Debug)]
pub enum ResultPart {
    Text(String),
    Image,
    Other,
}

/// The transcript block of a tool call.
#[derive(Debug)]
pub struct ToolExecutionComponent {
    pub tool_call_id: String,
    pub name: String,
    /// The arguments as JSON text.
    pub args: String,
    pub result: Option<Vec<ResultPart>>,
    pub state: ToolState,
    pub expanded: bool,
    /// The width that the block was last shown in, if it has not changed since.
    pub render_width: Option<u16>,
    pub show_images: bool,
    pub image_width_cells: u32,
}

/// The texts among the parts of a result.
pub open spec fn result_texts(parts: Seq<ResultPart>) -> Seq<Seq<char>>
    decreases parts.len(),
{
    if parts.len() == 0 {
        Seq::empty()
    } else {
        match parts.last() {
            ResultPart::Text(text) => result_texts(parts.drop_last()).push(text@),
            _ => result_texts(parts.drop_last()),
        }
    }
}

/// The images among the parts of a result.
pub open spec fn result_images(parts: Seq<ResultPart>, width: u32) -> Seq<PieceView>
    decreases parts.len(),
{
    if parts.len() == 0 {
        Seq::empty()
    } else {
        match parts.last() {
            ResultPart::Image => result_images(parts.drop_last(), width).push(
                PieceView::Image { index: (parts.len() - 1) as nat, max_width_cells: width },
            ),
            _ => result_images(parts.drop_last(), width),
        }
    }
}

/// The arguments as they follow the name of the tool: nothing for an empty object.
pub open spec fn args_text(keys: Option<Seq<Seq<char>>>, compact: Seq<char>) -> Seq<char> {
    if keys is Some && keys->0.len() == 0 {
        Seq::empty()
    } else {
        " "@ + compact
    }
}

/// The arguments as they follow the name of the tool, from the keys of an object and the JSON.
pub fn args_suffix(keys: &Option<Vec<String>>, compact: &str) -> (r: String)
    ensures
        r@ == args_text(opt_texts(*keys), compact@),
{
    match keys {
        Some(keys) => {
            assert(texts(keys@).len() == keys.len());
            if keys.len() == 0 {
                String::new()
            } else {
                " ".to_owned().concat(compact)
            }
        },
        None => " ".to_owned().concat(compact),
    }
}

impl ToolExecutionComponent {
    /// The text of the result.
    pub open spec fn output_text(&self) -> Seq<char> {
        match self.result {
            Some(parts) => join(result_texts(parts@), "\n"@),
            None => Seq::empty(),
        }
    }

    /// The background of the block.
    pub open spec fn background(&self) -> ThemeBg {
        match self.state {
            ToolState::Pending => ThemeBg::ToolPendingBg,
            ToolState::Success => ThemeBg::ToolSuccessBg,
            ToolState::Error => ThemeBg::ToolErrorBg,
        }
    }

    /// The title: the name and the arguments.
    pub open spec fn title_span(&self) -> SpanView {
        bold_colored(
            ThemeColor::ToolTitle,
            self.name@ + args_text(json_keys(self.args@), json_compact(self.args@)),
        )
    }

    /// The output as it is colored, before it is wrapped: a diff for tools that change files.
    pub open spec fn output_spans(&self) -> Seq<SpanView> {
        if self.name@ == "edit"@ || self.name@ == "write"@ {
            shown_diff(self.output_text())
        } else {
            seq![colored(ThemeColor::ToolOutput, self.output_text())]
        }
    }

    /// Whether a note tells that not all lines show.
    pub open spec fn is_cut(&self) -> bool {
        self.output_text().len() > 0 && !self.expanded && lines(self.output_text()).len()
            > PREVIEW_LINES
    }

    /// The images under the output.
    pub open spec fn images(&self) -> Seq<PieceView> {
        match self.result {
            Some(parts) if self.show_images => result_images(parts@, self.image_width_cells),
            _ => Seq::empty(),
        }
    }

    /// The block of a call that has just started.
    #[must_use]
    pub fn new(name: String, args: String) -> (r: Self)
        ensures
            r.tool_call_id@ == Seq::<char>::empty(),
            r.name == name,
            r.args == args,
            r.result is None,
            r.state == ToolState::Pending,
            !r.expanded,
            r.render_width is None,
            r.show_images,
            r.image_width_cells == 60,
    {
        ToolExecutionComponent {
            tool_call_id: String::new(),
            name,
            args,
            result: None,
            state: ToolState::Pending,
            expanded: false,
            render_width: None,
            show_images: true,
            image_width_cells: 60,
        }
    }

    /// The block of a call with an id.
    #[must_use]
    pub fn with_call_id(tool_call_id: String, name: String, args: String) -> (r: Self)
        ensures
            r.tool_call_id == tool_call_id,
            r.name == name,
            r.args == args,
            r.result is None,
            r.state == ToolState::Pending,
            !r.expanded,
            r.render_width is None,
            r.show_images,
            r.image_width_cells == 60,
    {
        let mut r = Self::new(name, args);
        r.tool_call_id = tool_call_id;
        r
    }

    /// The id of the call.
    #[must_use]
    pub fn tool_call_id(&self) -> (r: &str)
        ensures
            r@ == self.tool_call_id@,
    {
        self.tool_call_id.as_str()
    }

    /// Shows another state of the result.
    pub fn update(&mut self, result: Vec<ResultPart>)
        ensures
            *final(self) == (ToolExecutionComponent {
                result: Some(result),
                render_width: None,
                ..*old(self)
            }),
    {
        self.result = Some(result);
        self.render_width = None;
    }

    /// Shows another state of the arguments.
    pub fn update_args(&mut self, args: String)
        ensures
            *final(self) == (ToolExecutionComponent { args, render_width: None, ..*old(self) }),
    {
        self.args = args;
        self.render_width = None;
    }

    /// Shows another state of the arguments and the result.
    pub fn update_partial(&mut self, args: String, result: Vec<ResultPart>)
        ensures
            *final(self) == (ToolExecutionComponent {
                args,
                result: Some(result),
                render_width: None,
                ..*old(self)
            }),
    {
        self.args = args;
        self.update(result);
    }

    /// Shows another state of the result.
    pub fn update_result(&mut self, result: Vec<ResultPart>)
        ensures
            *final(self) == (ToolExecutionComponent {
                result: Some(result),
                render_width: None,
                ..*old(self)
            }),
    {
        self.update(result);
    }

    /// The call has ended.
    pub fn end(&mut self, result: Vec<ResultPart>, is_error: bool)
        ensures
            *final(self) == (ToolExecutionComponent {
                result: Some(result),
                state: if is_error {
                    ToolState::Error
                } else {
                    ToolState::Success
                },
                render_width: None,
                ..*old(self)
            }),
    {
        self.result = Some(result);
        self.state = if is_error {
            ToolState::Error
        } else {
            ToolState::Success
        };
        self.render_width = None;
    }

    /// Whether all output shows.
    pub fn set_expanded(&mut self, expanded: bool)
        ensures
            *final(self) == if old(self).expanded == expanded {
                *old(self)
            } else {
                (ToolExecutionComponent { expanded, render_width: None, ..*old(self) })
            },
    {
        if self.expanded != expanded {
            self.expanded = expanded;
            self.render_width = None;
        }
    }

    /// Whether images show.
    pub fn set_show_images(&mut self, show_images: bool)
        ensures
            *final(self) == if old(self).show_images == show_images {
                *old(self)
            } else {
                (ToolExecutionComponent { show_images, render_width: None, ..*old(self) })
            },
    {
        if self.show_images != show_images {
            self.show_images = show_images;
            self.render_width = None;
        }
    }

    /// How wide images are at most; at least one cell.
    pub fn set_image_width_cells(&mut self, width: u32)
        ensures
            ({
                let cells: u32 = if width == 0 {
                    1
                } else {
                    width
                };
                *final(self) == if old(self).image_width_cells == cells {
                    *old(self)
                } else {
                    (ToolExecutionComponent {
                        image_width_cells: cells,
                        render_width: None,
                        ..*old(self)
                    })
                }
            }),
    {
        let cells: u32 = if width == 0 {
            1
        } else {
            width
        };
        if self.image_width_cells != cells {
            self.image_width_cells = cells;
            self.render_width = None;
        }
    }

    /// Whether the block has to be laid out anew for the width; it is taken to be shown in it.
    pub fn begin_render(&mut self, width: u16) -> (r: bool)
        ensures
            r == (old(self).render_width != Some(width)),
            *final(self) == (ToolExecutionComponent { render_width: Some(width), ..*old(self) }),
    {
        let fresh = match self.render_width {
            Some(w) => w == width,
            None => false,
        };
        self.render_width = Some(width);
        !fresh
    }

    /// The text of the result.
    pub fn output(&self) -> (r: String)
        ensures
            r@ == self.output_text(),
    {
        match &self.result {
            Some(parts) => {
                let mut found: Vec<String> = Vec::new();
                let mut i: usize = 0;
                assert(texts(found@) =~= result_texts(parts@.take(0)));
                while i < parts.len()
                    invariant
                        i <= parts.len(),
                        texts(found@) == result_texts(parts@.take(i as int)),
                    decreases parts.len() - i,
                {
                    proof {
                        assert(parts@.take(i + 1).drop_last() =~= parts@.take(i as int));
                        assert(parts@.take(i + 1).last() == parts@[i as int]);
                    }
                    if let ResultPart::Text(text) = &parts[i] {
                        push_text(&mut found, text.clone());
                    }
                    i = i + 1;
                }
                assert(parts@.take(i as int) =~= parts@);
                join_strs(&found, "\n")
            },
            None => String::new(),
        }
    }

    /// The background of the block.
    pub fn bg(&self) -> (r: ThemeBg)
        ensures
            r == self.background(),
    {
        match self.state {
            ToolState::Pending => ThemeBg::ToolPendingBg,
            ToolState::Success => ThemeBg::ToolSuccessBg,
            ToolState::Error => ThemeBg::ToolErrorBg,
        }
    }

    /// The box around the block: a column and a line on each side.
    pub fn frame(&self) -> (r: Frame)
        ensures
            r == (Frame { padding_x: 1, padding_y: 1, background: self.background() }),
    {
        Frame { padding_x: 1, padding_y: 1, background: self.bg() }
    }

    /// The title: the name and the arguments.
    pub fn title(&self) -> (r: Span)
        ensures
            r@ == self.title_span(),
    {
        let keys = read_json_keys(self.args.as_str());
        let compact = write_json_compact(self.args.as_str());
        let text = self.name.clone().concat(args_suffix(&keys, compact.as_str()).as_str());
        bold_fg(ThemeColor::ToolTitle, text.as_str())
    }

    /// The output as it is colored, if there is any. Where the block is collapsed, the last lines of
    /// it show after it was wrapped.
    pub fn colored_output(&self) -> (r: Option<Vec<Span>>)
        ensures
            match r {
                Some(line) => self.output_text().len() > 0 && spans(line@) == self.output_spans(),
                None => self.output_text().len() == 0,
            },
    {
        let output = self.output();
        if output.as_str().is_empty() {
            return None;
        }
        if str_eq(self.name.as_str(), "edit") || str_eq(self.name.as_str(), "write") {
            Some(render_diff(output.as_str()))
        } else {
            let mut line: Vec<Span> = Vec::new();
            push_span(&mut line, fg(ThemeColor::ToolOutput, output.as_str()));
            assert(spans(line@) =~= seq![colored(ThemeColor::ToolOutput, output@)]);
            Some(line)
        }
    }

    /// The note that not all lines show.
    pub fn more_note(&self) -> (r: Option<Span>)
        ensures
            match r {
                Some(note) => self.is_cut() && note@ == colored(
                    ThemeColor::Muted,
                    "... more lines (expand to expand)"@,
                ),
                None => !self.is_cut(),
            },
    {
        let output = self.output();
        if output.as_str().is_empty() || self.expanded {
            return None;
        }
        let all = lines_of(output.as_str());
        assert(texts(all@).len() == all.len());
        if all.len() > PREVIEW_LINES {
            Some(fg(ThemeColor::Muted, "... more lines (expand to expand)"))
        } else {
            None
        }
    }

    /// The images under the output.
    pub fn image_pieces(&self) -> (r: Vec<Piece>)
        ensures
            pieces(r@) == self.images(),
    {
        let mut list: Vec<Piece> = Vec::new();
        assert(pieces(list@) =~= Seq::empty());
        if !self.show_images {
            return list;
        }
        if let Some(parts) = &self.result {
            let mut i: usize = 0;
            assert(pieces(list@) =~= result_images(parts@.take(0), self.image_width_cells));
            while i < parts.len()
                invariant
                    i <= parts.len(),
                    pieces(list@) == result_images(
                        parts@.take(i as int),
                        self.image_width_cells,
                    ),
                decreases parts.len() - i,
            {
                proof {
                    assert(parts@.take(i + 1).drop_last() =~= parts@.take(i as int));
                    assert(parts@.take(i + 1).last() == parts@[i as int]);
                }
                if let ResultPart::Image = &parts[i] {
                    push_piece(
                        &mut list,
                        Piece::Image { index: i, max_width_cells: self.image_width_cells },
                    );
                }
                i = i + 1;
            }
            assert(parts@.take(i as int) =~= parts@);
        }
        list
    }
}

impl ToolExecutionComponent {
    /// The output that shows: all of it where the block is expanded, otherwise the last lines of it
    /// as it was wrapped.
    pub open spec fn shown_output(&self, wrapped: Seq<Seq<char>>) -> Seq<SpanView> {
        if self.expanded {
            seq![plain("\n"@)] + on_lines(self.output_spans())
        } else {
            seq![
                plain(
                    "\n"@ + join(
                        wrapped.skip(skipped_lines(wrapped.len(), PREVIEW_LINES as nat) as int),
                        "\n"@,
                    ),
                ),
            ]
        }
    }

    /// The pieces of the block: the title, the output, a note where lines are cut, and the images.
    pub open spec fn block(&self, wrapped: Seq<Seq<char>>) -> Seq<PieceView> {
        let output = if self.output_text().len() == 0 {
            Seq::empty()
        } else {
            seq![PieceView::Text { spans: self.shown_output(wrapped), padding: 0 }]
        };
        let note = if self.is_cut() {
            seq![
                text_piece(
                    colored(ThemeColor::Muted, "... more lines (expand to expand)"@),
                    0,
                ),
            ]
        } else {
            Seq::empty()
        };
        seq![text_piece(self.title_span(), 0)] + output + note + self.images()
    }

    /// The pieces of the block. `wrapped` is the colored output as it was wrapped to the width.
    pub fn rebuild(&self, wrapped: &Vec<String>) -> (r: Vec<Piece>)
        ensures
            pieces(r@) == self.block(texts(wrapped@)),
    {
        let mut list: Vec<Piece> = Vec::new();
        push_piece(&mut list, single_span(self.title(), 0));
        if let Some(output) = self.colored_output() {
            let mut line: Vec<Span> = Vec::new();
            if self.expanded {
                push_span(&mut line, raw("\n"));
                append_spans(&mut line, put_on_lines(&output));
            } else {
                let cut = truncate_to_visual_lines(wrapped, PREVIEW_LINES);
                let text = "\n".to_owned().concat(join_strs(&cut.visual_lines, "\n").as_str());
                push_span(&mut line, raw(text.as_str()));
            }
            assert(spans(line@) =~= self.shown_output(texts(wrapped@)));
            push_piece(&mut list, Piece::Text { spans: line, padding: 0 });
        }
        if let Some(note) = self.more_note() {
            push_piece(&mut list, single_span(note, 0));
        }
        let ghost above = pieces(list@);
        let mut images = self.image_pieces();
        let ghost shown = images@;
        list.append(&mut images);
        assert(pieces(list@) =~= above + pieces(shown));
        assert(pieces(list@) =~= self.block(texts(wrapped@)));
        list
    }
}

/// Spans with a newline between them.
pub open spec fn on_lines(parts: Seq<SpanView>) -> Seq<SpanView>
    decreases parts.len(),
{
    if parts.len() <= 1 {
        parts
    } else {
        on_lines(parts.drop_last()) + seq![plain("\n"@), parts.last()]
    }
}

fn put_on_lines(parts: &Vec<Span>) -> (r: Vec<Span>)
    ensures
        spans(r@) == on_lines(spans(parts@)),
{
    let ghost all = spans(parts@);
    let mut line: Vec<Span> = Vec::new();
    let mut i: usize = 0;
    assert(spans(line@) =~= on_lines(all.take(0)));
    while i < parts.len()
        invariant
            i <= parts.len(),
            all == spans(parts@),
            spans(line@) == on_lines(all.take(i as int)),
        decreases parts.len() - i,
    {
        proof {
            assert(all.take(i + 1).drop_last() =~= all.take(i as int));
            assert(all.take(i + 1).last() == parts@[i as int]@);
            assert(all.take(1) =~= seq![all[0]]);
        }
        let ghost before = spans(line@);
        if i > 0 {
            push_span(&mut line, raw("\n"));
        }
        push_span(&mut line, parts[i].clone());
        assert(spans(line@) =~= if i > 0 {
            before + seq![plain("\n"@), parts@[i as int]@]
        } else {
            before.push(parts@[i as int]@)
        });
        i = i + 1;
    }
    assert(all.take(i as int) =~= all);
    line
}

} // verus!
