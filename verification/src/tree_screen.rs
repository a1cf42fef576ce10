//! The screen of the session tree.

use crate::keybinding_hints::{bound_text, hint_spans, key_hint, KeyTable};
use crate::label_times::{
    format_label_timestamp, is_offset, shown_timestamp, timestamp_parts, CivilTime,
};
use crate::style::{
    append_spans, bold, bolded, colored, fg, plain, push_span, raw, spans, Span, SpanView, ThemeBg,
    ThemeColor,
};
use crate::text::texts;
use crate::transcript::{
    copy_line, pieces, push_piece, push_pieces, single_span, text_piece, Piece, PieceView,
};
use crate::tree_component::TreeSelectorComponent;
use crate::tree_help::{
    all_lines, help_texts, pack_help, packed_lines, search_line, search_spans, write_help,
};
use crate::tree_rows::{
    horizontal_scroll, sideways_scroll, tree_row_views, RowExtent, TreeRow, TreeRowView,
    TREE_GUTTER_WIDTH,
};
use crate::tree_selector::TreeList;
use vstd::prelude::*;
use vstd::string::*;

verus! {

broadcast use vstd::string::group_string_axioms;

/// How wide the parts of a row are, and the local time zone when its label was set.
#[derive(Debug)]
pub struct RowMeasure {
    /// The columns before the row's text.
    pub anchor_col: usize,
    pub body_width: usize,
    /// By how many seconds the local time was ahead of UTC when the label was set.
    pub offset_seconds: i32,
}

impl TreeRowView {
    /// The cursor before the row.
    pub open spec fn gutter(self) -> Seq<SpanView> {
        seq![
            if self.selected {
                colored(ThemeColor::Accent, "› "@)
            } else {
                plain("  "@)
            },
        ]
    }

    /// The row without its cursor.
    pub open spec fn body(self, offset_seconds: i32, now: CivilTime) -> Seq<SpanView> {
        let label = match self.label {
            Some(label) => seq![label],
            None => Seq::empty(),
        };
        let time = match self.label_timestamp {
            Some(stamp) => seq![
                colored(
                    ThemeColor::Muted,
                    shown_timestamp(stamp@, timestamp_parts(stamp@, offset_seconds), now) + " "@,
                ),
            ],
            None => Seq::empty(),
        };
        self.prefix + label + time + self.content
    }

    /// What is behind the row.
    pub open spec fn background(self) -> Option<ThemeBg> {
        if self.selected {
            Some(ThemeBg::SelectedBg)
        } else {
            None
        }
    }

    /// The piece of the row when the rows are scrolled sideways by `start` columns.
    pub open spec fn piece(
        self,
        offset_seconds: i32,
        now: CivilTime,
        start: nat,
        width: int,
    ) -> PieceView {
        if start > 0 {
            PieceView::Scrolled {
                gutter: self.gutter(),
                body: self.body(offset_seconds, now),
                background: self.background(),
                start,
                columns: if width > TREE_GUTTER_WIDTH {
                    (width - TREE_GUTTER_WIDTH) as nat
                } else {
                    0
                },
            }
        } else {
            PieceView::Row {
                spans: self.gutter() + self.body(offset_seconds, now),
                background: self.background(),
                ellipsis: Seq::empty(),
            }
        }
    }
}

impl TreeRow {
    fn make_gutter(&self) -> (r: Vec<Span>)
        ensures
            spans(r@) == self@.gutter(),
    {
        let mut line: Vec<Span> = Vec::new();
        if self.selected {
            push_span(&mut line, fg(ThemeColor::Accent, "› "));
        } else {
            push_span(&mut line, raw("  "));
        }
        assert(spans(line@) =~= self@.gutter());
        line
    }

    /// The row without its cursor: what the columns before and in it are measured on.
    pub fn make_body(&self, offset_seconds: i32, now: CivilTime) -> (r: Vec<Span>)
        requires
            is_offset(offset_seconds),
        ensures
            spans(r@) == self@.body(offset_seconds, now),
    {
        let mut line = copy_line(&self.prefix);
        if let Some(label) = &self.label {
            push_span(&mut line, label.clone());
        }
        if let Some(stamp) = &self.label_timestamp {
            let time = format_label_timestamp(stamp.as_str(), offset_seconds, now).concat(" ");
            push_span(&mut line, fg(ThemeColor::Muted, time.as_str()));
        }
        append_spans(&mut line, copy_line(&self.content));
        assert(spans(line@) =~= self@.body(offset_seconds, now));
        line
    }

    fn make_piece(&self, offset_seconds: i32, now: CivilTime, start: usize, width: u16) -> (r:
        Piece)
        requires
            is_offset(offset_seconds),
        ensures
            r@ == self@.piece(offset_seconds, now, start as nat, width as int),
    {
        let background = if self.selected {
            Some(ThemeBg::SelectedBg)
        } else {
            None
        };
        let width = width as usize;
        let body = self.make_body(offset_seconds, now);
        if start > 0 {
            Piece::Scrolled {
                gutter: self.make_gutter(),
                body,
                background,
                start,
                columns: if width > TREE_GUTTER_WIDTH {
                    width - TREE_GUTTER_WIDTH
                } else {
                    0
                },
            }
        } else {
            let mut line = self.make_gutter();
            append_spans(&mut line, body);
            proof {
                reveal_strlit("");
                assert(""@ =~= Seq::empty());
            }
            Piece::Row { spans: line, background, ellipsis: "".to_owned() }
        }
    }
}

/// How far the rows reach.
pub open spec fn extents(rows: Seq<TreeRowView>, measures: Seq<RowMeasure>) -> Seq<RowExtent> {
    Seq::new(
        rows.len(),
        |k: int|
            RowExtent {
                anchor_col: measures[k].anchor_col,
                body_width: measures[k].body_width,
                selected: rows[k].selected,
            },
    )
}

/// A line of one style, its cut marked by three dots.
pub open spec fn marked_row(line: Seq<SpanView>) -> PieceView {
    PieceView::Row { spans: line, background: None, ellipsis: "..."@ }
}

fn push_marked(list: &mut Vec<Piece>, line: Vec<Span>)
    ensures
        pieces(final(list)@) == pieces(old(list)@).push(marked_row(spans(line@))),
{
    push_piece(list, Piece::Row { spans: line, background: None, ellipsis: "...".to_owned() });
}

fn push_note(list: &mut Vec<Piece>, text: &str)
    ensures
        pieces(final(list)@) == pieces(old(list)@).push(
            marked_row(seq![colored(ThemeColor::Muted, text@)]),
        ),
{
    let mut line: Vec<Span> = Vec::new();
    push_span(&mut line, fg(ThemeColor::Muted, text));
    assert(spans(line@) =~= seq![colored(ThemeColor::Muted, text@)]);
    push_marked(list, line);
}

impl TreeList {
    /// The pieces of the list: the rows in the window, or a note that there are none, and the
    /// status line.
    pub open spec fn screen(
        &self,
        home: Option<Seq<char>>,
        measures: Seq<RowMeasure>,
        width: int,
        now: CivilTime,
    ) -> Seq<PieceView> {
        let rows = self.window(home);
        let status = marked_row(seq![colored(ThemeColor::Muted, self.status_text())]);
        if self.filtered_nodes@.len() == 0 {
            seq![marked_row(seq![colored(ThemeColor::Muted, "  No entries found"@)]), status]
        } else {
            Seq::new(
                rows.len(),
                |k: int|
                    rows[k].piece(
                        measures[k].offset_seconds,
                        now,
                        sideways_scroll(extents(rows, measures), width) as nat,
                        width,
                    ),
            ).push(status)
        }
    }

    /// The pieces of the list, given how wide each row in its window is.
    pub fn render(
        &self,
        home: Option<&str>,
        measures: &Vec<RowMeasure>,
        width: u16,
        now: CivilTime,
    ) -> (r: Vec<Piece>)
        requires
            self.wf(),
            measures@.len() == self.window_len(),
            forall|k: int|
                0 <= k < measures@.len() ==> is_offset((#[trigger] measures@[k]).offset_seconds),
        ensures
            pieces(r@) == self.screen(
                match home {
                    Some(home) => Some(home@),
                    None => None,
                },
                measures@,
                width as int,
                now,
            ),
    {
        let ghost home_text = match home {
            Some(home) => Some(home@),
            None => None,
        };
        let mut list: Vec<Piece> = Vec::new();
        if self.filtered_nodes.len() == 0 {
            push_note(&mut list, "  No entries found");
            push_note(&mut list, self.status_line().as_str());
            assert(pieces(list@) =~= self.screen(home_text, measures@, width as int, now));
            return list;
        }
        let rows = self.visible_rows(home);
        let ghost views = tree_row_views(rows@);
        assert(views.len() == rows@.len());
        let mut reach: Vec<RowExtent> = Vec::new();
        let mut i: usize = 0;
        while i < rows.len()
            invariant
                i <= rows.len(),
                views == tree_row_views(rows@),
                rows@.len() == measures@.len(),
                reach@ =~= extents(views, measures@).take(i as int),
            decreases rows.len() - i,
        {
            assert(views[i as int] == rows@[i as int]@);
            reach.push(
                RowExtent {
                    anchor_col: measures[i].anchor_col,
                    body_width: measures[i].body_width,
                    selected: rows[i].selected,
                },
            );
            i = i + 1;
        }
        assert(reach@ =~= extents(views, measures@));
        let start = horizontal_scroll(&reach, width as usize);
        let ghost shown = Seq::new(
            views.len(),
            |k: int|
                views[k].piece(measures@[k].offset_seconds, now, start as nat, width as int),
        );
        let mut k: usize = 0;
        while k < rows.len()
            invariant
                k <= rows.len(),
                views == tree_row_views(rows@),
                rows@.len() == measures@.len(),
                forall|k: int|
                    0 <= k < measures@.len() ==> is_offset(
                        (#[trigger] measures@[k]).offset_seconds,
                    ),
                shown == Seq::new(
                    views.len(),
                    |k: int|
                        views[k].piece(
                            measures@[k].offset_seconds,
                            now,
                            start as nat,
                            width as int,
                        ),
                ),
                pieces(list@) =~= shown.take(k as int),
            decreases rows.len() - k,
        {
            assert(views[k as int] == rows@[k as int]@);
            push_piece(
                &mut list,
                rows[k].make_piece(measures[k].offset_seconds, now, start, width),
            );
            k = k + 1;
        }
        assert(shown.take(k as int) =~= shown);
        push_note(&mut list, self.status_line().as_str());
        assert(pieces(list@) =~= self.screen(home_text, measures@, width as int, now));
        list
    }
}

/// The lines of text as pieces that are wrapped to the width.
pub open spec fn muted_texts(lines: Seq<Seq<char>>) -> Seq<PieceView> {
    lines.map_values(|line: Seq<char>| text_piece(colored(ThemeColor::Muted, line), 0))
}

/// The input for a label, with what it is for above and its keys below.
pub open spec fn label_input(table: KeyTable) -> Seq<PieceView> {
    seq![
        marked_row(seq![plain("  "@), colored(ThemeColor::Muted, "Label (empty to remove):"@)]),
        PieceView::Input,
        marked_row(
            seq![plain("  "@)] + hint_spans(bound_text(table, "tui.select.confirm"@), "save"@)
                + seq![plain("  "@)] + hint_spans(
                bound_text(table, "tui.select.cancel"@),
                "cancel"@,
            ),
        ),
    ]
}

fn make_label_input(table: &KeyTable) -> (r: Vec<Piece>)
    ensures
        pieces(r@) == label_input(*table),
{
    let mut list: Vec<Piece> = Vec::new();
    let mut title: Vec<Span> = Vec::new();
    push_span(&mut title, raw("  "));
    push_span(&mut title, fg(ThemeColor::Muted, "Label (empty to remove):"));
    assert(spans(title@) =~= seq![
        plain("  "@),
        colored(ThemeColor::Muted, "Label (empty to remove):"@),
    ]);
    push_marked(&mut list, title);
    push_piece(&mut list, Piece::Input);
    let mut keys: Vec<Span> = Vec::new();
    push_span(&mut keys, raw("  "));
    append_spans(&mut keys, key_hint(table, "tui.select.confirm", "save"));
    push_span(&mut keys, raw("  "));
    append_spans(&mut keys, key_hint(table, "tui.select.cancel", "cancel"));
    assert(spans(keys@) =~= seq![plain("  "@)] + hint_spans(
        bound_text(*table, "tui.select.confirm"@),
        "save"@,
    ) + seq![plain("  "@)] + hint_spans(bound_text(*table, "tui.select.cancel"@), "cancel"@));
    push_marked(&mut list, keys);
    assert(pieces(list@) =~= label_input(*table));
    list
}

/// The title under a border.
pub open spec fn tree_title() -> Seq<PieceView> {
    seq![
        PieceView::Spacer(1),
        PieceView::Border(ThemeColor::Border),
        text_piece(bolded("  Session Tree"@), 1),
    ]
}

/// The search over a border.
pub open spec fn tree_search(query: Seq<char>) -> Seq<PieceView> {
    seq![
        marked_row(search_spans(query)),
        PieceView::Border(ThemeColor::Border),
        PieceView::Spacer(1),
    ]
}

/// The border at the bottom.
pub open spec fn tree_bottom() -> Seq<PieceView> {
    seq![PieceView::Spacer(1), PieceView::Border(ThemeColor::Border)]
}

fn title_pieces() -> (r: Vec<Piece>)
    ensures
        pieces(r@) == tree_title(),
{
    let mut list: Vec<Piece> = Vec::new();
    push_piece(&mut list, Piece::Spacer(1));
    push_piece(&mut list, Piece::Border(ThemeColor::Border));
    push_piece(&mut list, single_span(bold("  Session Tree"), 1));
    assert(pieces(list@) =~= tree_title());
    list
}

fn help_pieces(lines: &Vec<String>) -> (r: Vec<Piece>)
    ensures
        pieces(r@) == muted_texts(texts(lines@)),
{
    let mut list: Vec<Piece> = Vec::new();
    let ghost wanted = muted_texts(texts(lines@));
    let mut i: usize = 0;
    while i < lines.len()
        invariant
            i <= lines.len(),
            wanted == muted_texts(texts(lines@)),
            pieces(list@) =~= wanted.take(i as int),
        decreases lines.len() - i,
    {
        push_piece(&mut list, single_span(fg(ThemeColor::Muted, lines[i].as_str()), 0));
        i = i + 1;
    }
    assert(wanted.take(i as int) =~= wanted);
    list
}

fn search_pieces(query: &str) -> (r: Vec<Piece>)
    ensures
        pieces(r@) == tree_search(query@),
{
    let mut list: Vec<Piece> = Vec::new();
    push_marked(&mut list, search_line(query));
    push_piece(&mut list, Piece::Border(ThemeColor::Border));
    push_piece(&mut list, Piece::Spacer(1));
    assert(pieces(list@) =~= tree_search(query@));
    list
}

fn bottom_pieces() -> (r: Vec<Piece>)
    ensures
        pieces(r@) == tree_bottom(),
{
    let mut list: Vec<Piece> = Vec::new();
    push_piece(&mut list, Piece::Spacer(1));
    push_piece(&mut list, Piece::Border(ThemeColor::Border));
    assert(pieces(list@) =~= tree_bottom());
    list
}

impl TreeSelectorComponent {
    /// The pieces of the selector: the title, the help, the search, and the list or the input for a
    /// label, between borders. `help` holds how wide each item of the help is.
    pub open spec fn screen(
        &self,
        table: KeyTable,
        home: Option<Seq<char>>,
        help: Seq<usize>,
        measures: Seq<RowMeasure>,
        width: u16,
        now: CivilTime,
    ) -> Seq<PieceView> {
        let room: nat = if width > 1 {
            width as nat
        } else {
            1
        };
        let main = if self.label_entry is Some {
            label_input(table)
        } else {
            self.tree_list.screen(home, measures, width as int, now)
        };
        tree_title() + muted_texts(all_lines(packed_lines(help_texts(table), help, room)))
            + tree_search(self.tree_list.search_query@) + main + tree_bottom()
    }

    /// The pieces of the selector, and whether it is to be given up now because its tree is empty.
    pub fn render(
        &mut self,
        table: &KeyTable,
        home: Option<&str>,
        help: &Vec<usize>,
        measures: &Vec<RowMeasure>,
        width: u16,
        now: CivilTime,
        now_ms: u64,
    ) -> (r: (Vec<Piece>, bool))
        requires
            old(self).tree_list.wf(),
            help@.len() == help_texts(*table).len(),
            measures@.len() == old(self).tree_list.window_len(),
            forall|k: int|
                0 <= k < measures@.len() ==> is_offset((#[trigger] measures@[k]).offset_seconds),
        ensures
            r.1 == old(self).gives_up(now_ms),
            *final(self) == old(self).after_giving_up(now_ms),
            pieces(r.0@) == old(self).screen(
                *table,
                match home {
                    Some(home) => Some(home@),
                    None => None,
                },
                help@,
                measures@,
                width,
                now,
            ),
    {
        let cancel = self.fire_empty_tree_cancel(now_ms);
        let items = write_help(table);
        assert(items@.len() == texts(items@).len());
        let lines = pack_help(&items, help, width as usize);
        let mut list = title_pieces();
        push_pieces(&mut list, help_pieces(&lines));
        push_pieces(&mut list, search_pieces(self.tree_list.search_query.as_str()));
        if self.label_entry.is_some() {
            push_pieces(&mut list, make_label_input(table));
        } else {
            push_pieces(&mut list, self.tree_list.render(home, measures, width, now));
        }
        push_pieces(&mut list, bottom_pieces());
        (list, cancel)
    }
}

} // verus!
