//! The header of the session selector: title, scope, filters, and a line or
//! two of hints or status.

use crate::fitting::{
    fit_line, fit_text, fitted_line, fitted_text, fitted_width, is_cut, LineCut, TextCut,
};
use crate::keybinding_hints::{bound_text, hint_spans, key_hint, KeyTable};
use crate::session_selector::{SessionScope, StatusMessage};
use crate::session_selector_search::{NameFilter, SortMode};
use crate::style::{
    append_spans, bold, bolded, colored, fg, plain, push_span, raw, spans, Measured, Span, SpanView,
    ThemeColor,
};
use crate::text::{decimal, decimal_str, push_repeat, repeat};
use vstd::prelude::*;
use vstd::string::*;

verus! {

/// The header of the session selector.
#[derive(Debug)]
pub struct SessionSelectorHeader {
    pub scope: SessionScope,
    pub sort_mode: SortMode,
    pub name_filter: NameFilter,
    pub loading: bool,
    /// How many of how many sessions are loaded.
    pub load_progress: Option<(usize, usize)>,
    pub show_path: bool,
    pub confirming_delete_path: Option<String>,
    pub status_message: Option<StatusMessage>,
    /// When the status message disappears, in milliseconds.
    pub status_deadline: Option<u64>,
    pub show_rename_hint: bool,
}

/// A line of hints: spans that stand in the color of the line where they have none of their own.
#[derive(Debug)]
pub struct HintLine {
    pub color: Option<ThemeColor>,
    pub spans: Vec<Span>,
}

/// The content of a line of hints.
#[verifier::ext_equal]
pub struct HintLineView {
    pub color: Option<ThemeColor>,
    pub spans: Seq<SpanView>,
}

impl View for HintLine {
    type V = HintLineView;

    open spec fn view(&self) -> HintLineView {
        HintLineView { color: self.color, spans: spans(self.spans@) }
    }
}

/// A line of hints without a color and without text.
pub open spec fn empty_hint() -> HintLineView {
    HintLineView { color: None, spans: Seq::empty() }
}

/// What separates two hints.
pub open spec fn hint_separator() -> SpanView {
    colored(ThemeColor::Muted, " · "@)
}

/// The label of a sort mode.
pub open spec fn sort_label(sort_mode: SortMode) -> Seq<char> {
    match sort_mode {
        SortMode::Threaded => "Threaded"@,
        SortMode::Recent => "Recent"@,
        SortMode::Relevance => "Fuzzy"@,
    }
}

/// The label of a name filter.
pub open spec fn name_label(name_filter: NameFilter) -> Seq<char> {
    match name_filter {
        NameFilter::All => "All"@,
        NameFilter::Named => "Named"@,
    }
}

impl SessionSelectorHeader {
    /// The title.
    pub open spec fn title(&self) -> Seq<char> {
        match self.scope {
            SessionScope::Current => "Resume Session (Current Folder)"@,
            SessionScope::All => "Resume Session (All)"@,
        }
    }

    /// How the load stands.
    pub open spec fn progress_text(&self) -> Seq<char> {
        match self.load_progress {
            Some((loaded, total)) => decimal(loaded as nat) + "/"@ + decimal(total as nat),
            None => "..."@,
        }
    }

    /// The scope, or how its load stands.
    pub open spec fn scope_spans(&self) -> Seq<SpanView> {
        if self.loading {
            seq![
                colored(ThemeColor::Muted, "○ Current Folder | "@),
                colored(ThemeColor::Accent, "Loading "@ + self.progress_text()),
            ]
        } else if self.scope == SessionScope::Current {
            seq![
                colored(ThemeColor::Accent, "◉ Current Folder"@),
                colored(ThemeColor::Muted, " | ○ All"@),
            ]
        } else {
            seq![
                colored(ThemeColor::Muted, "○ Current Folder | "@),
                colored(ThemeColor::Accent, "◉ All"@),
            ]
        }
    }

    /// The right side of the first line: scope, name filter and sort mode.
    pub open spec fn right_spans(&self) -> Seq<SpanView> {
        self.scope_spans() + seq![
            plain("  "@),
            colored(ThemeColor::Muted, "Name: "@),
            colored(ThemeColor::Accent, name_label(self.name_filter)),
            plain("  "@),
            colored(ThemeColor::Muted, "Sort: "@),
            colored(ThemeColor::Accent, sort_label(self.sort_mode)),
        ]
    }

    /// The first line under the title: the confirmation of a deletion, the status, or hints.
    pub open spec fn first_hint(&self, table: KeyTable) -> HintLineView {
        if self.confirming_delete_path is Some {
            HintLineView {
                color: Some(ThemeColor::Error),
                spans: seq![plain("Delete session? "@)] + hint_spans(
                    bound_text(table, "tui.select.confirm"@),
                    "confirm"@,
                ) + seq![plain(" · "@)] + hint_spans(
                    bound_text(table, "tui.select.cancel"@),
                    "cancel"@,
                ),
            }
        } else {
            match self.status_message {
                Some(status) => HintLineView {
                    color: Some(
                        if status.is_error {
                            ThemeColor::Error
                        } else {
                            ThemeColor::Accent
                        },
                    ),
                    spans: seq![plain(status.message@)],
                },
                None => HintLineView {
                    color: None,
                    spans: hint_spans(bound_text(table, "tui.input.tab"@), "scope"@) + seq![
                        hint_separator(),
                        colored(ThemeColor::Muted, "re:<pattern> regex · \"phrase\" exact"@),
                    ],
                },
            }
        }
    }

    /// The second line under the title: more hints, when the first line is not taken.
    pub open spec fn second_hint(&self, table: KeyTable) -> HintLineView {
        if self.confirming_delete_path is Some || self.status_message is Some {
            empty_hint()
        } else {
            let hints = hint_spans(bound_text(table, "app.session.toggleSort"@), "sort"@) + seq![
                hint_separator(),
            ] + hint_spans(bound_text(table, "app.session.toggleNamedFilter"@), "named"@) + seq![
                hint_separator(),
            ] + hint_spans(bound_text(table, "app.session.delete"@), "delete"@) + seq![
                hint_separator(),
            ] + hint_spans(
                bound_text(table, "app.session.togglePath"@),
                if self.show_path {
                    "path (on)"@
                } else {
                    "path (off)"@
                },
            );
            HintLineView {
                color: None,
                spans: if self.show_rename_hint {
                    hints + seq![hint_separator()] + hint_spans(
                        bound_text(table, "app.session.rename"@),
                        "rename"@,
                    )
                } else {
                    hints
                },
            }
        }
    }

    #[must_use]
    pub fn new(scope: SessionScope, sort_mode: SortMode, name_filter: NameFilter) -> (r: Self)
        ensures
            r == (SessionSelectorHeader {
                scope,
                sort_mode,
                name_filter,
                loading: false,
                load_progress: None,
                show_path: false,
                confirming_delete_path: None,
                status_message: None,
                status_deadline: None,
                show_rename_hint: false,
            }),
    {
        SessionSelectorHeader {
            scope,
            sort_mode,
            name_filter,
            loading: false,
            load_progress: None,
            show_path: false,
            confirming_delete_path: None,
            status_message: None,
            status_deadline: None,
            show_rename_hint: false,
        }
    }

    pub fn set_scope(&mut self, scope: SessionScope)
        ensures
            *final(self) == (SessionSelectorHeader { scope, ..*old(self) }),
    {
        self.scope = scope;
    }

    pub fn set_sort_mode(&mut self, sort_mode: SortMode)
        ensures
            *final(self) == (SessionSelectorHeader { sort_mode, ..*old(self) }),
    {
        self.sort_mode = sort_mode;
    }

    pub fn set_name_filter(&mut self, name_filter: NameFilter)
        ensures
            *final(self) == (SessionSelectorHeader { name_filter, ..*old(self) }),
    {
        self.name_filter = name_filter;
    }

    /// Sets whether a load runs. Progress belongs to one load, so it is cleared either way.
    pub fn set_loading(&mut self, loading: bool)
        ensures
            *final(self) == (SessionSelectorHeader { loading, load_progress: None, ..*old(self) }),
    {
        self.loading = loading;
        self.load_progress = None;
    }

    pub fn set_progress(&mut self, loaded: usize, total: usize)
        ensures
            *final(self) == (SessionSelectorHeader {
                load_progress: Some((loaded, total)),
                ..*old(self)
            }),
    {
        self.load_progress = Some((loaded, total));
    }

    pub fn set_show_path(&mut self, show_path: bool)
        ensures
            *final(self) == (SessionSelectorHeader { show_path, ..*old(self) }),
    {
        self.show_path = show_path;
    }

    pub fn set_show_rename_hint(&mut self, show: bool)
        ensures
            *final(self) == (SessionSelectorHeader { show_rename_hint: show, ..*old(self) }),
    {
        self.show_rename_hint = show;
    }

    pub fn set_confirming_delete_path(&mut self, path: Option<String>)
        ensures
            *final(self) == (SessionSelectorHeader { confirming_delete_path: path, ..*old(self) }),
    {
        self.confirming_delete_path = path;
    }

    /// Shows a status message, or none. With `auto_hide_ms`, the message disappears that long after
    /// `now_ms`.
    pub fn set_status_message(
        &mut self,
        msg: Option<StatusMessage>,
        auto_hide_ms: Option<u64>,
        now_ms: u64,
    )
        ensures
            *final(self) == (SessionSelectorHeader {
                status_message: msg,
                status_deadline: if msg is Some && auto_hide_ms is Some {
                    Some(
                        if now_ms + auto_hide_ms->0 <= u64::MAX {
                            (now_ms + auto_hide_ms->0) as u64
                        } else {
                            u64::MAX
                        },
                    )
                } else {
                    None
                },
                ..*old(self)
            }),
    {
        self.status_deadline = None;
        if msg.is_some() {
            if let Some(auto_hide_ms) = auto_hide_ms {
                self.status_deadline = Some(now_ms.saturating_add(auto_hide_ms));
            }
        }
        self.status_message = msg;
    }

    /// Drops a status message whose time has passed.
    pub fn expire_status(&mut self, now_ms: u64)
        ensures
            *final(self) == old(self).expired(now_ms),
    {
        if let Some(deadline) = self.status_deadline {
            if now_ms >= deadline {
                self.status_message = None;
                self.status_deadline = None;
            }
        }
    }

    /// The left side of the first line.
    pub fn left_line(&self) -> (r: Span)
        ensures
            r@ == bolded(self.title()),
    {
        match self.scope {
            SessionScope::Current => bold("Resume Session (Current Folder)"),
            SessionScope::All => bold("Resume Session (All)"),
        }
    }

    /// The right side of the first line.
    pub fn right_line(&self) -> (r: Vec<Span>)
        ensures
            spans(r@) == self.right_spans(),
    {
        let mut line: Vec<Span> = Vec::new();
        if self.loading {
            let progress = match self.load_progress {
                Some((loaded, total)) => decimal_str(loaded as u128).concat("/").concat(
                    decimal_str(total as u128).as_str(),
                ),
                None => "...".to_owned(),
            };
            let label = "Loading ".to_owned().concat(progress.as_str());
            push_span(&mut line, fg(ThemeColor::Muted, "○ Current Folder | "));
            push_span(&mut line, fg(ThemeColor::Accent, label.as_str()));
        } else if self.scope == SessionScope::Current {
            push_span(&mut line, fg(ThemeColor::Accent, "◉ Current Folder"));
            push_span(&mut line, fg(ThemeColor::Muted, " | ○ All"));
        } else {
            push_span(&mut line, fg(ThemeColor::Muted, "○ Current Folder | "));
            push_span(&mut line, fg(ThemeColor::Accent, "◉ All"));
        }
        assert(spans(line@) =~= self.scope_spans());
        push_span(&mut line, raw("  "));
        push_span(&mut line, fg(ThemeColor::Muted, "Name: "));
        let name = match self.name_filter {
            NameFilter::All => "All",
            NameFilter::Named => "Named",
        };
        push_span(&mut line, fg(ThemeColor::Accent, name));
        push_span(&mut line, raw("  "));
        push_span(&mut line, fg(ThemeColor::Muted, "Sort: "));
        let sort = match self.sort_mode {
            SortMode::Threaded => "Threaded",
            SortMode::Recent => "Recent",
            SortMode::Relevance => "Fuzzy",
        };
        push_span(&mut line, fg(ThemeColor::Accent, sort));
        assert(spans(line@) =~= self.right_spans());
        line
    }

    /// The first line under the title.
    pub fn first_hint_line(&self, table: &KeyTable) -> (r: HintLine)
        ensures
            r@ == self.first_hint(*table),
    {
        let mut line: Vec<Span> = Vec::new();
        if self.confirming_delete_path.is_some() {
            push_span(&mut line, raw("Delete session? "));
            append_spans(&mut line, key_hint(table, "tui.select.confirm", "confirm"));
            push_span(&mut line, raw(" · "));
            append_spans(&mut line, key_hint(table, "tui.select.cancel", "cancel"));
            assert(spans(line@) =~= self.first_hint(*table).spans);
            return HintLine { color: Some(ThemeColor::Error), spans: line };
        }
        match &self.status_message {
            Some(status) => {
                let color = if status.is_error {
                    ThemeColor::Error
                } else {
                    ThemeColor::Accent
                };
                push_span(&mut line, raw(status.message.as_str()));
                assert(spans(line@) =~= self.first_hint(*table).spans);
                HintLine { color: Some(color), spans: line }
            },
            None => {
                append_spans(&mut line, key_hint(table, "tui.input.tab", "scope"));
                push_span(&mut line, fg(ThemeColor::Muted, " · "));
                push_span(
                    &mut line,
                    fg(ThemeColor::Muted, "re:<pattern> regex · \"phrase\" exact"),
                );
                assert(spans(line@) =~= self.first_hint(*table).spans);
                HintLine { color: None, spans: line }
            },
        }
    }

    /// The second line under the title.
    pub fn second_hint_line(&self, table: &KeyTable) -> (r: HintLine)
        ensures
            r@ == self.second_hint(*table),
    {
        let mut line: Vec<Span> = Vec::new();
        if self.confirming_delete_path.is_some() || self.status_message.is_some() {
            assert(spans(line@) =~= Seq::empty());
            return HintLine { color: None, spans: line };
        }
        append_spans(&mut line, key_hint(table, "app.session.toggleSort", "sort"));
        push_span(&mut line, fg(ThemeColor::Muted, " · "));
        append_spans(&mut line, key_hint(table, "app.session.toggleNamedFilter", "named"));
        push_span(&mut line, fg(ThemeColor::Muted, " · "));
        append_spans(&mut line, key_hint(table, "app.session.delete", "delete"));
        push_span(&mut line, fg(ThemeColor::Muted, " · "));
        let path_label = if self.show_path {
            "path (on)"
        } else {
            "path (off)"
        };
        append_spans(&mut line, key_hint(table, "app.session.togglePath", path_label));
        if self.show_rename_hint {
            push_span(&mut line, fg(ThemeColor::Muted, " · "));
            append_spans(&mut line, key_hint(table, "app.session.rename", "rename"));
        }
        assert(spans(line@) =~= self.second_hint(*table).spans);
        HintLine { color: None, spans: line }
    }
}

/// The columns left for the left side of the first line, next to a right side of `right_width`.
pub open spec fn left_room(width: int, right_width: int) -> int {
    if width > right_width {
        width - right_width - 1
    } else {
        0
    }
}

/// The columns left for the left side of the first line, next to a right side of `right_width`.
pub fn left_columns(width: usize, right_width: usize) -> (r: usize)
    ensures
        r == left_room(width as int, right_width as int),
{
    if width > right_width {
        width - right_width - 1
    } else {
        0
    }
}

/// The columns between the two sides of the first line.
pub fn header_spacing(width: usize, left_width: usize, right_width: usize) -> (r: usize)
    ensures
        r == if width > left_width + right_width {
            width - left_width - right_width
        } else {
            0
        },
{
    if width > left_width && width - left_width > right_width {
        width - left_width - right_width
    } else {
        0
    }
}

/// The first line of the header: the title, cut to the columns that are left for it, and the right
/// side at the end of the width.
pub open spec fn title_line(
    left: Seq<char>,
    left_width: int,
    right: Seq<SpanView>,
    right_width: int,
    width: int,
) -> Seq<SpanView> {
    let spacing = if width > left_width + right_width {
        (width - left_width - right_width) as nat
    } else {
        0
    };
    seq![bolded(left), plain(repeat(' ', spacing))] + right
}

/// How wide the two sides of the first line are: the right one cut to the width, and the left one to
/// the columns left beside it.
#[derive(Debug)]
pub struct HeaderCuts {
    pub left: TextCut,
    pub right: LineCut,
}

impl HeaderCuts {
    /// The columns that the right side takes.
    pub open spec fn right_width(self, width: int) -> int {
        fitted_width(self.right.width as int, self.right.cut.width as int, width, 0)
    }

    /// Whether the sides that are too wide were cut to the columns left for them.
    pub open spec fn fits(self, width: int) -> bool {
        &&& is_cut(self.right.width as int, self.right.cut.width as int, width, 0)
        &&& is_cut(
            self.left.width as int,
            self.left.cut.width as int,
            left_room(width, self.right_width(width)),
            0,
        )
    }
}

impl SessionSelectorHeader {
    /// The first line of the header.
    pub open spec fn title_spans(&self, cuts: HeaderCuts, width: int) -> Seq<SpanView> {
        let room = left_room(width, cuts.right_width(width));
        title_line(
            fitted_text(
                self.title(),
                cuts.left.width as int,
                cuts.left.cut.text@,
                room,
                Seq::empty(),
            ),
            fitted_width(cuts.left.width as int, cuts.left.cut.width as int, room, 0),
            fitted_line(
                self.right_spans(),
                cuts.right.width as int,
                spans(cuts.right.cut.spans@),
                width,
                plain(Seq::empty()),
            ),
            cuts.right_width(width),
            width,
        )
    }

    /// The header after a status message whose time has passed is dropped.
    pub open spec fn expired(self, now_ms: u64) -> SessionSelectorHeader {
        if self.status_deadline is Some && now_ms >= self.status_deadline->0 {
            SessionSelectorHeader { status_message: None, status_deadline: None, ..self }
        } else {
            self
        }
    }

    /// The three lines of the header.
    pub fn render(
        &mut self,
        table: &KeyTable,
        now_ms: u64,
        cuts: HeaderCuts,
        width: u16,
    ) -> (r: (Vec<Span>, HintLine, HintLine))
        requires
            cuts.fits(width as int),
        ensures
            *final(self) == old(self).expired(now_ms),
            spans(r.0@) == old(self).expired(now_ms).title_spans(cuts, width as int),
            r.1@ == old(self).expired(now_ms).first_hint(*table),
            r.2@ == old(self).expired(now_ms).second_hint(*table),
    {
        self.expire_status(now_ms);
        proof {
            reveal_strlit("");
            assert(""@ =~= Seq::empty());
        }
        let ghost given = cuts;
        let right = fit_line(self.right_line(), cuts.right, width as usize, raw(""));
        let columns = left_columns(width as usize, right.width);
        let left = fit_text(self.left_line().text.as_str(), &cuts.left, columns, "");
        let title = first_line(&left, right.spans, right.width, width as usize);
        assert(spans(title@) == self.title_spans(given, width as int));
        (title, self.first_hint_line(table), self.second_hint_line(table))
    }
}

/// The first line of the header, from its two sides as they were cut.
pub fn first_line(left: &Measured, right: Vec<Span>, right_width: usize, width: usize) -> (r: Vec<
    Span,
>)
    ensures
        spans(r@) == title_line(
            left.text@,
            left.width as int,
            spans(right@),
            right_width as int,
            width as int,
        ),
{
    let mut line: Vec<Span> = Vec::new();
    push_span(&mut line, bold(left.text.as_str()));
    let mut fill = String::new();
    let spacing = header_spacing(width, left.width, right_width);
    push_repeat(&mut fill, ' ', spacing);
    assert(fill@ =~= repeat(' ', spacing as nat));
    push_span(&mut line, raw(fill.as_str()));
    append_spans(&mut line, right);
    assert(spans(line@) =~= title_line(
        left.text@,
        left.width as int,
        spans(right@),
        right_width as int,
        width as int,
    ));
    line
}

} // verus!
