//! Components that are laid out once for each width.

use crate::keybinding_hints::{bound_text, hint_spans, key_hint, KeyMatches, KeyTable};
use crate::style::{
    bold_colored, bold_fg, colored, fg, plain, push_span_line, raw, span_lines, Span, SpanView,
    ThemeColor,
};
use crate::text::{push_repeat, repeat};
use crate::transcript::{
    pieces, push_piece, single_line, single_span, text_piece, Piece, PieceView,
};
use vstd::prelude::*;
use vstd::string::*;

verus! {

broadcast use vstd::string::group_string_axioms;

/// Whether a component changed since it was last shown.
#[derive(Debug, Clone, Copy, PartialEq, Eq, Structural)]
pub enum RenderStatus {
    Changed,
    Unchanged,
}

/// The width that a component was last laid out for, until something else changes it.
#[derive(Debug, Clone, Copy, PartialEq, Eq, Structural)]
pub struct WidthCache {
    pub width: Option<u16>,
}

impl WidthCache {
    /// Nothing is laid out yet.
    pub fn new() -> (r: Self)
        ensures
            r.width is None,
    {
        WidthCache { width: None }
    }

    /// Takes the component to be shown in the width. It is unchanged exactly if that is the width
    /// that it was last laid out for.
    pub fn render(&mut self, width: u16) -> (r: RenderStatus)
        ensures
            final(self).width == Some(width),
            (r == RenderStatus::Unchanged) == (old(self).width == Some(width)),
    {
        let unchanged = match self.width {
            Some(w) => w == width,
            None => false,
        };
        self.width = Some(width);
        if unchanged {
            RenderStatus::Unchanged
        } else {
            RenderStatus::Changed
        }
    }

    /// Something else changed.
    pub fn invalidate(&mut self)
        ensures
            final(self).width is None,
    {
        self.width = None;
    }
}

/// A line across the width, at least one column wide.
#[derive(Debug)]
pub struct DynamicBorder {
    pub color: ThemeColor,
}

/// A line of some columns.
pub open spec fn rule(columns: nat) -> Seq<char> {
    repeat('─', columns)
}

/// A line of some columns.
pub fn rule_text(columns: usize) -> (r: String)
    ensures
        r@ == rule(columns as nat),
{
    let mut r = String::new();
    push_repeat(&mut r, '─', columns);
    assert(r@ =~= rule(columns as nat));
    r
}

impl DynamicBorder {
    /// A border in a color, by default that of borders.
    #[must_use]
    pub fn new(color: Option<ThemeColor>) -> (r: Self)
        ensures
            r.color == match color {
                Some(c) => c,
                None => ThemeColor::Border,
            },
    {
        DynamicBorder {
            color: match color {
                Some(c) => c,
                None => ThemeColor::Border,
            },
        }
    }

    /// The line.
    pub fn line(&self, width: u16) -> (r: Span)
        ensures
            r@ == colored(
                self.color,
                rule(
                    if width == 0 {
                        1
                    } else {
                        width as nat
                    },
                ),
            ),
    {
        let columns: usize = if width == 0 {
            1
        } else {
            width as usize
        };
        fg(self.color, rule_text(columns).as_str())
    }
}

/// Two empty lines in place of a status.
#[derive(Debug)]
pub struct IdleStatus {
    pub cache: WidthCache,
}

/// The two empty lines.
pub open spec fn idle_lines(width: nat) -> Seq<Seq<SpanView>> {
    seq![seq![plain(repeat(' ', width))], seq![plain(repeat(' ', width))]]
}

impl IdleStatus {
    /// Nothing is laid out yet.
    #[must_use]
    pub fn new() -> (r: Self)
        ensures
            r.cache.width is None,
    {
        IdleStatus { cache: WidthCache::new() }
    }

    /// The lines, and whether they changed.
    pub fn render(&mut self, width: u16) -> (r: (RenderStatus, Vec<Vec<Span>>))
        ensures
            final(self).cache.width == Some(width),
            (r.0 == RenderStatus::Unchanged) == (old(self).cache.width == Some(width)),
            span_lines(r.1@) == idle_lines(width as nat),
    {
        let status = self.cache.render(width);
        let mut empty = String::new();
        push_repeat(&mut empty, ' ', width as usize);
        assert(empty@ =~= repeat(' ', width as nat));
        let mut lines: Vec<Vec<Span>> = Vec::new();
        push_span_line(&mut lines, raw(empty.as_str()));
        push_span_line(&mut lines, raw(empty.as_str()));
        assert(span_lines(lines@) =~= idle_lines(width as nat));
        (status, lines)
    }
}

/// The address of the announcement.
pub const BLOG_URL: &'static str = "https://mariozechner.at/posts/2026-04-08-ive-sold-out/";

/// A line of spaces over the whole width.
pub open spec fn blank_line(width: nat) -> PieceView {
    PieceView::Line(seq![plain(repeat(' ', width))])
}

/// A rule over the whole width.
pub open spec fn rule_line(color: ThemeColor, width: nat) -> PieceView {
    PieceView::Line(seq![colored(color, rule(width))])
}

fn blank(width: u16) -> (r: Piece)
    ensures
        r@ == blank_line(width as nat),
{
    let mut empty = String::new();
    push_repeat(&mut empty, ' ', width as usize);
    assert(empty@ =~= repeat(' ', width as nat));
    single_line(raw(empty.as_str()))
}

fn ruled(color: ThemeColor, width: u16) -> (r: Piece)
    ensures
        r@ == rule_line(color, width as nat),
{
    single_line(fg(color, rule_text(width as usize).as_str()))
}

/// The pieces of the announcement, between two rules.
pub open spec fn announcement(width: nat) -> Seq<PieceView> {
    seq![
        rule_line(ThemeColor::Accent, width),
        text_piece(bold_colored(ThemeColor::Accent, "pi has joined Earendil"@), 1),
        blank_line(width),
        text_piece(colored(ThemeColor::Muted, "Read the blog post:"@), 1),
        text_piece(colored(ThemeColor::MdLink, BLOG_URL@), 1),
        blank_line(width),
        rule_line(ThemeColor::Accent, width),
    ]
}

/// The announcement.
#[derive(Debug)]
pub struct EarendilAnnouncement {
    pub cache: WidthCache,
}

impl EarendilAnnouncement {
    /// Nothing is laid out yet.
    #[must_use]
    pub fn new() -> (r: Self)
        ensures
            r.cache.width is None,
    {
        EarendilAnnouncement { cache: WidthCache::new() }
    }

    /// The pieces, and whether they changed.
    pub fn render(&mut self, width: u16) -> (r: (RenderStatus, Vec<Piece>))
        ensures
            final(self).cache.width == Some(width),
            (r.0 == RenderStatus::Unchanged) == (old(self).cache.width == Some(width)),
            pieces(r.1@) == announcement(width as nat),
    {
        let status = self.cache.render(width);
        let mut list: Vec<Piece> = Vec::new();
        push_piece(&mut list, ruled(ThemeColor::Accent, width));
        let title = bold_fg(ThemeColor::Accent, "pi has joined Earendil");
        push_piece(&mut list, single_span(title, 1));
        push_piece(&mut list, blank(width));
        push_piece(&mut list, single_span(fg(ThemeColor::Muted, "Read the blog post:"), 1));
        push_piece(&mut list, single_span(fg(ThemeColor::MdLink, BLOG_URL), 1));
        push_piece(&mut list, blank(width));
        push_piece(&mut list, ruled(ThemeColor::Accent, width));
        assert(pieces(list@) =~= announcement(width as nat));
        (status, list)
    }
}

/// A text with a short and a long form.
#[derive(Debug)]
pub struct ExpandableText {
    pub collapsed_text: String,
    pub expanded_text: String,
    pub expanded: bool,
    /// The empty columns at the sides.
    pub padding_x: usize,
    /// The empty lines above and below.
    pub padding_y: usize,
}

impl ExpandableText {
    /// The text in one of its forms.
    #[must_use]
    pub fn new(
        collapsed_text: String,
        expanded_text: String,
        expanded: bool,
        padding_x: usize,
        padding_y: usize,
    ) -> (r: Self)
        ensures
            r == (ExpandableText { collapsed_text, expanded_text, expanded, padding_x, padding_y }),
    {
        ExpandableText { collapsed_text, expanded_text, expanded, padding_x, padding_y }
    }

    /// Which form shows.
    pub fn set_expanded(&mut self, expanded: bool)
        ensures
            *final(self) == (ExpandableText { expanded, ..*old(self) }),
    {
        self.expanded = expanded;
    }

    /// The form that shows.
    pub fn text(&self) -> (r: &str)
        ensures
            r@ == if self.expanded {
                self.expanded_text@
            } else {
                self.collapsed_text@
            },
    {
        if self.expanded {
            self.expanded_text.as_str()
        } else {
            self.collapsed_text.as_str()
        }
    }
}

/// A loader between borders, which can be cancelled once.
#[derive(Debug)]
pub struct BorderedLoader {
    pub message: String,
    pub cancellable: bool,
    pub cancelled: bool,
}

impl BorderedLoader {
    /// A loader that can be cancelled.
    #[must_use]
    pub fn new(message: String) -> (r: Self)
        ensures
            r == (BorderedLoader { message, cancellable: true, cancelled: false }),
    {
        Self::with_cancellable(message, true)
    }

    /// A loader that can be cancelled or not.
    #[must_use]
    pub fn with_cancellable(message: String, cancellable: bool) -> (r: Self)
        ensures
            r == (BorderedLoader { message, cancellable, cancelled: false }),
    {
        BorderedLoader { message, cancellable, cancelled: false }
    }

    /// Whether it was cancelled.
    #[must_use]
    pub fn cancelled(&self) -> (r: bool)
        ensures
            r == self.cancelled,
    {
        self.cancelled
    }

    /// Replaces the message.
    pub fn set_message(&mut self, message: String)
        ensures
            *final(self) == (BorderedLoader { message, ..*old(self) }),
    {
        self.message = message;
    }

    /// Takes in a key press, and says whether it aborts what is loading.
    pub fn handle_input(&mut self, keys: &KeyMatches) -> (r: bool)
        ensures
            r == (old(self).cancellable && !old(self).cancelled && keys.has("tui.select.cancel"@)),
            *final(self) == (BorderedLoader {
                cancelled: old(self).cancelled || r,
                ..*old(self)
            }),
    {
        if self.cancellable && keys.matches("tui.select.cancel") && !self.cancelled {
            self.cancelled = true;
            true
        } else {
            false
        }
    }

    /// The pieces of the loader, between two rules.
    pub open spec fn block(&self, table: KeyTable, width: nat) -> Seq<PieceView> {
        let top = seq![
            rule_line(ThemeColor::Border, width),
            PieceView::Loader {
                message: self.message@,
                spinner: ThemeColor::Accent,
                message_color: ThemeColor::Muted,
            },
        ];
        let hint = seq![
            blank_line(width),
            PieceView::Line(hint_spans(bound_text(table, "tui.select.cancel"@), "cancel"@)),
        ];
        let bottom = seq![blank_line(width), rule_line(ThemeColor::Border, width)];
        if self.cancellable {
            top + hint + bottom
        } else {
            top + bottom
        }
    }

    /// The pieces of the loader, between two rules.
    pub fn render(&self, table: &KeyTable, width: u16) -> (r: Vec<Piece>)
        ensures
            pieces(r@) == self.block(*table, width as nat),
    {
        let mut list: Vec<Piece> = Vec::new();
        push_piece(&mut list, ruled(ThemeColor::Border, width));
        push_piece(
            &mut list,
            Piece::Loader {
                message: self.message.clone(),
                spinner: ThemeColor::Accent,
                message_color: ThemeColor::Muted,
            },
        );
        if self.cancellable {
            push_piece(&mut list, blank(width));
            push_piece(&mut list, Piece::Line(key_hint(table, "tui.select.cancel", "cancel")));
        }
        push_piece(&mut list, blank(width));
        push_piece(&mut list, ruled(ThemeColor::Border, width));
        assert(pieces(list@) =~= self.block(*table, width as nat));
        list
    }
}

/// An editor whose border tells that bash commands are entered.
#[derive(Debug)]
pub struct CustomEditor {
    pub bash_mode: bool,
}

impl CustomEditor {
    /// An editor for messages.
    #[must_use]
    pub fn new() -> (r: Self)
        ensures
            !r.bash_mode,
    {
        CustomEditor { bash_mode: false }
    }

    /// Switches the mode, and says whether the editor has to be laid out anew.
    pub fn set_bash_mode(&mut self, enabled: bool) -> (r: bool)
        ensures
            final(self).bash_mode == enabled,
            r == (old(self).bash_mode != enabled),
    {
        let changed = self.bash_mode != enabled;
        self.bash_mode = enabled;
        changed
    }

    /// Whether a line of the editor is in the color of bash commands: its borders are.
    pub fn is_colored(&self, line: usize, lines: usize) -> (r: bool)
        requires
            line < lines,
        ensures
            r == (self.bash_mode && (line == 0 || line == lines - 1)),
    {
        self.bash_mode && (line == 0 || line == lines - 1)
    }

    /// Whether the editor changed since it was last shown; with colored borders it always counts as
    /// changed.
    pub fn status(&self, inner: RenderStatus) -> (r: RenderStatus)
        ensures
            r == if self.bash_mode {
                RenderStatus::Changed
            } else {
                inner
            },
    {
        if self.bash_mode {
            RenderStatus::Changed
        } else {
            inner
        }
    }
}

} // verus!
