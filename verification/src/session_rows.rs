//! What the session list shows: its rows, the window it scrolls, and the
//! messages it shows in place of rows.

use crate::fitting::{fit_text, fitted_text, fitted_width, is_cut, TextCut};
use crate::keybinding_hints::{bound_text, key_text, KeyTable};
use crate::scroll::{visible_range, window_end, window_start};
use crate::session::SessionInfo;
use crate::session_selector::{
    format_session_date, session_age, shorten_path_with_home, shortened_path, SessionList,
    MAX_VISIBLE,
};
use crate::session_selector_search::NameFilter;
use crate::session_tree::{FlatSessionNode, FlatView};
use crate::style::{
    colored, fg, plain, push_span, raw, spans, Measured, Span, SpanView, ThemeBg, ThemeColor,
};
use crate::text::{
    chars_of, decimal, decimal_str, push_char, push_repeat, repeat, str_eq, string_of, trim,
    trim_slice,
};
use crate::transcript::{cut_line, pieces, plain_row, push_piece, Piece, PieceView};
use vstd::prelude::*;
use vstd::string::*;

verus! {

broadcast use vstd::string::group_string_axioms;

/// One session as the list shows it.
#[derive(Debug, PartialEq, Eq)]
pub struct SessionRow {
    pub prefix: String,
    pub message: String,
    pub message_color: Option<ThemeColor>,
    pub right: String,
    pub right_color: ThemeColor,
    pub selected: bool,
}

/// The content of a row.
#[verifier::ext_equal]
pub struct RowView {
    pub prefix: Seq<char>,
    pub message: Seq<char>,
    pub message_color: Option<ThemeColor>,
    pub right: Seq<char>,
    pub right_color: ThemeColor,
    pub selected: bool,
}

impl View for SessionRow {
    type V = RowView;

    open spec fn view(&self) -> RowView {
        RowView {
            prefix: self.prefix@,
            message: self.message@,
            message_color: self.message_color,
            right: self.right@,
            right_color: self.right_color,
            selected: self.selected,
        }
    }
}

/// The contents of a list of rows.
pub open spec fn row_views(rows: Seq<SessionRow>) -> Seq<RowView> {
    rows.map_values(|r: SessionRow| r@)
}

/// The lines that connect the ancestors of a node to their siblings.
pub open spec fn ancestor_lines(continues: Seq<bool>) -> Seq<char>
    decreases continues.len(),
{
    if continues.len() == 0 {
        Seq::empty()
    } else {
        ancestor_lines(continues.drop_last()) + if continues.last() {
            "│  "@
        } else {
            "   "@
        }
    }
}

/// The lines that connect a node to its parent and its siblings.
pub open spec fn tree_prefix(node: FlatView) -> Seq<char> {
    if node.depth == 0 {
        Seq::empty()
    } else {
        ancestor_lines(node.ancestor_continues) + if node.is_last {
            "└─ "@
        } else {
            "├─ "@
        }
    }
}

/// Whether the character is an ASCII control character.
pub open spec fn is_control(c: char) -> bool {
    (c as u32) < 0x20 || c as u32 == 0x7f
}

/// The text with each control character made a space, trimmed.
pub open spec fn single_line(text: Seq<char>) -> Seq<char> {
    trim(
        text.map_values(
            |c: char|
                if is_control(c) {
                    ' '
                } else {
                    c
                },
        ),
    )
}

/// The text with each control character made a space, trimmed.
pub fn to_single_line(text: &str) -> (r: String)
    ensures
        r@ == single_line(text@),
{
    let chars = chars_of(text);
    let ghost mapped = text@.map_values(
        |c: char|
            if is_control(c) {
                ' '
            } else {
                c
            },
    );
    let mut out: Vec<char> = Vec::new();
    let mut i: usize = 0;
    while i < chars.len()
        invariant
            i <= chars.len(),
            chars@ == text@,
            mapped == text@.map_values(
                |c: char|
                    if is_control(c) {
                        ' '
                    } else {
                        c
                    },
            ),
            out@ =~= mapped.take(i as int),
        decreases chars.len() - i,
    {
        let c = chars[i];
        if (c as u32) < 0x20 || c as u32 == 0x7f {
            out.push(' ');
        } else {
            out.push(c);
        }
        i = i + 1;
    }
    assert(out@ =~= mapped);
    string_of(trim_slice(out.as_slice()))
}

/// What a session is shown by: its name, or its first message.
pub open spec fn display_text(session: SessionInfo) -> Seq<char> {
    match session.name {
        Some(name) => name@,
        None => session.first_message@,
    }
}

/// The right side of a row: path, working directory, message count and age.
pub open spec fn right_text(
    session: SessionInfo,
    show_cwd: bool,
    show_path: bool,
    now_ms: int,
    home: Option<Seq<char>>,
) -> Seq<char> {
    let base = decimal(session.message_count as nat) + seq![' '] + session_age(
        now_ms - session.modified_ms,
    );
    let with_cwd = if show_cwd && session.cwd@.len() > 0 {
        shortened_path(session.cwd@, home) + seq![' '] + base
    } else {
        base
    };
    if show_path {
        shortened_path(session.path@, home) + seq![' '] + with_cwd
    } else {
        with_cwd
    }
}

impl SessionList {
    /// Whether the deletion of the path waits for confirmation.
    pub open spec fn is_confirming(&self, path: Seq<char>) -> bool {
        match self.confirming_delete_path {
            Some(confirming) => confirming@ == path,
            None => false,
        }
    }

    /// The color of a session's message.
    pub open spec fn message_color(&self, session: SessionInfo) -> Option<ThemeColor> {
        if self.is_confirming(session.path@) {
            Some(ThemeColor::Error)
        } else if self.is_current(session.path@) {
            Some(ThemeColor::Accent)
        } else if session.name is Some && session.name->0@.len() > 0 {
            Some(ThemeColor::Warning)
        } else {
            None
        }
    }

    /// The row at index `i`.
    pub open spec fn row(&self, i: int, now_ms: int, home: Option<Seq<char>>) -> RowView {
        let node = self.filtered_sessions@[i];
        RowView {
            prefix: tree_prefix(node@),
            message: single_line(display_text(node.session)),
            message_color: self.message_color(node.session),
            right: right_text(node.session, self.show_cwd, self.show_path, now_ms, home),
            right_color: if self.is_confirming(node.session.path@) {
                ThemeColor::Error
            } else {
                ThemeColor::Dim
            },
            selected: i == self.selected_index,
        }
    }

    /// The index of the first row in the window.
    pub open spec fn first_visible(&self) -> int {
        window_start(
            self.selected_index as int,
            self.filtered_sessions@.len() as int,
            MAX_VISIBLE as int,
        )
    }

    /// The index after the last row in the window.
    pub open spec fn end_visible(&self) -> int {
        window_end(
            self.selected_index as int,
            self.filtered_sessions@.len() as int,
            MAX_VISIBLE as int,
        )
    }

    /// What is shown when no session is listed.
    pub open spec fn empty_text(&self, table: KeyTable) -> Seq<char> {
        let key = bound_text(table, "app.session.toggleNamedFilter"@);
        if self.name_filter == NameFilter::Named {
            if self.show_cwd {
                "  No named sessions found. Press "@ + key + " to show all."@
            } else {
                "  No named sessions in current folder. Press "@ + key
                    + " to show all, or Tab to view all."@
            }
        } else if self.show_cwd {
            "  No sessions found"@
        } else {
            "  No sessions in current folder. Press Tab to view all."@
        }
    }

    /// The lines that connect a node to its parent and its siblings.
    pub fn build_tree_prefix(node: &FlatSessionNode) -> (r: String)
        ensures
            r@ == tree_prefix(node@),
    {
        let mut prefix = String::new();
        if node.depth == 0 {
            return prefix;
        }
        let mut i: usize = 0;
        while i < node.ancestor_continues.len()
            invariant
                i <= node.ancestor_continues.len(),
                prefix@ == ancestor_lines(node.ancestor_continues@.take(i as int)),
            decreases node.ancestor_continues.len() - i,
        {
            assert(node.ancestor_continues@.take(i as int + 1).drop_last()
                =~= node.ancestor_continues@.take(i as int));
            if node.ancestor_continues[i] {
                prefix.append("│  ");
            } else {
                prefix.append("   ");
            }
            i = i + 1;
        }
        assert(node.ancestor_continues@.take(i as int) =~= node.ancestor_continues@);
        if node.is_last {
            prefix.append("└─ ");
        } else {
            prefix.append("├─ ");
        }
        prefix
    }

    /// What is shown when no session is listed.
    pub fn empty_message(&self, table: &KeyTable) -> (r: String)
        ensures
            r@ == self.empty_text(*table),
    {
        if self.name_filter == NameFilter::Named {
            let key = key_text(table, "app.session.toggleNamedFilter");
            if self.show_cwd {
                "  No named sessions found. Press ".to_owned().concat(key.as_str()).concat(
                    " to show all.",
                )
            } else {
                "  No named sessions in current folder. Press ".to_owned().concat(
                    key.as_str(),
                ).concat(" to show all, or Tab to view all.")
            }
        } else if self.show_cwd {
            "  No sessions found".to_owned()
        } else {
            "  No sessions in current folder. Press Tab to view all.".to_owned()
        }
    }

    fn right_part(&self, session: &SessionInfo, now_ms: i64, home: Option<&str>) -> (r: String)
        ensures
            r@ == right_text(
                *session,
                self.show_cwd,
                self.show_path,
                now_ms as int,
                match home {
                    Some(home) => Some(home@),
                    None => None,
                },
            ),
    {
        let mut right = decimal_str(session.message_count as u128);
        push_char(&mut right, ' ');
        let age = format_session_date(session.modified_ms, now_ms);
        right.append(age.as_str());
        assert(right@ =~= decimal(session.message_count as nat) + seq![' '] + age@);
        if self.show_cwd && !session.cwd.as_str().is_empty() {
            let ghost base = right@;
            let mut with_cwd = shorten_path_with_home(session.cwd.as_str(), home);
            let ghost short = with_cwd@;
            push_char(&mut with_cwd, ' ');
            with_cwd.append(right.as_str());
            assert(with_cwd@ =~= short + seq![' '] + base);
            right = with_cwd;
        }
        if self.show_path {
            let ghost base = right@;
            let mut with_path = shorten_path_with_home(session.path.as_str(), home);
            let ghost short = with_path@;
            push_char(&mut with_path, ' ');
            with_path.append(right.as_str());
            assert(with_path@ =~= short + seq![' '] + base);
            right = with_path;
        }
        right
    }

    fn build_row(&self, i: usize, now_ms: i64, home: Option<&str>) -> (r: SessionRow)
        requires
            i < self.filtered_sessions@.len(),
        ensures
            r@ == self.row(
                i as int,
                now_ms as int,
                match home {
                    Some(home) => Some(home@),
                    None => None,
                },
            ),
    {
        let node = &self.filtered_sessions[i];
        let session = &node.session;
        let confirming = match &self.confirming_delete_path {
            Some(path) => str_eq(path.as_str(), session.path.as_str()),
            None => false,
        };
        let has_name = match &session.name {
            Some(name) => !name.as_str().is_empty(),
            None => false,
        };
        let message = match &session.name {
            Some(name) => to_single_line(name.as_str()),
            None => to_single_line(session.first_message.as_str()),
        };
        let message_color = if confirming {
            Some(ThemeColor::Error)
        } else if self.is_current_session_path(session.path.as_str()) {
            Some(ThemeColor::Accent)
        } else if has_name {
            Some(ThemeColor::Warning)
        } else {
            None
        };
        SessionRow {
            prefix: Self::build_tree_prefix(node),
            message,
            message_color,
            right: self.right_part(session, now_ms, home),
            right_color: if confirming {
                ThemeColor::Error
            } else {
                ThemeColor::Dim
            },
            selected: i == self.selected_index,
        }
    }

    /// The rows in the window, with ages relative to `now_ms`.
    pub fn visible_rows(&self, now_ms: i64, home: Option<&str>) -> (r: Vec<SessionRow>)
        ensures
            row_views(r@) == self.window(
                now_ms as int,
                match home {
                    Some(home) => Some(home@),
                    None => None,
                },
            ),
    {
        let (start, end) = visible_range(
            self.selected_index,
            self.filtered_sessions.len(),
            MAX_VISIBLE,
        );
        let ghost home_text = match home {
            Some(home) => Some(home@),
            None => None,
        };
        let mut rows: Vec<SessionRow> = Vec::new();
        let mut i: usize = start;
        while i < end
            invariant
                start <= i,
                i <= end || start > end,
                end <= self.filtered_sessions@.len(),
                home_text == (match home {
                    Some(home) => Some(home@),
                    None => None,
                }),
                row_views(rows@) =~= Seq::new(
                    (i - start) as nat,
                    |k: int| self.row(start + k, now_ms as int, home_text),
                ),
            decreases end - i,
        {
            let ghost before = rows@;
            rows.push(self.build_row(i, now_ms, home));
            assert(row_views(rows@) =~= row_views(before).push(rows@.last()@));
            i = i + 1;
        }
        rows
    }

    /// The position shown under the rows when some of them are outside the window.
    pub fn scroll_text(&self) -> (r: Option<String>)
        ensures
            match r {
                Some(text) => {
                    &&& self.first_visible() > 0 || self.end_visible()
                        < self.filtered_sessions@.len()
                    &&& text@ == position_label(
                        self.selected_index as nat,
                        self.filtered_sessions@.len(),
                    )
                },
                None => self.first_visible() <= 0 && self.end_visible()
                    >= self.filtered_sessions@.len(),
            },
    {
        let (start, end) = visible_range(
            self.selected_index,
            self.filtered_sessions.len(),
            MAX_VISIBLE,
        );
        if start > 0 || end < self.filtered_sessions.len() {
            Some(position_text(self.selected_index, self.filtered_sessions.len()))
        } else {
            None
        }
    }
}

/// A position in a list: `  (3/12)`.
pub open spec fn position_label(selected: nat, len: nat) -> Seq<char> {
    "  ("@ + decimal(selected + 1) + "/"@ + decimal(len) + ")"@
}

/// A position in a list: `  (3/12)`.
pub fn position_text(selected: usize, len: usize) -> (r: String)
    ensures
        r@ == position_label(selected as nat, len as nat),
{
    let at = decimal_str(selected as u128 + 1);
    let count = decimal_str(len as u128);
    "  (".to_owned().concat(at.as_str()).concat("/").concat(count.as_str()).concat(")")
}

/// The columns left for a row's message: what the cursor, the prefix and the right side leave of the
/// width, and never less than ten.
pub open spec fn message_room(width: int, prefix_width: int, right_width: int) -> int {
    if width - 4 - prefix_width - right_width > 10 {
        width - 4 - prefix_width - right_width
    } else {
        10
    }
}

/// The columns left for a row's message.
pub fn message_columns(width: u16, prefix_width: usize, right_width: usize) -> (r: usize)
    ensures
        r == message_room(width as int, prefix_width as int, right_width as int),
{
    let left: i128 = width as i128 - 4 - prefix_width as i128 - right_width as i128;
    if left > 10 {
        left as usize
    } else {
        10
    }
}

/// The columns between the two sides of a row: what they leave of the width, and at least one.
pub fn row_spacing(width: u16, left_width: u128, right_width: usize) -> (r: usize)
    ensures
        r == gap(width as int, left_width as int, right_width as int),
{
    let width: u128 = width as u128;
    if left_width < width && width - left_width > right_width as u128 + 1 {
        (width - left_width - right_width as u128) as usize
    } else {
        1
    }
}

/// The columns between the two sides of a row.
pub open spec fn gap(width: int, left_width: int, right_width: int) -> nat {
    if width - left_width - right_width > 1 {
        (width - left_width - right_width) as nat
    } else {
        1
    }
}

impl RowView {
    /// The line of the row, with its message cut to the columns that are left for it: the cursor,
    /// the connecting lines and the message on the left, and the rest on the right.
    pub open spec fn line(
        self,
        message: Seq<char>,
        message_width: int,
        prefix_width: int,
        right_width: int,
        width: int,
    ) -> Seq<SpanView> {
        seq![
            if self.selected {
                colored(ThemeColor::Accent, "› "@)
            } else {
                plain("  "@)
            },
            colored(ThemeColor::Dim, self.prefix),
            SpanView {
                text: message,
                color: self.message_color,
                bold: self.selected,
                italic: false,
            },
            plain(repeat(' ', gap(width, 2 + prefix_width + message_width, right_width))),
            colored(self.right_color, self.right),
        ]
    }
}

impl SessionRow {
    /// The line of the row, with its message cut to the columns that are left for it. The selected
    /// row has a background of its own.
    pub fn line(
        &self,
        message: &Measured,
        prefix_width: usize,
        right_width: usize,
        width: u16,
    ) -> (r: (Option<ThemeBg>, Vec<Span>))
        ensures
            r.0 == if self.selected {
                Some(ThemeBg::SelectedBg)
            } else {
                None
            },
            spans(r.1@) == self@.line(
                message.text@,
                message.width as int,
                prefix_width as int,
                right_width as int,
                width as int,
            ),
    {
        let mut line: Vec<Span> = Vec::new();
        if self.selected {
            push_span(&mut line, fg(ThemeColor::Accent, "› "));
        } else {
            push_span(&mut line, raw("  "));
        }
        push_span(&mut line, fg(ThemeColor::Dim, self.prefix.as_str()));
        push_span(
            &mut line,
            Span {
                text: message.text.clone(),
                color: self.message_color,
                bold: self.selected,
                italic: false,
            },
        );
        let mut fill = String::new();
        let spacing = row_spacing(
            width,
            2 + prefix_width as u128 + message.width as u128,
            right_width,
        );
        push_repeat(&mut fill, ' ', spacing);
        assert(fill@ =~= repeat(' ', spacing as nat));
        push_span(&mut line, raw(fill.as_str()));
        push_span(&mut line, fg(self.right_color, self.right.as_str()));
        assert(spans(line@) =~= self@.line(
            message.text@,
            message.width as int,
            prefix_width as int,
            right_width as int,
            width as int,
        ));
        let background = if self.selected {
            Some(ThemeBg::SelectedBg)
        } else {
            None
        };
        (background, line)
    }
}

/// How wide the parts of a row are, and its message cut to the columns left for it.
#[derive(Debug)]
pub struct RowCut {
    pub message: TextCut,
    pub prefix_width: usize,
    pub right_width: usize,
}

impl RowCut {
    /// The columns left for the message.
    pub open spec fn room(self, width: int) -> int {
        message_room(width, self.prefix_width as int, self.right_width as int)
    }

    /// Whether the message, where it is too wide, was cut to the columns left for it.
    pub open spec fn fits(self, width: int) -> bool {
        is_cut(
            self.message.width as int,
            self.message.cut.width as int,
            self.room(width),
            "…"@.len() as int,
        )
    }
}

/// The piece of a row.
pub open spec fn row_piece(row: RowView, cut: RowCut, width: int) -> PieceView {
    PieceView::Row {
        spans: row.line(
            fitted_text(
                row.message,
                cut.message.width as int,
                cut.message.cut.text@,
                cut.room(width),
                "…"@,
            ),
            fitted_width(
                cut.message.width as int,
                cut.message.cut.width as int,
                cut.room(width),
                "…"@.len() as int,
            ),
            cut.prefix_width as int,
            cut.right_width as int,
            width,
        ),
        background: if row.selected {
            Some(ThemeBg::SelectedBg)
        } else {
            None
        },
        ellipsis: "..."@,
    }
}

impl SessionList {
    /// The contents of the rows in the window.
    pub open spec fn window(&self, now_ms: int, home: Option<Seq<char>>) -> Seq<RowView> {
        Seq::new(
            if self.first_visible() < self.end_visible() {
                (self.end_visible() - self.first_visible()) as nat
            } else {
                0
            },
            |k: int| self.row(self.first_visible() + k, now_ms, home),
        )
    }

    /// The pieces of the list: the search, and below it the rows in the window and the position, or
    /// a note that there are none.
    pub open spec fn screen(
        &self,
        table: KeyTable,
        rows: Seq<RowView>,
        cuts: Seq<RowCut>,
        width: int,
    ) -> Seq<PieceView> {
        let search = seq![PieceView::Input, PieceView::Spacer(1)];
        let len = self.filtered_sessions@.len();
        let shown = Seq::new(rows.len(), |k: int| row_piece(rows[k], cuts[k], width));
        if len == 0 {
            search.push(
                PieceView::Row {
                    spans: seq![colored(ThemeColor::Muted, self.empty_text(table))],
                    background: None,
                    ellipsis: "…"@,
                },
            )
        } else if self.first_visible() > 0 || self.end_visible() < len {
            (search + shown).push(
                cut_line(
                    seq![
                        colored(
                            ThemeColor::Muted,
                            position_label(self.selected_index as nat, len),
                        ),
                    ],
                ),
            )
        } else {
            search + shown
        }
    }

    /// The pieces of the list, given how each row in its window was cut.
    pub fn render(
        &self,
        table: &KeyTable,
        now_ms: i64,
        home: Option<&str>,
        cuts: &Vec<RowCut>,
        width: u16,
    ) -> (r: Vec<Piece>)
        requires
            cuts@.len() == if self.first_visible() < self.end_visible() {
                self.end_visible() - self.first_visible()
            } else {
                0
            },
            forall|k: int|
                0 <= k < cuts@.len() ==> (#[trigger] cuts@[k]).fits(width as int),
        ensures
            pieces(r@) == self.screen(
                *table,
                self.window(
                    now_ms as int,
                    match home {
                        Some(home) => Some(home@),
                        None => None,
                    },
                ),
                cuts@,
                width as int,
            ),
    {
        let rows = self.visible_rows(now_ms, home);
        assert(rows@.len() == row_views(rows@).len());
        let mut list: Vec<Piece> = Vec::new();
        push_piece(&mut list, Piece::Input);
        push_piece(&mut list, Piece::Spacer(1));
        let ghost search = seq![PieceView::Input, PieceView::Spacer(1)];
        let ghost views = row_views(rows@);
        let ghost shown = Seq::new(
            views.len(),
            |k: int| row_piece(views[k], cuts@[k], width as int),
        );
        assert(pieces(list@) =~= search);
        if self.filtered_sessions.len() == 0 {
            let message = self.empty_message(table);
            let mut line: Vec<Span> = Vec::new();
            push_span(&mut line, fg(ThemeColor::Muted, message.as_str()));
            assert(spans(line@) =~= seq![colored(ThemeColor::Muted, message@)]);
            push_piece(
                &mut list,
                Piece::Row { spans: line, background: None, ellipsis: "…".to_owned() },
            );
            assert(pieces(list@) =~= self.screen(*table, views, cuts@, width as int));
            return list;
        }
        let mut i: usize = 0;
        while i < rows.len()
            invariant
                i <= rows.len(),
                rows@.len() == cuts@.len(),
                forall|k: int|
                    0 <= k < cuts@.len() ==> (#[trigger] cuts@[k]).fits(width as int),
                views == row_views(rows@),
                shown == Seq::new(
                    views.len(),
                    |k: int| row_piece(views[k], cuts@[k], width as int),
                ),
                pieces(list@) =~= search + shown.take(i as int),
            decreases rows.len() - i,
        {
            let cut = &cuts[i];
            let ghost before = pieces(list@);
            let columns = message_columns(width, cut.prefix_width, cut.right_width);
            let message = fit_text(rows[i].message.as_str(), &cut.message, columns, "…");
            let (background, line) = rows[i].line(
                &message,
                cut.prefix_width,
                cut.right_width,
                width,
            );
            assert(views[i as int] == rows@[i as int]@);
            push_piece(
                &mut list,
                Piece::Row { spans: line, background, ellipsis: "...".to_owned() },
            );
            assert(pieces(list@) =~= before.push(shown[i as int]));
            i = i + 1;
        }
        assert(shown.take(i as int) =~= shown);
        if let Some(text) = self.scroll_text() {
            push_piece(&mut list, plain_row(fg(ThemeColor::Muted, text.as_str())));
        }
        assert(pieces(list@) =~= self.screen(*table, views, cuts@, width as int));
        list
    }
}

} // verus!
