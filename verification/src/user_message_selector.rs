//! User message selector for branching.

use crate::fitting::{fit_text, fitted_text, is_cut, TextCut};
use crate::keybinding_hints::KeyMatches;
use crate::scroll::{
    valid_selection, visible_range, window_end, window_start, wrap_down, wrap_up, wrapped_down,
    wrapped_up,
};
use crate::session_rows::{position_label, position_text};
use crate::style::{
    bolded, colored, fg, plain, push_span, raw, spans, Span, SpanView, ThemeColor,
};
use crate::text::{chars_of, decimal, decimal_str, str_eq, string_of, trim, trim_slice};
use crate::transcript::{
    pieces, push_piece, push_pieces, single_line, single_span, text_piece, Piece, PieceView,
};
use vstd::prelude::*;
use vstd::string::*;

verus! {

broadcast use vstd::string::group_string_axioms;

/// How many messages are shown at once.
pub const MAX_VISIBLE: usize = 10;

/// What the selector says under its title.
pub const SUBTITLE: &'static str =
    "Select a user message to copy the active path up to that point into a new session";

/// One selectable user message.
#[derive(Debug)]
pub struct UserMessageItem {
    /// Entry ID in the session.
    pub id: String,
    /// The message text.
    pub text: String,
    /// Optional timestamp if available.
    pub timestamp: Option<String>,
}

/// What a key press asks for.
#[derive(Debug, PartialEq, Eq)]
pub enum UserMessageAction {
    Nothing,
    /// The entry with the id was chosen.
    Select(String),
    Cancel,
}

/// User messages from oldest to newest, with a selection.
#[derive(Debug)]
pub struct UserMessageList {
    pub messages: Vec<UserMessageItem>,
    pub selected_index: usize,
}

/// The two lines of a message.
#[derive(Debug)]
pub struct UserMessageRow {
    pub cursor: Span,
    /// The message on one line, to be cut to the width that is left.
    pub message: Span,
    pub metadata: Span,
}

/// The content of a row.
#[verifier::ext_equal]
pub struct UserMessageRowView {
    pub cursor: SpanView,
    pub message: SpanView,
    pub metadata: SpanView,
}

impl View for UserMessageRow {
    type V = UserMessageRowView;

    open spec fn view(&self) -> UserMessageRowView {
        UserMessageRowView {
            cursor: self.cursor@,
            message: self.message@,
            metadata: self.metadata@,
        }
    }
}

/// The contents of rows.
pub open spec fn row_views(rows: Seq<UserMessageRow>) -> Seq<UserMessageRowView> {
    rows.map_values(|r: UserMessageRow| r@)
}

/// The message on one line.
pub open spec fn one_line(text: Seq<char>) -> Seq<char> {
    trim(
        text.map_values(
            |c: char|
                if c == '\n' {
                    ' '
                } else {
                    c
                },
        ),
    )
}

/// The message on one line.
pub fn to_one_line(text: &str) -> (r: String)
    ensures
        r@ == one_line(text@),
{
    let chars = chars_of(text);
    let ghost mapped = text@.map_values(
        |c: char|
            if c == '\n' {
                ' '
            } else {
                c
            },
    );
    let mut out: Vec<char> = Vec::new();
    let mut i: usize = 0;
    while i < chars.len()
        invariant
            i <= chars.len(),
            chars@ == text@,
            mapped == text@.map_values(
                |c: char|
                    if c == '\n' {
                        ' '
                    } else {
                        c
                    },
            ),
            out@ =~= mapped.take(i as int),
        decreases chars.len() - i,
    {
        out.push(
            if chars[i] == '\n' {
                ' '
            } else {
                chars[i]
            },
        );
        i = i + 1;
    }
    assert(out@ =~= mapped);
    string_of(trim_slice(out.as_slice()))
}

/// Whether the message at the index is the first with the id.
pub open spec fn is_first_with_id(messages: Seq<UserMessageItem>, id: Seq<char>, i: int) -> bool {
    0 <= i < messages.len() && messages[i].id@ == id && forall|j: int|
        0 <= j < i ==> (#[trigger] messages[j]).id@ != id
}

/// The message that is selected at first: the one with the id, otherwise the most recent one.
pub open spec fn is_initial_selection(
    messages: Seq<UserMessageItem>,
    id: Option<Seq<char>>,
    selected: int,
) -> bool {
    if id is Some && exists|i: int| is_first_with_id(messages, id->0, i) {
        is_first_with_id(messages, id->0, selected)
    } else {
        selected == if messages.len() > 0 {
            messages.len() - 1
        } else {
            0
        }
    }
}

/// Whether a key press turns the list from `before` into `after` and asks for the action.
pub open spec fn messages_responded(
    before: UserMessageList,
    after: UserMessageList,
    keys: KeyMatches,
    r: UserMessageAction,
) -> bool {
    let selected = before.selected_index as int;
    let len = before.messages.len() as int;
    let now = after.selected_index;
    &&& after.messages == before.messages
    &&& if keys.has("tui.select.up"@) {
        r is Nothing && now == wrapped_up(selected, len)
    } else if keys.has("tui.select.down"@) {
        r is Nothing && now == wrapped_down(selected, len)
    } else {
        now == selected && if keys.has("tui.select.confirm"@) && len > 0 {
            r is Select && r->0@ == before.messages[selected].id@
        } else if !keys.has("tui.select.confirm"@) && keys.has("tui.select.cancel"@) {
            r is Cancel
        } else {
            r is Nothing
        }
    }
}

impl UserMessageList {
    /// Whether the selection is in the list.
    pub open spec fn wf(&self) -> bool {
        valid_selection(self.selected_index as int, self.messages.len() as int)
    }

    /// The list with the message with the id selected, otherwise the most recent one.
    #[must_use]
    pub fn new(messages: Vec<UserMessageItem>, initial_selected_id: Option<&str>) -> (r: Self)
        ensures
            r.wf(),
            r.messages == messages,
            is_initial_selection(
                messages@,
                match initial_selected_id {
                    Some(id) => Some(id@),
                    None => None,
                },
                r.selected_index as int,
            ),
    {
        let last: usize = if messages.len() > 0 {
            messages.len() - 1
        } else {
            0
        };
        let mut selected_index: usize = last;
        if let Some(id) = initial_selected_id {
            let mut i: usize = 0;
            let mut searching = true;
            while searching && i < messages.len()
                invariant
                    i <= messages.len(),
                    searching ==> selected_index == last,
                    searching ==> forall|j: int|
                        0 <= j < i ==> (#[trigger] messages[j]).id@ != id@,
                    !searching ==> is_first_with_id(messages@, id@, selected_index as int),
                decreases messages.len() - i,
            {
                if str_eq(messages[i].id.as_str(), id) {
                    selected_index = i;
                    searching = false;
                }
                i = i + 1;
            }
        }
        UserMessageList { messages, selected_index }
    }

    /// Takes in a key press. The selection wraps around at both ends.
    pub fn handle_input(&mut self, keys: &KeyMatches) -> (r: UserMessageAction)
        requires
            old(self).wf(),
        ensures
            final(self).wf(),
            messages_responded(*old(self), *final(self), *keys, r),
    {
        let len: usize = self.messages.len();
        if keys.matches("tui.select.up") {
            self.selected_index = wrap_up(self.selected_index, len);
            UserMessageAction::Nothing
        } else if keys.matches("tui.select.down") {
            self.selected_index = wrap_down(self.selected_index, len);
            UserMessageAction::Nothing
        } else if keys.matches("tui.select.confirm") {
            if self.selected_index < len {
                UserMessageAction::Select(self.messages[self.selected_index].id.clone())
            } else {
                UserMessageAction::Nothing
            }
        } else if keys.matches("tui.select.cancel") {
            UserMessageAction::Cancel
        } else {
            UserMessageAction::Nothing
        }
    }

    /// The row of a message: a cursor before the selected one, and its place in the history.
    pub open spec fn row(&self, i: int) -> UserMessageRowView {
        let text = one_line(self.messages[i].text@);
        UserMessageRowView {
            cursor: if i == self.selected_index {
                colored(ThemeColor::Accent, "› "@)
            } else {
                plain("  "@)
            },
            message: if i == self.selected_index {
                bolded(text)
            } else {
                plain(text)
            },
            metadata: colored(
                ThemeColor::Muted,
                "  Message "@ + decimal((i + 1) as nat) + " of "@ + decimal(self.messages@.len()),
            ),
        }
    }

    /// The rows in the window around the selection.
    pub open spec fn window(&self) -> Seq<UserMessageRowView> {
        let len = self.messages@.len() as int;
        let start = window_start(self.selected_index as int, len, MAX_VISIBLE as int);
        let end = window_end(self.selected_index as int, len, MAX_VISIBLE as int);
        Seq::new((end - start) as nat, |k: int| self.row(start + k))
    }

    /// The rows in the window around the selection.
    pub fn visible_rows(&self) -> (r: Vec<UserMessageRow>)
        requires
            self.wf(),
        ensures
            row_views(r@) == self.window(),
    {
        let (start, end) = visible_range(self.selected_index, self.messages.len(), MAX_VISIBLE);
        let mut rows: Vec<UserMessageRow> = Vec::new();
        let mut i: usize = start;
        while i < end
            invariant
                start <= i,
                i <= end || start > end,
                end <= self.messages.len(),
                row_views(rows@) =~= Seq::new((i - start) as nat, |k: int| self.row(start + k)),
            decreases end - i,
        {
            let selected = i == self.selected_index;
            let text = to_one_line(self.messages[i].text.as_str());
            let metadata = "  Message ".to_owned().concat(
                decimal_str(i as u128 + 1).as_str(),
            ).concat(" of ").concat(decimal_str(self.messages.len() as u128).as_str());
            let row = UserMessageRow {
                cursor: if selected {
                    fg(ThemeColor::Accent, "› ")
                } else {
                    raw("  ")
                },
                message: if selected {
                    crate::style::bold(text.as_str())
                } else {
                    raw(text.as_str())
                },
                metadata: fg(ThemeColor::Muted, metadata.as_str()),
            };
            let ghost before = rows@;
            rows.push(row);
            assert(row_views(rows@) =~= row_views(before).push(row@));
            assert(row@ =~= self.row(i as int));
            i = i + 1;
        }
        rows
    }

    /// The line under the rows: that there are none, or the position where some of them are outside
    /// the window.
    pub open spec fn status(&self) -> Option<SpanView> {
        let len = self.messages@.len() as int;
        let selected = self.selected_index as int;
        if len == 0 {
            Some(colored(ThemeColor::Muted, "  No user messages found"@))
        } else if window_start(selected, len, MAX_VISIBLE as int) > 0 || window_end(
            selected,
            len,
            MAX_VISIBLE as int,
        ) < len {
            Some(colored(ThemeColor::Muted, position_label(selected as nat, len as nat)))
        } else {
            None
        }
    }

    /// The line under the rows.
    pub fn status_line(&self) -> (r: Option<Span>)
        ensures
            match r {
                Some(line) => self.status() == Some(line@),
                None => self.status() is None,
            },
    {
        let len: usize = self.messages.len();
        if len == 0 {
            return Some(fg(ThemeColor::Muted, "  No user messages found"));
        }
        let (start, end) = visible_range(self.selected_index, len, MAX_VISIBLE);
        if start > 0 || end < len {
            Some(fg(ThemeColor::Muted, position_text(self.selected_index, len).as_str()))
        } else {
            None
        }
    }
}

/// The pieces of the first `n` rows. A message that is too wide stands as it was cut.
pub open spec fn row_pieces(
    rows: Seq<UserMessageRowView>,
    cuts: Seq<TextCut>,
    width: int,
    n: nat,
) -> Seq<PieceView>
    decreases n,
{
    if n == 0 {
        Seq::empty()
    } else {
        let row = rows[n - 1];
        let cut = cuts[n - 1];
        let message = SpanView {
            text: fitted_text(
                row.message.text,
                cut.width as int,
                cut.cut.text@,
                message_room(width),
                "..."@,
            ),
            ..row.message
        };
        row_pieces(rows, cuts, width, (n - 1) as nat) + seq![
            PieceView::Line(seq![row.cursor, message]),
            PieceView::Line(seq![row.metadata]),
            PieceView::Spacer(1),
        ]
    }
}

impl UserMessageList {
    /// The pieces of the list.
    pub open spec fn screen(&self, cuts: Seq<TextCut>, width: int) -> Seq<PieceView> {
        let rows = row_pieces(self.window(), cuts, width, self.window().len());
        match self.status() {
            Some(line) => rows.push(PieceView::Line(seq![line])),
            None => rows,
        }
    }

    /// The pieces of the list, given how the messages in its window were cut.
    pub fn render(&self, cuts: &Vec<TextCut>, width: u16) -> (r: Vec<Piece>)
        requires
            self.wf(),
            cuts@.len() == self.window().len(),
            messages_fit(cuts@, width as int),
        ensures
            pieces(r@) == self.screen(cuts@, width as int),
    {
        let rows = self.visible_rows();
        let ghost views = row_views(rows@);
        assert(views.len() == rows@.len());
        let columns = message_columns(width);
        let mut list: Vec<Piece> = Vec::new();
        let mut i: usize = 0;
        while i < rows.len()
            invariant
                i <= rows.len(),
                views == row_views(rows@),
                cuts@.len() == rows@.len(),
                columns == message_room(width as int),
                messages_fit(cuts@, width as int),
                pieces(list@) =~= row_pieces(views, cuts@, width as int, i as nat),
            decreases rows.len() - i,
        {
            let row = &rows[i];
            assert(views[i as int] == row@);
            let ghost before = pieces(list@);
            let mut message = row.message.clone();
            let shown = fit_text(row.message.text.as_str(), &cuts[i], columns, "...");
            message.text = shown.text;
            let mut line: Vec<Span> = Vec::new();
            push_span(&mut line, row.cursor.clone());
            push_span(&mut line, message);
            assert(spans(line@) =~= seq![row@.cursor, message@]);
            push_piece(&mut list, Piece::Line(line));
            push_piece(&mut list, single_line(row.metadata.clone()));
            push_piece(&mut list, Piece::Spacer(1));
            assert(pieces(list@) =~= before + seq![
                PieceView::Line(seq![row@.cursor, message@]),
                PieceView::Line(seq![row@.metadata]),
                PieceView::Spacer(1),
            ]);
            i = i + 1;
        }
        if let Some(line) = self.status_line() {
            push_piece(&mut list, single_line(line));
        }
        assert(pieces(list@) =~= self.screen(cuts@, width as int));
        list
    }
}

/// The columns that the cursor leaves for a message.
pub open spec fn message_room(width: int) -> int {
    if width >= 2 {
        width - 2
    } else {
        0
    }
}

/// Whether the messages that are too wide were cut to the columns left for them.
pub open spec fn messages_fit(cuts: Seq<TextCut>, width: int) -> bool {
    forall|k: int|
        0 <= k < cuts.len() ==> is_cut(
            (#[trigger] cuts[k]).width as int,
            cuts[k].cut.width as int,
            message_room(width),
            "..."@.len() as int,
        )
}

/// The columns that the cursor leaves for a message.
pub fn message_columns(width: u16) -> (r: usize)
    ensures
        r == message_room(width as int),
{
    if width >= 2 {
        (width - 2) as usize
    } else {
        0
    }
}

/// A user message selector for branching, which cancels itself once where there are no messages.
#[derive(Debug)]
pub struct UserMessageSelectorComponent {
    pub message_list: UserMessageList,
    pub auto_cancel_pending: bool,
}

impl UserMessageSelectorComponent {
    /// The selector over the messages.
    #[must_use]
    pub fn new(messages: Vec<UserMessageItem>, initial_selected_id: Option<&str>) -> (r: Self)
        ensures
            r.message_list.wf(),
            r.message_list.messages == messages,
            is_initial_selection(
                messages@,
                match initial_selected_id {
                    Some(id) => Some(id@),
                    None => None,
                },
                r.message_list.selected_index as int,
            ),
            r.auto_cancel_pending == (messages.len() == 0),
    {
        let auto_cancel_pending = messages.len() == 0;
        UserMessageSelectorComponent {
            message_list: UserMessageList::new(messages, initial_selected_id),
            auto_cancel_pending,
        }
    }

    /// Whether the selector is to be cancelled because there are no messages; it says so once.
    pub fn poll_auto_cancel(&mut self) -> (r: bool)
        ensures
            r == old(self).auto_cancel_pending,
            *final(self) == (UserMessageSelectorComponent {
                auto_cancel_pending: false,
                ..*old(self)
            }),
    {
        let pending = self.auto_cancel_pending;
        self.auto_cancel_pending = false;
        pending
    }

    /// The pieces of the selector, given how the messages in its window were cut.
    pub fn render(&self, cuts: &Vec<TextCut>, width: u16) -> (r: Vec<Piece>)
        requires
            self.message_list.wf(),
            cuts@.len() == self.message_list.window().len(),
            messages_fit(cuts@, width as int),
        ensures
            pieces(r@) == seq![
                PieceView::Spacer(1),
                text_piece(bolded("Fork from Message"@), 1),
                text_piece(colored(ThemeColor::Muted, SUBTITLE@), 1),
                PieceView::Spacer(1),
                PieceView::Border(ThemeColor::Border),
                PieceView::Spacer(1),
            ] + self.message_list.screen(cuts@, width as int) + seq![
                PieceView::Spacer(1),
                PieceView::Border(ThemeColor::Border),
            ],
    {
        let mut list: Vec<Piece> = Vec::new();
        push_piece(&mut list, Piece::Spacer(1));
        push_piece(&mut list, single_span(crate::style::bold("Fork from Message"), 1));
        push_piece(&mut list, single_span(fg(ThemeColor::Muted, SUBTITLE), 1));
        push_piece(&mut list, Piece::Spacer(1));
        push_piece(&mut list, Piece::Border(ThemeColor::Border));
        push_piece(&mut list, Piece::Spacer(1));
        push_pieces(&mut list, self.message_list.render(cuts, width));
        push_piece(&mut list, Piece::Spacer(1));
        push_piece(&mut list, Piece::Border(ThemeColor::Border));
        assert(pieces(list@) =~= seq![
            PieceView::Spacer(1),
            text_piece(bolded("Fork from Message"@), 1),
            text_piece(colored(ThemeColor::Muted, SUBTITLE@), 1),
            PieceView::Spacer(1),
            PieceView::Border(ThemeColor::Border),
            PieceView::Spacer(1),
        ] + self.message_list.screen(cuts@, width as int) + seq![
            PieceView::Spacer(1),
            PieceView::Border(ThemeColor::Border),
        ]);
        list
    }

    /// The list of messages.
    pub fn message_list(&self) -> (r: &UserMessageList)
        ensures
            *r == self.message_list,
    {
        &self.message_list
    }

    /// Takes in a key press.
    pub fn handle_input(&mut self, keys: &KeyMatches) -> (r: UserMessageAction)
        requires
            old(self).message_list.wf(),
        ensures
            final(self).message_list.wf(),
            final(self).auto_cancel_pending == old(self).auto_cancel_pending,
            messages_responded(old(self).message_list, final(self).message_list, *keys, r),
    {
        self.message_list.handle_input(keys)
    }
}

} // verus!
