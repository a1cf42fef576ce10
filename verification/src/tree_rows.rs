//! What the session tree list shows: its rows, their indentation and text, and
//! how far they are scrolled sideways.

use crate::entries::{
    content_preview, content_text, extract_content, extract_full_content, flattened, normalize,
    slice_utf16_prefix, utf16_prefix, EntryKind, Message, SessionEntry,
};
use crate::scroll::{visible_range, window_end, window_start};
use crate::session::clone_opt;
use crate::session_rows::{position_label, position_text};
use crate::style::{
    colored, embolden, emboldened, fg, italic_colored, italic_fg, plain, push_span, raw, spans,
    Span, SpanView, ThemeColor,
};
use crate::text::{decimal, decimal_str, push_char, str_eq};
use crate::tool_calls::{arguments_in, described_call, format_tool_call};
use crate::tree_layout::{display_indent, GutterInfo, VisualView};
use crate::tree_navigation::is_foldable;
use crate::tree_selector::{call_views, FilterMode, ToolCallInfo, TreeList};
use vstd::prelude::*;
use vstd::string::*;

verus! {

broadcast use vstd::string::group_string_axioms;

/// Whether a gutter stands at the level, and if so whether its line is drawn.
pub open spec fn gutter_at(gutters: Seq<GutterInfo>, level: int) -> Option<bool>
    decreases gutters.len(),
{
    if gutters.len() == 0 {
        None
    } else if gutters[0].position == level {
        Some(gutters[0].show)
    } else {
        gutter_at(gutters.skip(1), level)
    }
}

fn find_gutter(gutters: &Vec<GutterInfo>, level: usize) -> (r: Option<bool>)
    ensures
        r == gutter_at(gutters@, level as int),
{
    let mut i: usize = 0;
    assert(gutters@.skip(0) =~= gutters@);
    while i < gutters.len()
        invariant
            i <= gutters.len(),
            gutter_at(gutters@, level as int) == gutter_at(gutters@.skip(i as int), level as int),
        decreases gutters.len() - i,
    {
        assert(gutters@.skip(i as int).skip(1) =~= gutters@.skip(i as int + 1));
        if gutters[i].position == level {
            return Some(gutters[i].show);
        }
        i = i + 1;
    }
    None
}

/// Whether a connector is drawn to the node.
pub open spec fn has_connector(visual: VisualView) -> bool {
    visual.show_connector && !visual.is_virtual_root_child
}

/// The level at which the connector to a node at the given level stands.
pub open spec fn connector_level(shown_at: nat) -> int {
    if shown_at > 0 {
        shown_at - 1
    } else {
        0
    }
}

/// What is drawn at one level before a node.
pub open spec fn level_cells(
    visual: VisualView,
    shown_at: nat,
    level: int,
    folded: bool,
    foldable: bool,
) -> Seq<char> {
    match gutter_at(visual.gutters, level) {
        Some(show) => seq![
            if show {
                '│'
            } else {
                ' '
            },
            ' ',
            ' ',
        ],
        None => if has_connector(visual) && level == connector_level(shown_at) {
            seq![
                if visual.is_last {
                    '└'
                } else {
                    '├'
                },
                if folded {
                    '⊞'
                } else if foldable {
                    '⊟'
                } else {
                    '─'
                },
                ' ',
            ]
        } else {
            seq![' ', ' ', ' ']
        },
    }
}

/// What is drawn at the first `levels` levels before a node.
pub open spec fn prefix_cells(
    visual: VisualView,
    shown_at: nat,
    levels: nat,
    folded: bool,
    foldable: bool,
) -> Seq<char>
    decreases levels,
{
    if levels == 0 {
        Seq::empty()
    } else {
        prefix_cells(visual, shown_at, (levels - 1) as nat, folded, foldable) + level_cells(
            visual,
            shown_at,
            levels - 1,
            folded,
            foldable,
        )
    }
}

/// The text of a tool call with the id; the last such call counts.
pub open spec fn call_with_id(
    calls: Seq<(Seq<char>, Seq<char>, Seq<char>)>,
    id: Seq<char>,
) -> Option<(Seq<char>, Seq<char>)>
    decreases calls.len(),
{
    if calls.len() == 0 {
        None
    } else if calls.last().0 == id {
        Some((calls.last().1, calls.last().2))
    } else {
        call_with_id(calls.drop_last(), id)
    }
}

fn find_call(calls: &Vec<ToolCallInfo>, id: &str) -> (r: Option<usize>)
    ensures
        match r {
            Some(i) => i < calls@.len() && call_with_id(call_views(calls@), id@) == Some(
                (calls@[i as int].name@, calls@[i as int].arguments@),
            ),
            None => call_with_id(call_views(calls@), id@) is None,
        },
{
    let mut i: usize = calls.len();
    let ghost views = call_views(calls@);
    assert(views.take(views.len() as int) =~= views);
    while i > 0
        invariant
            i <= calls.len(),
            views == call_views(calls@),
            call_with_id(views, id@) == call_with_id(views.take(i as int), id@),
        decreases i,
    {
        assert(views.take(i as int).last() == views[i - 1]);
        assert(views.take(i as int).drop_last() =~= views.take(i - 1));
        i = i - 1;
        if str_eq(calls[i].id.as_str(), id) {
            return Some(i);
        }
    }
    None
}

/// Thousands of tokens, rounded.
pub open spec fn rounded_thousands(tokens: nat) -> nat {
    (tokens + 500) / 1000
}

/// How much of an error message is shown, in UTF-16 code units.
pub const ERROR_PREVIEW: usize = 80;

/// How a message is shown.
pub open spec fn message_spans(
    message: Message,
    calls: Seq<(Seq<char>, Seq<char>, Seq<char>)>,
    home: Option<Seq<char>>,
) -> Seq<SpanView> {
    if message.role@ == "user"@ {
        seq![
            colored(ThemeColor::Accent, "user: "@),
            plain(flattened(content_preview(message.content))),
        ]
    } else if message.role@ == "assistant"@ {
        let text = flattened(content_preview(message.content));
        seq![
            colored(ThemeColor::Success, "assistant: "@),
            if text.len() > 0 {
                plain(text)
            } else if message.stop_reason is Some && message.stop_reason->0@ == "aborted"@ {
                colored(ThemeColor::Muted, "(aborted)"@)
            } else if message.error_message is Some && message.error_message->0@.len() > 0 {
                colored(
                    ThemeColor::Error,
                    utf16_prefix(flattened(message.error_message->0@), ERROR_PREVIEW as int),
                )
            } else {
                colored(ThemeColor::Muted, "(no content)"@)
            },
        ]
    } else if message.role@ == "toolResult"@ {
        let call = match message.tool_call_id {
            Some(id) => call_with_id(calls, id@),
            None => None,
        };
        seq![
            colored(
                ThemeColor::Muted,
                match call {
                    Some((name, arguments)) => described_call(name, arguments_in(arguments), home),
                    None => "["@ + match message.tool_name {
                        Some(name) => name@,
                        None => "tool"@,
                    } + "]"@,
                },
            ),
        ]
    } else if message.role@ == "bashExecution"@ {
        seq![
            colored(
                ThemeColor::Dim,
                "[bash]: "@ + flattened(
                    match message.command {
                        Some(command) => command@,
                        None => Seq::empty(),
                    },
                ),
            ),
        ]
    } else {
        seq![colored(ThemeColor::Dim, "["@ + message.role@ + "]"@)]
    }
}

/// How an entry is shown.
pub open spec fn entry_spans(
    kind: EntryKind,
    calls: Seq<(Seq<char>, Seq<char>, Seq<char>)>,
    home: Option<Seq<char>>,
) -> Seq<SpanView> {
    match kind {
        EntryKind::Message(message) => message_spans(message, calls, home),
        EntryKind::CustomMessage { custom_type, content } => seq![
            colored(ThemeColor::CustomMessageLabel, "["@ + custom_type@ + "]: "@),
            plain(flattened(content_text(content))),
        ],
        EntryKind::Compaction { tokens_before, .. } => seq![
            colored(
                ThemeColor::BorderAccent,
                "[compaction: "@ + decimal(rounded_thousands(tokens_before as nat)) + "k tokens]"@,
            ),
        ],
        EntryKind::BranchSummary { summary } => seq![
            colored(ThemeColor::Warning, "[branch summary]: "@),
            plain(flattened(summary@)),
        ],
        EntryKind::ModelChange { model_id } => seq![
            colored(ThemeColor::Dim, "[model: "@ + model_id@ + "]"@),
        ],
        EntryKind::ThinkingLevelChange { thinking_level } => seq![
            colored(ThemeColor::Dim, "[thinking: "@ + thinking_level@ + "]"@),
        ],
        EntryKind::Custom { custom_type } => seq![
            colored(ThemeColor::Dim, "[custom: "@ + custom_type@ + "]"@),
        ],
        EntryKind::Label { label } => seq![
            colored(
                ThemeColor::Dim,
                "[label: "@ + match label {
                    Some(label) => label@,
                    None => "(cleared)"@,
                } + "]"@,
            ),
        ],
        EntryKind::SessionInfo { name } => seq![
            colored(ThemeColor::Dim, "[title: "@),
            match name {
                Some(name) => colored(ThemeColor::Dim, name@),
                None => italic_colored(ThemeColor::Dim, "empty"@),
            },
            colored(ThemeColor::Dim, "]"@),
        ],
    }
}

/// Text between brackets.
fn bracketed(open: &str, text: &str, close: &str) -> (r: String)
    ensures
        r@ == open@ + text@ + close@,
{
    open.to_owned().concat(text).concat(close)
}

fn show_message(message: &Message, calls: &Vec<ToolCallInfo>, home: Option<&str>) -> (r: Vec<Span>)
    ensures
        spans(r@) == message_spans(
            *message,
            call_views(calls@),
            match home {
                Some(home) => Some(home@),
                None => None,
            },
        ),
{
    let mut line: Vec<Span> = Vec::new();
    let role = message.role.as_str();
    let ghost expected = message_spans(
        *message,
        call_views(calls@),
        match home {
            Some(home) => Some(home@),
            None => None,
        },
    );
    if str_eq(role, "user") {
        let text = normalize(extract_content(&message.content).as_str());
        push_span(&mut line, fg(ThemeColor::Accent, "user: "));
        push_span(&mut line, raw(text.as_str()));
    } else if str_eq(role, "assistant") {
        let text = normalize(extract_content(&message.content).as_str());
        push_span(&mut line, fg(ThemeColor::Success, "assistant: "));
        let aborted = match &message.stop_reason {
            Some(reason) => str_eq(reason.as_str(), "aborted"),
            None => false,
        };
        if !text.as_str().is_empty() {
            push_span(&mut line, raw(text.as_str()));
        } else if aborted {
            push_span(&mut line, fg(ThemeColor::Muted, "(aborted)"));
        } else {
            match &message.error_message {
                Some(error) => {
                    if error.as_str().is_empty() {
                        push_span(&mut line, fg(ThemeColor::Muted, "(no content)"));
                    } else {
                        let text = slice_utf16_prefix(
                            normalize(error.as_str()).as_str(),
                            ERROR_PREVIEW,
                        );
                        push_span(&mut line, fg(ThemeColor::Error, text.as_str()));
                    }
                },
                None => {
                    push_span(&mut line, fg(ThemeColor::Muted, "(no content)"));
                },
            }
        }
    } else if str_eq(role, "toolResult") {
        let found: Option<usize> = match &message.tool_call_id {
            Some(id) => find_call(calls, id.as_str()),
            None => None,
        };
        let text = match found {
            Some(i) => format_tool_call(calls[i].name.as_str(), calls[i].arguments.as_str(), home),
            None => match &message.tool_name {
                Some(name) => bracketed("[", name.as_str(), "]"),
                None => bracketed("[", "tool", "]"),
            },
        };
        push_span(&mut line, fg(ThemeColor::Muted, text.as_str()));
    } else if str_eq(role, "bashExecution") {
        let command = match &message.command {
            Some(command) => normalize(command.as_str()),
            None => normalize(""),
        };
        proof {
            reveal_strlit("");
            assert(""@ =~= Seq::<char>::empty());
        }
        let text = "[bash]: ".to_owned().concat(command.as_str());
        push_span(&mut line, fg(ThemeColor::Dim, text.as_str()));
    } else {
        let text = bracketed("[", role, "]");
        push_span(&mut line, fg(ThemeColor::Dim, text.as_str()));
    }
    assert(spans(line@) =~= expected);
    line
}

/// How an entry is shown.
pub fn show_entry(entry: &SessionEntry, calls: &Vec<ToolCallInfo>, home: Option<&str>) -> (r: Vec<
    Span,
>)
    ensures
        spans(r@) == entry_spans(
            entry.kind,
            call_views(calls@),
            match home {
                Some(home) => Some(home@),
                None => None,
            },
        ),
{
    let mut line: Vec<Span> = Vec::new();
    let ghost expected = entry_spans(
        entry.kind,
        call_views(calls@),
        match home {
            Some(home) => Some(home@),
            None => None,
        },
    );
    match &entry.kind {
        EntryKind::Message(message) => {
            return show_message(message, calls, home);
        },
        EntryKind::CustomMessage { custom_type, content } => {
            let label = bracketed("[", custom_type.as_str(), "]: ");
            let text = normalize(extract_full_content(content).as_str());
            push_span(&mut line, fg(ThemeColor::CustomMessageLabel, label.as_str()));
            push_span(&mut line, raw(text.as_str()));
        },
        EntryKind::Compaction { tokens_before, .. } => {
            let thousands = decimal_str((*tokens_before as u128 + 500) / 1000);
            let text = bracketed("[compaction: ", thousands.as_str(), "k tokens]");
            push_span(&mut line, fg(ThemeColor::BorderAccent, text.as_str()));
        },
        EntryKind::BranchSummary { summary } => {
            let text = normalize(summary.as_str());
            push_span(&mut line, fg(ThemeColor::Warning, "[branch summary]: "));
            push_span(&mut line, raw(text.as_str()));
        },
        EntryKind::ModelChange { model_id } => {
            let text = bracketed("[model: ", model_id.as_str(), "]");
            push_span(&mut line, fg(ThemeColor::Dim, text.as_str()));
        },
        EntryKind::ThinkingLevelChange { thinking_level } => {
            let text = bracketed("[thinking: ", thinking_level.as_str(), "]");
            push_span(&mut line, fg(ThemeColor::Dim, text.as_str()));
        },
        EntryKind::Custom { custom_type } => {
            let text = bracketed("[custom: ", custom_type.as_str(), "]");
            push_span(&mut line, fg(ThemeColor::Dim, text.as_str()));
        },
        EntryKind::Label { label } => {
            let text = match label {
                Some(label) => bracketed("[label: ", label.as_str(), "]"),
                None => bracketed("[label: ", "(cleared)", "]"),
            };
            push_span(&mut line, fg(ThemeColor::Dim, text.as_str()));
        },
        EntryKind::SessionInfo { name } => {
            push_span(&mut line, fg(ThemeColor::Dim, "[title: "));
            match name {
                Some(name) => {
                    push_span(&mut line, fg(ThemeColor::Dim, name.as_str()));
                },
                None => {
                    push_span(&mut line, italic_fg(ThemeColor::Dim, "empty"));
                },
            }
            push_span(&mut line, fg(ThemeColor::Dim, "]"));
        },
    }
    assert(spans(line@) =~= expected);
    line
}

/// One row of the tree. The cursor stands before it; the label's time, if it is shown, between the
/// label and the content.
#[derive(Debug)]
pub struct TreeRow {
    /// Indentation, connectors, and marks for folding and for the path in use.
    pub prefix: Vec<Span>,
    pub label: Option<Span>,
    /// When the label was set, if that is shown.
    pub label_timestamp: Option<String>,
    pub content: Vec<Span>,
    pub selected: bool,
}

/// The content of a row.
#[verifier::ext_equal]
pub struct TreeRowView {
    pub prefix: Seq<SpanView>,
    pub label: Option<SpanView>,
    pub label_timestamp: Option<String>,
    pub content: Seq<SpanView>,
    pub selected: bool,
}

impl View for TreeRow {
    type V = TreeRowView;

    open spec fn view(&self) -> TreeRowView {
        TreeRowView {
            prefix: spans(self.prefix@),
            label: match self.label {
                Some(label) => Some(label@),
                None => None,
            },
            label_timestamp: self.label_timestamp,
            content: spans(self.content@),
            selected: self.selected,
        }
    }
}

/// The contents of a list of rows.
pub open spec fn tree_row_views(rows: Seq<TreeRow>) -> Seq<TreeRowView> {
    rows.map_values(|r: TreeRow| r@)
}

/// The labels of the filter mode and of the timestamps in the status line.
pub open spec fn status_labels(mode: FilterMode, show_label_timestamps: bool) -> Seq<char> {
    let filter = match mode {
        FilterMode::NoTools => " [no-tools]"@,
        FilterMode::UserOnly => " [user]"@,
        FilterMode::LabeledOnly => " [labeled]"@,
        FilterMode::All => " [all]"@,
        FilterMode::Default => Seq::empty(),
    };
    if show_label_timestamps {
        filter + " [+label time]"@
    } else {
        filter
    }
}

/// Appends two characters and a space.
fn push_cells(cells: &mut String, first: char, second: char)
    ensures
        final(cells)@ == old(cells)@ + seq![first, second, ' '],
{
    push_char(cells, first);
    push_char(cells, second);
    push_char(cells, ' ');
    assert(cells@ =~= old(cells)@ + seq![first, second, ' ']);
}

impl TreeList {
    /// The spans before the text of a node: indentation and connectors, the mark of a folded node
    /// that has no connector, and the mark of the path in use.
    pub open spec fn prefix_spans(&self, f: int) -> Seq<SpanView> {
        let node = self.arena@[self.flat()[f] as int];
        let visual = self.flat_nodes@[f].visual@;
        let shown_at = display_indent(visual.indent, self.multiple_roots);
        let folded = self.folded_nodes@[node.key as int];
        let foldable = is_foldable(self.arena@, self.keys(), node.key);
        let lines = seq![
            colored(
                ThemeColor::Dim,
                prefix_cells(visual, shown_at, shown_at, folded, foldable),
            ),
        ];
        let with_fold = if folded && !has_connector(visual) {
            lines.push(colored(ThemeColor::Accent, "⊞ "@))
        } else {
            lines
        };
        if self.active_path@[node.key as int] {
            with_fold.push(colored(ThemeColor::Accent, "• "@))
        } else {
            with_fold
        }
    }

    /// The row at position `i` of the shown nodes.
    pub open spec fn tree_row(&self, i: int, home: Option<Seq<char>>) -> TreeRowView {
        let f = self.filtered_nodes@[i] as int;
        let node = self.arena@[self.flat()[f] as int];
        TreeRowView {
            prefix: self.prefix_spans(f),
            label: match node.label {
                Some(label) => Some(colored(ThemeColor::Warning, "["@ + label@ + "] "@)),
                None => None,
            },
            label_timestamp: if self.show_label_timestamps && node.label is Some {
                node.label_timestamp
            } else {
                None
            },
            content: emboldened(
                entry_spans(node.entry.kind, call_views(self.tool_calls@), home),
                i == self.selected_index,
            ),
            selected: i == self.selected_index,
        }
    }

    /// The position of the first row in the window.
    pub open spec fn first_row(&self) -> int {
        window_start(
            self.selected_index as int,
            self.filtered_nodes@.len() as int,
            self.max_visible_lines as int,
        )
    }

    /// The position after the last row in the window.
    pub open spec fn end_row(&self) -> int {
        window_end(
            self.selected_index as int,
            self.filtered_nodes@.len() as int,
            self.max_visible_lines as int,
        )
    }

    /// How many rows are in the window.
    pub open spec fn window_len(&self) -> nat {
        if self.first_row() < self.end_row() {
            (self.end_row() - self.first_row()) as nat
        } else {
            0
        }
    }

    /// The rows in the window.
    pub open spec fn window(&self, home: Option<Seq<char>>) -> Seq<TreeRowView> {
        Seq::new(self.window_len(), |k: int| self.tree_row(self.first_row() + k, home))
    }

    fn build_prefix(&self, f: usize) -> (r: Vec<Span>)
        requires
            self.wf(),
            f < self.flat_nodes@.len(),
            self.keys().contains(self.arena@[self.flat()[f as int] as int].key),
        ensures
            spans(r@) == self.prefix_spans(f as int),
    {
        assert(self.flat_nodes@[f as int].arena_idx < self.arena@.len());
        assert(self.flat()[f as int] == self.flat_nodes@[f as int].arena_idx);
        let key: usize = self.arena[self.flat_nodes[f].arena_idx].key;
        let visual = &self.flat_nodes[f].visual;
        let shown_at: usize = if self.multiple_roots && visual.indent > 0 {
            visual.indent - 1
        } else {
            visual.indent
        };
        let folded = self.folded_nodes[key];
        let foldable = self.can_fold(key);
        let connector = visual.show_connector && !visual.is_virtual_root_child;
        let at: usize = if shown_at > 0 {
            shown_at - 1
        } else {
            0
        };
        let mut cells = String::new();
        let mut level: usize = 0;
        while level < shown_at
            invariant
                level <= shown_at,
                shown_at == display_indent(visual@.indent, self.multiple_roots),
                at == connector_level(shown_at as nat),
                connector == has_connector(visual@),
                cells@ == prefix_cells(
                    visual@,
                    shown_at as nat,
                    level as nat,
                    folded,
                    foldable,
                ),
            decreases shown_at - level,
        {
            match find_gutter(&visual.gutters, level) {
                Some(show) => {
                    push_cells(
                        &mut cells,
                        if show {
                            '│'
                        } else {
                            ' '
                        },
                        ' ',
                    );
                },
                None => {
                    if connector && level == at {
                        push_cells(
                            &mut cells,
                            if visual.is_last {
                                '└'
                            } else {
                                '├'
                            },
                            if folded {
                                '⊞'
                            } else if foldable {
                                '⊟'
                            } else {
                                '─'
                            },
                        );
                    } else {
                        push_cells(&mut cells, ' ', ' ');
                    }
                },
            }
            level = level + 1;
        }
        let mut line: Vec<Span> = Vec::new();
        push_span(&mut line, fg(ThemeColor::Dim, cells.as_str()));
        if folded && !connector {
            push_span(&mut line, fg(ThemeColor::Accent, "⊞ "));
        }
        if self.active_path[key] {
            push_span(&mut line, fg(ThemeColor::Accent, "• "));
        }
        assert(spans(line@) =~= self.prefix_spans(f as int));
        line
    }

    fn build_row(&self, i: usize, home: Option<&str>) -> (r: TreeRow)
        requires
            self.wf(),
            i < self.filtered_nodes@.len(),
        ensures
            r@ == self.tree_row(
                i as int,
                match home {
                    Some(home) => Some(home@),
                    None => None,
                },
            ),
    {
        let f: usize = self.filtered_nodes[i];
        assert(self.flat_nodes@[f as int].arena_idx < self.arena@.len());
        assert(self.flat()[f as int] == self.flat_nodes@[f as int].arena_idx);
        assert(self.keys()[i as int] == self.arena@[self.flat()[f as int] as int].key);
        let node = &self.arena[self.flat_nodes[f].arena_idx];
        let selected = i == self.selected_index;
        let label: Option<Span> = match &node.label {
            Some(label) => Some(
                fg(ThemeColor::Warning, bracketed("[", label.as_str(), "] ").as_str()),
            ),
            None => None,
        };
        let label_timestamp = if self.show_label_timestamps && node.label.is_some() {
            clone_opt(&node.label_timestamp)
        } else {
            None
        };
        TreeRow {
            prefix: self.build_prefix(f),
            label,
            label_timestamp,
            content: embolden(show_entry(&node.entry, &self.tool_calls, home), selected),
            selected,
        }
    }

    /// The rows in the window.
    pub fn visible_rows(&self, home: Option<&str>) -> (r: Vec<TreeRow>)
        requires
            self.wf(),
        ensures
            tree_row_views(r@) == self.window(
                match home {
                    Some(home) => Some(home@),
                    None => None,
                },
            ),
    {
        let (start, end) = visible_range(
            self.selected_index,
            self.filtered_nodes.len(),
            self.max_visible_lines,
        );
        let ghost home_text = match home {
            Some(home) => Some(home@),
            None => None,
        };
        let mut rows: Vec<TreeRow> = Vec::new();
        let mut i: usize = start;
        while i < end
            invariant
                start <= i,
                i <= end || start > end,
                end <= self.filtered_nodes@.len(),
                self.wf(),
                home_text == (match home {
                    Some(home) => Some(home@),
                    None => None,
                }),
                tree_row_views(rows@) =~= Seq::new(
                    (i - start) as nat,
                    |k: int| self.tree_row(start + k, home_text),
                ),
            decreases end - i,
        {
            let ghost before = rows@;
            let row = self.build_row(i, home);
            rows.push(row);
            assert(tree_row_views(rows@) =~= tree_row_views(before).push(row@));
            i = i + 1;
        }
        rows
    }

    /// The labels of the filter mode and of the timestamps in the status line.
    fn get_status_labels(&self) -> (r: String)
        ensures
            r@ == status_labels(self.filter_mode, self.show_label_timestamps),
    {
        let mut labels = match self.filter_mode {
            FilterMode::NoTools => " [no-tools]".to_owned(),
            FilterMode::UserOnly => " [user]".to_owned(),
            FilterMode::LabeledOnly => " [labeled]".to_owned(),
            FilterMode::All => " [all]".to_owned(),
            FilterMode::Default => String::new(),
        };
        if self.show_label_timestamps {
            labels.append(" [+label time]");
        }
        labels
    }

    /// The status line under the rows: the position, and the labels of what is not the default.
    pub open spec fn status_text(&self) -> Seq<char> {
        if self.filtered_nodes@.len() == 0 {
            "  (0/0)"@ + status_labels(self.filter_mode, self.show_label_timestamps)
        } else {
            position_label(self.selected_index as nat, self.filtered_nodes@.len())
                + status_labels(self.filter_mode, self.show_label_timestamps)
        }
    }

    /// The status line under the rows: the position, and the labels of what is not the default.
    pub fn status_line(&self) -> (r: String)
        ensures
            r@ == self.status_text(),
    {
        let labels = self.get_status_labels();
        if self.filtered_nodes.len() == 0 {
            "  (0/0)".to_owned().concat(labels.as_str())
        } else {
            position_text(self.selected_index, self.filtered_nodes.len()).concat(labels.as_str())
        }
    }
}

/// How far a row reaches.
#[derive(Debug, Clone, Copy, PartialEq, Eq, Structural)]
pub struct RowExtent {
    /// The column at which the row's text starts.
    pub anchor_col: usize,
    pub body_width: usize,
    pub selected: bool,
}

/// The columns of the cursor before each row.
pub const TREE_GUTTER_WIDTH: usize = 2;

/// The widest body of the rows.
pub open spec fn widest(rows: Seq<RowExtent>) -> nat
    decreases rows.len(),
{
    if rows.len() == 0 {
        0
    } else {
        let before = widest(rows.drop_last());
        if rows.last().body_width > before {
            rows.last().body_width as nat
        } else {
            before
        }
    }
}

/// The column at which the text of the first selected row starts.
pub open spec fn selected_anchor(rows: Seq<RowExtent>) -> Option<nat>
    decreases rows.len(),
{
    if rows.len() == 0 {
        None
    } else if rows[0].selected {
        Some(rows[0].anchor_col as nat)
    } else {
        selected_anchor(rows.skip(1))
    }
}

/// `n` kept between `low` and `high`.
pub open spec fn between(n: int, low: int, high: int) -> int {
    if n < low {
        low
    } else if n > high {
        high
    } else {
        n
    }
}

/// How many columns the rows are scrolled sideways: none as long as enough of the selected row's text
/// is in view; otherwise so far that its start stands a little inside.
pub open spec fn sideways_scroll(rows: Seq<RowExtent>, width: int) -> int {
    let view = if width > TREE_GUTTER_WIDTH {
        width - TREE_GUTTER_WIDTH
    } else {
        0
    };
    let farthest = widest(rows) - view;
    match selected_anchor(rows) {
        Some(anchor) => {
            let needed = between(view / 3, 4, 20);
            let limit = if view > needed {
                view - needed
            } else {
                0
            };
            if farthest > 0 && anchor > limit {
                let start = anchor - between(view / 4, 2, 12);
                if start < 0 {
                    0
                } else if start < farthest {
                    start
                } else {
                    farthest
                }
            } else {
                0
            }
        },
        None => 0,
    }
}

/// How many columns the rows are scrolled sideways.
pub fn horizontal_scroll(rows: &Vec<RowExtent>, width: usize) -> (r: usize)
    ensures
        r == sideways_scroll(rows@, width as int),
{
    let view: usize = if width > TREE_GUTTER_WIDTH {
        width - TREE_GUTTER_WIDTH
    } else {
        0
    };
    let mut max_body: usize = 0;
    let mut anchor: Option<usize> = None;
    let mut i: usize = 0;
    assert(rows@.skip(0) =~= rows@);
    while i < rows.len()
        invariant
            i <= rows.len(),
            max_body == widest(rows@.take(i as int)),
            match anchor {
                Some(col) => selected_anchor(rows@) == Some(col as nat),
                None => selected_anchor(rows@) == selected_anchor(rows@.skip(i as int)),
            },
        decreases rows.len() - i,
    {
        assert(rows@.take(i as int + 1).drop_last() =~= rows@.take(i as int));
        assert(rows@.skip(i as int).skip(1) =~= rows@.skip(i as int + 1));
        if rows[i].body_width > max_body {
            max_body = rows[i].body_width;
        }
        if anchor.is_none() && rows[i].selected {
            anchor = Some(rows[i].anchor_col);
        }
        i = i + 1;
    }
    assert(rows@.take(i as int) =~= rows@);
    if max_body <= view {
        return 0;
    }
    let farthest: usize = max_body - view;
    match anchor {
        Some(col) => {
            let third: usize = view / 3;
            let needed: usize = if third < 4 {
                4
            } else if third > 20 {
                20
            } else {
                third
            };
            let limit: usize = if view > needed {
                view - needed
            } else {
                0
            };
            if col <= limit {
                return 0;
            }
            let quarter: usize = view / 4;
            let context: usize = if quarter < 2 {
                2
            } else if quarter > 12 {
                12
            } else {
                quarter
            };
            let start: usize = if col > context {
                col - context
            } else {
                0
            };
            if start < farthest {
                start
            } else {
                farthest
            }
        },
        None => 0,
    }
}

/// The rows are scrolled sideways no farther than their widest body needs, and the text of the
/// selected row starts in view.
pub proof fn selected_text_stays_in_view(rows: Seq<RowExtent>, width: int)
    requires
        width >= 4,
        forall|i: int|
            0 <= i < rows.len() ==> (#[trigger] rows[i]).anchor_col <= rows[i].body_width,
    ensures
        sideways_scroll(rows, width) > 0 ==> sideways_scroll(rows, width) + width
            - TREE_GUTTER_WIDTH <= widest(rows),
        match selected_anchor(rows) {
            Some(anchor) => 0 <= anchor - sideways_scroll(rows, width) <= width
                - TREE_GUTTER_WIDTH,
            None => sideways_scroll(rows, width) == 0,
        },
{
    lemma_anchor_within(rows);
}

proof fn lemma_widest_bounds(rows: Seq<RowExtent>, i: int)
    requires
        0 <= i < rows.len(),
    ensures
        rows[i].body_width <= widest(rows),
    decreases rows.len(),
{
    if i < rows.len() - 1 {
        lemma_widest_bounds(rows.drop_last(), i);
    }
}

proof fn lemma_selected_anchor(rows: Seq<RowExtent>, n: int)
    requires
        0 <= n <= rows.len(),
    ensures
        selected_anchor(rows.skip(n)) matches Some(anchor) ==> exists|i: int|
            n <= i < rows.len() && (#[trigger] rows[i]).anchor_col == anchor,
    decreases rows.len() - n,
{
    if n < rows.len() {
        assert(rows.skip(n)[0] == rows[n]);
        assert(rows.skip(n).skip(1) =~= rows.skip(n + 1));
        lemma_selected_anchor(rows, n + 1);
    }
}

proof fn lemma_anchor_within(rows: Seq<RowExtent>)
    requires
        forall|i: int|
            0 <= i < rows.len() ==> (#[trigger] rows[i]).anchor_col <= rows[i].body_width,
    ensures
        selected_anchor(rows) matches Some(anchor) ==> anchor <= widest(rows),
{
    assert(rows.skip(0) =~= rows);
    lemma_selected_anchor(rows, 0);
    if let Some(anchor) = selected_anchor(rows) {
        let i = choose|i: int| 0 <= i < rows.len() && (#[trigger] rows[i]).anchor_col == anchor;
        lemma_widest_bounds(rows, i);
    }
}

} // verus!
