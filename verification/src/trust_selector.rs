//! Project trust chooser.

use crate::keybinding_hints::{
    bound_text, hint_spans, key_alternatives, key_hint, raw_key_hint, KeyMatches, KeyTable,
};
use crate::scroll::{move_down, move_up, moved_down, moved_up};
use crate::style::{
    append_spans, bold_colored, bold_fg, colored, fg, plain, push_line, push_span, push_span_line,
    raw, span_lines, spans, Span, SpanView, ThemeColor,
};
use crate::text::str_eq;
use crate::transcript::{
    pieces, push_piece, push_texts, single_span, text_piece, text_pieces, Piece, PieceView,
};
use vstd::prelude::*;
use vstd::string::*;

verus! {

broadcast use vstd::string::group_string_axioms;

/// A change of the saved decisions; no decision takes a saved one back.
#[derive(Debug, PartialEq, Eq)]
pub struct ProjectTrustUpdate {
    pub path: String,
    pub decision: Option<bool>,
}

/// A saved decision.
#[derive(Debug, PartialEq, Eq)]
pub struct ProjectTrustStoreEntry {
    pub path: String,
    pub decision: bool,
}

/// What was chosen.
#[derive(Debug, PartialEq, Eq)]
pub struct TrustSelection {
    pub trusted: bool,
    pub updates: Vec<ProjectTrustUpdate>,
}

/// One choice, with the updates that it makes and the path that it is saved under.
#[derive(Debug)]
pub struct ProjectTrustOption {
    pub label: String,
    pub trusted: bool,
    pub updates: Vec<ProjectTrustUpdate>,
    pub saved_path: String,
}

/// What the chooser is opened over.
#[derive(Debug)]
pub struct TrustSelectorOptions {
    pub cwd: String,
    /// The working directory as an absolute path with links resolved.
    pub trust_path: String,
    /// The folder above it, if there is one.
    pub parent: Option<String>,
    pub saved_decision: Option<ProjectTrustStoreEntry>,
    pub project_trusted: bool,
}

/// The content of updates.
pub open spec fn update_views(updates: Seq<ProjectTrustUpdate>) -> Seq<(Seq<char>, Option<bool>)> {
    updates.map_values(|u: ProjectTrustUpdate| (u.path@, u.decision))
}

/// The content of a choice.
#[verifier::ext_equal]
pub struct OptionView {
    pub label: Seq<char>,
    pub trusted: bool,
    pub updates: Seq<(Seq<char>, Option<bool>)>,
    pub saved_path: Seq<char>,
}

impl View for ProjectTrustOption {
    type V = OptionView;

    open spec fn view(&self) -> OptionView {
        OptionView {
            label: self.label@,
            trusted: self.trusted,
            updates: update_views(self.updates@),
            saved_path: self.saved_path@,
        }
    }
}

/// The contents of choices.
pub open spec fn option_views(options: Seq<ProjectTrustOption>) -> Seq<OptionView> {
    options.map_values(|o: ProjectTrustOption| o@)
}

/// The choices: to trust the project, to trust the folder above it in its place, and not to trust
/// it.
pub open spec fn trust_choices(path: Seq<char>, parent: Option<Seq<char>>) -> Seq<OptionView> {
    let trust = seq![
        OptionView {
            label: "Trust"@,
            trusted: true,
            updates: seq![(path, Some(true))],
            saved_path: path,
        },
    ];
    let above = if parent is Some && parent->0 != path {
        seq![
            OptionView {
                label: "Trust parent folder ("@ + parent->0 + ")"@,
                trusted: true,
                updates: seq![(parent->0, Some(true)), (path, None)],
                saved_path: parent->0,
            },
        ]
    } else {
        Seq::empty()
    };
    trust + above + seq![
        OptionView {
            label: "Do not trust"@,
            trusted: false,
            updates: seq![(path, Some(false))],
            saved_path: path,
        },
    ]
}

fn make_option(label: String, trusted: bool, saved_path: &str, taken_back: Option<&str>) -> (r:
    ProjectTrustOption)
    ensures
        r@ == (OptionView {
            label: label@,
            trusted,
            updates: match taken_back {
                Some(path) => seq![(saved_path@, Some(trusted)), (path@, None)],
                None => seq![(saved_path@, Some(trusted))],
            },
            saved_path: saved_path@,
        }),
{
    let mut updates: Vec<ProjectTrustUpdate> = Vec::new();
    updates.push(ProjectTrustUpdate { path: saved_path.to_owned(), decision: Some(trusted) });
    if let Some(path) = taken_back {
        updates.push(ProjectTrustUpdate { path: path.to_owned(), decision: None });
        assert(update_views(updates@) =~= seq![(saved_path@, Some(trusted)), (path@, None)]);
    } else {
        assert(update_views(updates@) =~= seq![(saved_path@, Some(trusted))]);
    }
    ProjectTrustOption { label, trusted, updates, saved_path: saved_path.to_owned() }
}

/// The choices for a project at the path.
pub fn project_trust_options(trust_path: &str, parent: &Option<String>) -> (r: Vec<
    ProjectTrustOption,
>)
    ensures
        option_views(r@) == trust_choices(
            trust_path@,
            match parent {
                Some(p) => Some(p@),
                None => None,
            },
        ),
{
    let mut options: Vec<ProjectTrustOption> = Vec::new();
    options.push(make_option("Trust".to_owned(), true, trust_path, None));
    if let Some(parent) = parent {
        if !str_eq(parent.as_str(), trust_path) {
            let label = "Trust parent folder (".to_owned().concat(parent.as_str()).concat(")");
            options.push(make_option(label, true, parent.as_str(), Some(trust_path)));
        }
    }
    options.push(make_option("Do not trust".to_owned(), false, trust_path, None));
    assert(option_views(options@) =~= trust_choices(
        trust_path@,
        match parent {
            Some(p) => Some(p@),
            None => None,
        },
    ));
    options
}

/// Whether the choice is the saved decision.
pub open spec fn is_saved(option: OptionView, saved: Option<ProjectTrustStoreEntry>) -> bool {
    saved matches Some(entry) && entry.decision == option.trusted && entry.path@
        == option.saved_path
}

/// How a saved decision is shown: with the folder that it is inherited from, or its own path.
pub open spec fn decision_text(path: Seq<char>, saved: Option<ProjectTrustStoreEntry>) -> Seq<char> {
    match saved {
        None => "none"@,
        Some(entry) => {
            let label = if entry.decision {
                "trusted"@
            } else {
                "untrusted"@
            };
            if path != entry.path@ {
                label + " (inherited from "@ + entry.path@ + ")"@
            } else {
                label + " ("@ + entry.path@ + ")"@
            }
        },
    }
}

/// How a saved decision is shown.
pub fn format_decision(trust_path: &str, decision: &Option<ProjectTrustStoreEntry>) -> (r: String)
    ensures
        r@ == decision_text(trust_path@, *decision),
{
    match decision {
        None => "none".to_owned(),
        Some(entry) => {
            let label = if entry.decision {
                "trusted"
            } else {
                "untrusted"
            };
            let middle = if str_eq(trust_path, entry.path.as_str()) {
                " ("
            } else {
                " (inherited from "
            };
            label.to_owned().concat(middle).concat(entry.path.as_str()).concat(")")
        },
    }
}

/// Every choice settles the project: it saves a decision of its kind for the path that it is saved
/// under, and the project has no other saved decision of its own.
pub proof fn choices_settle_the_project(path: Seq<char>, parent: Option<Seq<char>>, i: int)
    requires
        0 <= i < trust_choices(path, parent).len(),
    ensures
        ({
            let choice = trust_choices(path, parent)[i];
            &&& choice.updates[0] == (choice.saved_path, Some(choice.trusted))
            &&& choice.saved_path == path || choice.updates.contains((path, None))
        }),
{
    let choice = trust_choices(path, parent)[i];
    if choice.saved_path != path {
        assert(choice.updates[1] == (path, None::<bool>));
    }
}

/// What a key press asks for.
#[derive(Debug)]
pub enum TrustAction {
    Nothing,
    Select(TrustSelection),
    Cancel,
}

/// The chooser.
#[derive(Debug)]
pub struct TrustSelectorComponent {
    pub cwd: String,
    pub trust_path: String,
    pub saved_decision: Option<ProjectTrustStoreEntry>,
    pub project_trusted: bool,
    pub trust_options: Vec<ProjectTrustOption>,
    pub selected: usize,
}

/// Whether the choice at the index is the first that is saved, or the first of all where none is.
pub open spec fn is_first_saved(
    options: Seq<OptionView>,
    saved: Option<ProjectTrustStoreEntry>,
    i: int,
) -> bool {
    if exists|j: int| 0 <= j < options.len() && is_saved(#[trigger] options[j], saved) {
        0 <= i < options.len() && is_saved(options[i], saved) && forall|j: int|
            0 <= j < i ==> !is_saved(#[trigger] options[j], saved)
    } else {
        i == 0
    }
}

fn is_saved_option(option: &ProjectTrustOption, saved: &Option<ProjectTrustStoreEntry>) -> (r: bool)
    ensures
        r == is_saved(option@, *saved),
{
    match saved {
        Some(entry) => entry.decision == option.trusted && str_eq(
            entry.path.as_str(),
            option.saved_path.as_str(),
        ),
        None => false,
    }
}

fn copy_updates(updates: &Vec<ProjectTrustUpdate>) -> (r: Vec<ProjectTrustUpdate>)
    ensures
        update_views(r@) == update_views(updates@),
{
    let mut r: Vec<ProjectTrustUpdate> = Vec::new();
    let mut i: usize = 0;
    while i < updates.len()
        invariant
            i <= updates.len(),
            update_views(r@) =~= update_views(updates@).take(i as int),
        decreases updates.len() - i,
    {
        let ghost before = r@;
        let u = ProjectTrustUpdate {
            path: updates[i].path.clone(),
            decision: updates[i].decision,
        };
        r.push(u);
        assert(update_views(r@) =~= update_views(before).push((u.path@, u.decision)));
        i = i + 1;
    }
    r
}

/// Whether a key press turns the chooser from `before` into `after` and asks for the action.
pub open spec fn choices_responded(
    before: TrustSelectorComponent,
    after: TrustSelectorComponent,
    keys: KeyMatches,
    data: Seq<char>,
    r: TrustAction,
) -> bool {
    let selected = before.selected as int;
    let len = before.trust_options.len() as int;
    let choice = before.trust_options[selected];
    &&& after == TrustSelectorComponent { selected: after.selected, ..before }
    &&& if keys.has("tui.select.up"@) || data == "k"@ {
        r is Nothing && after.selected == moved_up(selected, 1)
    } else if keys.has("tui.select.down"@) || data == "j"@ {
        r is Nothing && after.selected == moved_down(selected, len, 1)
    } else {
        after.selected == selected && if keys.has("tui.select.confirm"@) || data == "\n"@ {
            r matches TrustAction::Select(selection) && selection.trusted == choice.trusted
                && update_views(selection.updates@) == update_views(choice.updates@)
        } else if keys.has("tui.select.cancel"@) {
            r is Cancel
        } else {
            r is Nothing
        }
    }
}

impl TrustSelectorComponent {
    /// Whether the selection is one of the choices.
    pub open spec fn wf(&self) -> bool {
        self.selected < self.trust_options.len()
    }

    /// The chooser with the saved decision selected.
    #[must_use]
    pub fn new(options: TrustSelectorOptions) -> (r: Self)
        ensures
            r.wf(),
            r.cwd == options.cwd,
            r.trust_path == options.trust_path,
            r.saved_decision == options.saved_decision,
            r.project_trusted == options.project_trusted,
            option_views(r.trust_options@) == trust_choices(
                options.trust_path@,
                match options.parent {
                    Some(p) => Some(p@),
                    None => None,
                },
            ),
            is_first_saved(option_views(r.trust_options@), r.saved_decision, r.selected as int),
    {
        let trust_options = project_trust_options(options.trust_path.as_str(), &options.parent);
        let ghost views = option_views(trust_options@);
        assert(views.len() == trust_options.len());
        let mut selected: usize = 0;
        let mut searching = true;
        let mut i: usize = 0;
        while searching && i < trust_options.len()
            invariant
                i <= trust_options.len(),
                views == option_views(trust_options@),
                searching ==> selected == 0,
                searching ==> forall|j: int|
                    0 <= j < i ==> !is_saved(#[trigger] views[j], options.saved_decision),
                !searching ==> is_first_saved(views, options.saved_decision, selected as int),
                selected < trust_options.len(),
            decreases trust_options.len() - i,
        {
            assert(views[i as int] == trust_options[i as int]@);
            if is_saved_option(&trust_options[i], &options.saved_decision) {
                selected = i;
                searching = false;
            }
            i = i + 1;
        }
        TrustSelectorComponent {
            cwd: options.cwd,
            trust_path: options.trust_path,
            saved_decision: options.saved_decision,
            project_trusted: options.project_trusted,
            trust_options,
            selected,
        }
    }

    /// Takes in a key press. The selection stops at both ends.
    pub fn handle_input(&mut self, keys: &KeyMatches, data: &str) -> (r: TrustAction)
        requires
            old(self).wf(),
        ensures
            final(self).wf(),
            choices_responded(*old(self), *final(self), *keys, data@, r),
    {
        if keys.matches("tui.select.up") || str_eq(data, "k") {
            self.selected = move_up(self.selected, 1);
            TrustAction::Nothing
        } else if keys.matches("tui.select.down") || str_eq(data, "j") {
            self.selected = move_down(self.selected, self.trust_options.len(), 1);
            TrustAction::Nothing
        } else if keys.matches("tui.select.confirm") || str_eq(data, "\n") {
            let choice = &self.trust_options[self.selected];
            TrustAction::Select(
                TrustSelection {
                    trusted: choice.trusted,
                    updates: copy_updates(&choice.updates),
                },
            )
        } else if keys.matches("tui.select.cancel") {
            TrustAction::Cancel
        } else {
            TrustAction::Nothing
        }
    }

    /// The lines that tell the saved decision and the current one.
    pub fn status_lines(&self) -> (r: Vec<Vec<Span>>)
        ensures
            span_lines(r@) == self.status(),
    {
        let saved = "Saved decision: ".to_owned().concat(
            format_decision(self.trust_path.as_str(), &self.saved_decision).as_str(),
        );
        let current = "Current session: ".to_owned().concat(
            if self.project_trusted {
                "trusted"
            } else {
                "untrusted"
            },
        );
        let mut lines: Vec<Vec<Span>> = Vec::new();
        push_span_line(&mut lines, fg(ThemeColor::Muted, saved.as_str()));
        push_span_line(&mut lines, fg(ThemeColor::Muted, current.as_str()));
        assert(span_lines(lines@) =~= seq![
            seq![colored(ThemeColor::Muted, saved@)],
            seq![colored(ThemeColor::Muted, current@)],
        ]);
        lines
    }

    /// The row of a choice.
    pub open spec fn row(&self, i: int) -> Seq<SpanView> {
        let option = self.trust_options[i]@;
        let head = if i == self.selected {
            seq![colored(ThemeColor::Accent, "→ "@), colored(ThemeColor::Accent, option.label)]
        } else {
            seq![plain("  "@), colored(ThemeColor::Text, option.label)]
        };
        if is_saved(option, self.saved_decision) {
            head.push(colored(ThemeColor::Success, " ✓"@))
        } else {
            head
        }
    }

    /// The rows of the choices.
    pub fn option_lines(&self) -> (r: Vec<Vec<Span>>)
        ensures
            span_lines(r@) == Seq::new(self.trust_options@.len(), |i: int| self.row(i)),
    {
        let mut lines: Vec<Vec<Span>> = Vec::new();
        let mut i: usize = 0;
        while i < self.trust_options.len()
            invariant
                i <= self.trust_options.len(),
                span_lines(lines@) =~= Seq::new(i as nat, |i: int| self.row(i)),
            decreases self.trust_options.len() - i,
        {
            let option = &self.trust_options[i];
            let mut line: Vec<Span> = Vec::new();
            if i == self.selected {
                push_span(&mut line, fg(ThemeColor::Accent, "→ "));
                push_span(&mut line, fg(ThemeColor::Accent, option.label.as_str()));
            } else {
                push_span(&mut line, raw("  "));
                push_span(&mut line, fg(ThemeColor::Text, option.label.as_str()));
            }
            if is_saved_option(option, &self.saved_decision) {
                push_span(&mut line, fg(ThemeColor::Success, " ✓"));
            }
            assert(spans(line@) =~= self.row(i as int));
            push_line(&mut lines, line);
            i = i + 1;
        }
        lines
    }

    /// The lines that tell the saved decision and the current one.
    pub open spec fn status(&self) -> Seq<Seq<SpanView>> {
        seq![
            seq![
                colored(
                    ThemeColor::Muted,
                    "Saved decision: "@ + decision_text(self.trust_path@, self.saved_decision),
                ),
            ],
            seq![
                colored(
                    ThemeColor::Muted,
                    "Current session: "@ + if self.project_trusted {
                        "trusted"@
                    } else {
                        "untrusted"@
                    },
                ),
            ],
        ]
    }

    /// The pieces of the chooser, between two borders.
    pub open spec fn screen(&self, table: KeyTable) -> Seq<PieceView> {
        seq![
            PieceView::Border(ThemeColor::Border),
            PieceView::Spacer(1),
            text_piece(bold_colored(ThemeColor::Accent, "Project trust"@), 1),
            text_piece(colored(ThemeColor::Muted, self.cwd@), 1),
            PieceView::Spacer(1),
        ] + text_pieces(self.status(), 1) + seq![PieceView::Spacer(1)] + text_pieces(
            Seq::new(self.trust_options@.len(), |i: int| self.row(i)),
            1,
        ) + seq![
            PieceView::Spacer(1),
            PieceView::Text { spans: list_hints(table, "save"@, "cancel"@), padding: 1 },
            PieceView::Spacer(1),
            PieceView::Border(ThemeColor::Border),
        ]
    }

    /// The pieces of the chooser.
    pub fn render(&self, table: &KeyTable) -> (r: Vec<Piece>)
        ensures
            pieces(r@) == self.screen(*table),
    {
        let mut list: Vec<Piece> = Vec::new();
        push_piece(&mut list, Piece::Border(ThemeColor::Border));
        push_piece(&mut list, Piece::Spacer(1));
        push_piece(&mut list, single_span(bold_fg(ThemeColor::Accent, "Project trust"), 1));
        push_piece(&mut list, single_span(fg(ThemeColor::Muted, self.cwd.as_str()), 1));
        push_piece(&mut list, Piece::Spacer(1));
        push_texts(&mut list, &self.status_lines(), 1);
        push_piece(&mut list, Piece::Spacer(1));
        push_texts(&mut list, &self.option_lines(), 1);
        push_piece(&mut list, Piece::Spacer(1));
        push_piece(
            &mut list,
            Piece::Text { spans: list_hint_line(table, "save", "cancel"), padding: 1 },
        );
        push_piece(&mut list, Piece::Spacer(1));
        push_piece(&mut list, Piece::Border(ThemeColor::Border));
        assert(pieces(list@) =~= self.screen(*table));
        list
    }
}

/// The hints of a list: how to move in it, what confirming does and what cancelling does.
pub open spec fn list_hints(table: KeyTable, confirm: Seq<char>, cancel: Seq<char>) -> Seq<SpanView> {
    hint_spans(key_alternatives("↑↓"@, false, table.macos), "navigate"@) + seq![plain("  "@)]
        + hint_spans(bound_text(table, "tui.select.confirm"@), confirm) + seq![plain("  "@)]
        + hint_spans(bound_text(table, "tui.select.cancel"@), cancel)
}

/// The hints of a list.
pub fn list_hint_line(table: &KeyTable, confirm: &str, cancel: &str) -> (r: Vec<Span>)
    ensures
        spans(r@) == list_hints(*table, confirm@, cancel@),
{
    let mut line = raw_key_hint("↑↓", "navigate", table.macos);
    push_span(&mut line, raw("  "));
    append_spans(&mut line, key_hint(table, "tui.select.confirm", confirm));
    push_span(&mut line, raw("  "));
    append_spans(&mut line, key_hint(table, "tui.select.cancel", cancel));
    assert(spans(line@) =~= list_hints(*table, confirm@, cancel@));
    line
}

} // verus!
