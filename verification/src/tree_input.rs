//! How the session tree list reacts to key presses.

use crate::entries::copy_text;
use crate::keybinding_hints::KeyMatches;
use crate::scroll::{
    move_down, move_up, moved_down, moved_up, wrap_down, wrap_up, wrapped_down, wrapped_up,
};
use crate::session::clone_opt;
use crate::text::{chars_of, string_of};
use crate::tree_navigation::{is_foldable, segment_down, segment_up};
use crate::tree_selector::{flags, next_mode, previous_mode, refiltered, FilterMode, TreeList};
use vstd::prelude::*;
use vstd::slice::slice_subrange;
use vstd::string::*;

verus! {

broadcast use vstd::string::group_string_axioms;

/// What the tree list asks of its owner.
#[derive(Debug, PartialEq, Eq)]
pub enum TreeRequest {
    Nothing,
    Select(String),
    /// Copy this text, if there is any to copy.
    Copy(Option<String>),
    Cancel,
    EditLabel { id: String, label: Option<String> },
}

/// What a key press does to the tree list.
#[derive(Debug, Clone, Copy, PartialEq, Eq, Structural)]
pub enum TreeAction {
    Up,
    Down,
    FoldOrUp,
    UnfoldOrDown,
    PageUp,
    PageDown,
    Select,
    Copy,
    Cancel,
    /// Change to this filter mode.
    Filter(FilterMode),
    DeleteChar,
    EditLabel,
    ToggleLabelTimestamp,
    /// Add what was typed to the search query.
    Type,
    Ignore,
}

/// The other of a filter mode and the default one.
pub open spec fn toggled_mode(current: FilterMode, mode: FilterMode) -> FilterMode {
    if current == mode {
        FilterMode::Default
    } else {
        mode
    }
}

/// Toggling a filter on and off comes back to the default view.
pub proof fn filter_toggles_back(mode: FilterMode)
    ensures
        toggled_mode(toggled_mode(FilterMode::Default, mode), mode) == FilterMode::Default,
{
}

/// Whether what was typed can be searched for: it is not empty and holds no control character.
pub open spec fn is_typed_text(data: Seq<char>) -> bool {
    data.len() > 0 && forall|i: int| 0 <= i < data.len() ==> !is_control_code(#[trigger] data[i])
}

/// Whether the character is a control character.
pub open spec fn is_control_code(c: char) -> bool {
    (c as u32) < 32 || 0x7f <= c as u32 <= 0x9f
}

fn check_typed_text(data: &str) -> (r: bool)
    ensures
        r == is_typed_text(data@),
{
    let chars = chars_of(data);
    let mut i: usize = 0;
    while i < chars.len()
        invariant
            i <= chars.len(),
            chars@ == data@,
            forall|j: int| 0 <= j < i ==> !is_control_code(#[trigger] data@[j]),
        decreases chars.len() - i,
    {
        let code: u32 = chars[i] as u32;
        if code < 32 || (0x7f <= code && code <= 0x9f) {
            assert(is_control_code(data@[i as int]));
            return false;
        }
        i = i + 1;
    }
    chars.len() > 0
}

/// Whether no node is folded.
pub open spec fn none_folded(folded: Seq<bool>) -> bool {
    forall|i: int| 0 <= i < folded.len() ==> !(#[trigger] folded[i])
}

/// Whether `after` is what a key press makes of `before`. An action that changes which nodes are shown
/// brings the list up to date; any other moves the selection or toggles the timestamps.
pub open spec fn reacted(
    before: TreeList,
    after: TreeList,
    key: KeyMatches,
    data: Seq<char>,
) -> bool {
    let action = before.action_for(key, data);
    if before.changes_view(action) {
        &&& after.search_query@ == before.query_after(action, data)
        &&& before.folded_after(action, after.folded_nodes@)
        &&& refiltered(
            TreeList {
                search_query: after.search_query,
                folded_nodes: after.folded_nodes,
                filter_mode: before.mode_after(action),
                ..before
            },
            after,
        )
    } else {
        &&& after.selected_index == before.selection_after(action)
        &&& after == TreeList {
            selected_index: after.selected_index,
            show_label_timestamps: before.show_label_timestamps != (action
                == TreeAction::ToggleLabelTimestamp),
            ..before
        }
    }
}

impl TreeList {
    /// What a key press does: the first of the list's keybindings that it matches; otherwise what
    /// was typed is searched for.
    pub open spec fn action_for(&self, key: KeyMatches, data: Seq<char>) -> TreeAction {
        if key.has("tui.select.up"@) {
            TreeAction::Up
        } else if key.has("tui.select.down"@) {
            TreeAction::Down
        } else if key.has("app.tree.foldOrUp"@) {
            TreeAction::FoldOrUp
        } else if key.has("app.tree.unfoldOrDown"@) {
            TreeAction::UnfoldOrDown
        } else if key.has("tui.editor.cursorLeft"@) || key.has("tui.select.pageUp"@) {
            TreeAction::PageUp
        } else if key.has("tui.editor.cursorRight"@) || key.has("tui.select.pageDown"@) {
            TreeAction::PageDown
        } else if key.has("tui.select.confirm"@) {
            TreeAction::Select
        } else if key.has("app.message.copy"@) {
            TreeAction::Copy
        } else if key.has("tui.select.cancel"@) {
            TreeAction::Cancel
        } else if key.has("app.tree.filter.default"@) {
            TreeAction::Filter(FilterMode::Default)
        } else if key.has("app.tree.filter.noTools"@) {
            TreeAction::Filter(toggled_mode(self.filter_mode, FilterMode::NoTools))
        } else if key.has("app.tree.filter.userOnly"@) {
            TreeAction::Filter(toggled_mode(self.filter_mode, FilterMode::UserOnly))
        } else if key.has("app.tree.filter.labeledOnly"@) {
            TreeAction::Filter(toggled_mode(self.filter_mode, FilterMode::LabeledOnly))
        } else if key.has("app.tree.filter.all"@) {
            TreeAction::Filter(toggled_mode(self.filter_mode, FilterMode::All))
        } else if key.has("app.tree.filter.cycleBackward"@) {
            TreeAction::Filter(previous_mode(self.filter_mode))
        } else if key.has("app.tree.filter.cycleForward"@) {
            TreeAction::Filter(next_mode(self.filter_mode))
        } else if key.has("tui.editor.deleteCharBackward"@) {
            TreeAction::DeleteChar
        } else if key.has("app.tree.editLabel"@) {
            TreeAction::EditLabel
        } else if key.has("app.tree.toggleLabelTimestamp"@) {
            TreeAction::ToggleLabelTimestamp
        } else if is_typed_text(data) {
            TreeAction::Type
        } else {
            TreeAction::Ignore
        }
    }

    /// Whether folding applies to the selection: it has an id, can be folded and is not folded yet.
    pub open spec fn folds_selection(&self) -> bool {
        match self.selected_key() {
            Some(k) => self.selected_node()->0.entry.id@.len() > 0 && is_foldable(
                self.arena@,
                self.keys(),
                k,
            ) && !self.folded_nodes@[k as int],
            None => false,
        }
    }

    /// Whether the selection is folded.
    pub open spec fn selection_is_folded(&self) -> bool {
        match self.selected_key() {
            Some(k) => self.folded_nodes@[k as int],
            None => false,
        }
    }

    /// Where moving to the next branch leads.
    pub open spec fn branch_start(&self, up: bool) -> int {
        match self.selected_key() {
            Some(k) => if up {
                segment_up(
                    self.arena@,
                    self.keys(),
                    self.selected_index as int,
                    k,
                    self.arena@.len(),
                )
            } else {
                segment_down(
                    self.arena@,
                    self.keys(),
                    self.selected_index as int,
                    k,
                    self.arena@.len(),
                )
            },
            None => self.selected_index as int,
        }
    }

    /// Where an action leaves the selection, as long as it does not change which nodes are shown.
    pub open spec fn selection_after(&self, action: TreeAction) -> int {
        let at = self.selected_index as int;
        let len = self.filtered_nodes@.len() as int;
        match action {
            TreeAction::Up => wrapped_up(at, len),
            TreeAction::Down => wrapped_down(at, len),
            TreeAction::PageUp => moved_up(at, self.max_visible_lines as int),
            TreeAction::PageDown => moved_down(at, len, self.max_visible_lines as int),
            TreeAction::FoldOrUp => self.branch_start(true),
            TreeAction::UnfoldOrDown => self.branch_start(false),
            _ => at,
        }
    }

    /// Whether an action changes which nodes are shown.
    pub open spec fn changes_view(&self, action: TreeAction) -> bool {
        match action {
            TreeAction::FoldOrUp => self.folds_selection(),
            TreeAction::UnfoldOrDown => self.selection_is_folded(),
            TreeAction::Cancel => self.search_query@.len() > 0,
            TreeAction::Filter(_) => true,
            TreeAction::DeleteChar => self.search_query@.len() > 0,
            TreeAction::Type => true,
            _ => false,
        }
    }

    /// The search query after an action.
    pub open spec fn query_after(&self, action: TreeAction, data: Seq<char>) -> Seq<char> {
        match action {
            TreeAction::Cancel => Seq::empty(),
            TreeAction::DeleteChar => if self.search_query@.len() > 0 {
                self.search_query@.drop_last()
            } else {
                self.search_query@
            },
            TreeAction::Type => self.search_query@ + data,
            _ => self.search_query@,
        }
    }

    /// The filter mode after an action.
    pub open spec fn mode_after(&self, action: TreeAction) -> FilterMode {
        match action {
            TreeAction::Filter(mode) => mode,
            _ => self.filter_mode,
        }
    }

    /// Whether the folded nodes are those after an action that changes which nodes are shown:
    /// folding and unfolding change the selected one, everything else unfolds all.
    pub open spec fn folded_after(&self, action: TreeAction, folded: Seq<bool>) -> bool {
        match action {
            TreeAction::FoldOrUp => folded == self.folded_nodes@.update(
                self.selected_key()->0 as int,
                true,
            ),
            TreeAction::UnfoldOrDown => folded == self.folded_nodes@.update(
                self.selected_key()->0 as int,
                false,
            ),
            _ => folded.len() == self.folded_nodes@.len() && none_folded(folded),
        }
    }

    /// Whether the request is what an action asks of the owner.
    pub open spec fn asks(&self, action: TreeAction, request: TreeRequest) -> bool {
        match action {
            TreeAction::Select => match self.selected_node() {
                Some(node) => request == TreeRequest::Select(node.entry.id),
                None => request is Nothing,
            },
            TreeAction::Copy => request matches TreeRequest::Copy(text) && match text {
                Some(text) => self.selected_node() is Some && copy_text(
                    self.selected_node()->0.entry.kind,
                ) == Some(text@),
                None => self.selected_node() is Some ==> copy_text(
                    self.selected_node()->0.entry.kind,
                ) is None,
            },
            TreeAction::Cancel => if self.search_query@.len() > 0 {
                request is Nothing
            } else {
                request is Cancel
            },
            TreeAction::EditLabel => match self.selected_node() {
                Some(node) => request == TreeRequest::EditLabel {
                    id: node.entry.id,
                    label: node.label,
                },
                None => request is Nothing,
            },
            _ => request is Nothing,
        }
    }

    fn toggle(&self, mode: FilterMode) -> (r: TreeAction)
        ensures
            r == TreeAction::Filter(toggled_mode(self.filter_mode, mode)),
    {
        if self.filter_mode == mode {
            TreeAction::Filter(FilterMode::Default)
        } else {
            TreeAction::Filter(mode)
        }
    }

    fn classify(&self, key: &KeyMatches, data: &str) -> (r: TreeAction)
        ensures
            r == self.action_for(*key, data@),
    {
        if key.matches("tui.select.up") {
            TreeAction::Up
        } else if key.matches("tui.select.down") {
            TreeAction::Down
        } else if key.matches("app.tree.foldOrUp") {
            TreeAction::FoldOrUp
        } else if key.matches("app.tree.unfoldOrDown") {
            TreeAction::UnfoldOrDown
        } else if key.matches("tui.editor.cursorLeft") || key.matches("tui.select.pageUp") {
            TreeAction::PageUp
        } else if key.matches("tui.editor.cursorRight") || key.matches("tui.select.pageDown") {
            TreeAction::PageDown
        } else if key.matches("tui.select.confirm") {
            TreeAction::Select
        } else if key.matches("app.message.copy") {
            TreeAction::Copy
        } else if key.matches("tui.select.cancel") {
            TreeAction::Cancel
        } else if key.matches("app.tree.filter.default") {
            TreeAction::Filter(FilterMode::Default)
        } else if key.matches("app.tree.filter.noTools") {
            self.toggle(FilterMode::NoTools)
        } else if key.matches("app.tree.filter.userOnly") {
            self.toggle(FilterMode::UserOnly)
        } else if key.matches("app.tree.filter.labeledOnly") {
            self.toggle(FilterMode::LabeledOnly)
        } else if key.matches("app.tree.filter.all") {
            self.toggle(FilterMode::All)
        } else if key.matches("app.tree.filter.cycleBackward") {
            TreeAction::Filter(self.filter_mode.previous())
        } else if key.matches("app.tree.filter.cycleForward") {
            TreeAction::Filter(self.filter_mode.next())
        } else if key.matches("tui.editor.deleteCharBackward") {
            TreeAction::DeleteChar
        } else if key.matches("app.tree.editLabel") {
            TreeAction::EditLabel
        } else if key.matches("app.tree.toggleLabelTimestamp") {
            TreeAction::ToggleLabelTimestamp
        } else if check_typed_text(data) {
            TreeAction::Type
        } else {
            TreeAction::Ignore
        }
    }

    /// Unfolds all nodes and brings the list up to date.
    fn unfold_and_filter(&mut self)
        requires
            old(self).wf(),
        ensures
            final(self).wf(),
            final(self).folded_nodes@.len() == old(self).folded_nodes@.len(),
            none_folded(final(self).folded_nodes@),
            refiltered(
                TreeList { folded_nodes: final(self).folded_nodes, ..*old(self) },
                *final(self),
            ),
    {
        let n: usize = self.arena.len();
        self.folded_nodes = flags(n);
        self.apply_filter();
        proof {
            reveal(refiltered);
        }
    }

    /// Folds or unfolds the node and brings the list up to date.
    fn set_folded(&mut self, k: usize, folded: bool)
        requires
            old(self).wf(),
            k < old(self).arena@.len(),
        ensures
            final(self).wf(),
            final(self).folded_nodes@ == old(self).folded_nodes@.update(k as int, folded),
            refiltered(
                TreeList { folded_nodes: final(self).folded_nodes, ..*old(self) },
                *final(self),
            ),
    {
        self.folded_nodes.set(k, folded);
        self.apply_filter();
        proof {
            reveal(refiltered);
        }
    }

    /// Reacts to a key press. `data` is what the terminal sent for it.
    pub fn handle_input(&mut self, key: &KeyMatches, data: &str) -> (request: TreeRequest)
        requires
            old(self).wf(),
        ensures
            final(self).wf(),
            old(self).asks(old(self).action_for(*key, data@), request),
            reacted(*old(self), *final(self), *key, data@),
    {
        let action = self.classify(key, data);
        let len: usize = self.filtered_nodes.len();
        match action {
            TreeAction::Up => {
                self.selected_index = wrap_up(self.selected_index, len);
                TreeRequest::Nothing
            },
            TreeAction::Down => {
                self.selected_index = wrap_down(self.selected_index, len);
                TreeRequest::Nothing
            },
            TreeAction::FoldOrUp => {
                if let Some(i) = self.selected_arena_idx() {
                    let k: usize = self.arena[i].key;
                    assert(self.keys()[self.selected_index as int] == k);
                    assert(self.keys().contains(k));
                    if !self.arena[i].entry.id.as_str().is_empty() && self.can_fold(k)
                        && !self.folded_nodes[k] {
                        self.set_folded(k, true);
                        proof {
                            reveal(refiltered);
                        }
                        return TreeRequest::Nothing;
                    }
                }
                self.selected_index = self.find_branch_segment_start(true);
                TreeRequest::Nothing
            },
            TreeAction::UnfoldOrDown => {
                if let Some(i) = self.selected_arena_idx() {
                    let k: usize = self.arena[i].key;
                    if self.folded_nodes[k] {
                        self.set_folded(k, false);
                        proof {
                            reveal(refiltered);
                        }
                        return TreeRequest::Nothing;
                    }
                }
                self.selected_index = self.find_branch_segment_start(false);
                TreeRequest::Nothing
            },
            TreeAction::PageUp => {
                self.selected_index = move_up(self.selected_index, self.max_visible_lines);
                TreeRequest::Nothing
            },
            TreeAction::PageDown => {
                self.selected_index = move_down(self.selected_index, len, self.max_visible_lines);
                TreeRequest::Nothing
            },
            TreeAction::Select => {
                match self.selected_arena_idx() {
                    Some(i) => TreeRequest::Select(self.arena[i].entry.id.clone()),
                    None => TreeRequest::Nothing,
                }
            },
            TreeAction::Copy => TreeRequest::Copy(self.copy_selected()),
            TreeAction::Cancel => {
                if self.search_query.as_str().is_empty() {
                    return TreeRequest::Cancel;
                }
                self.search_query = String::new();
                self.unfold_and_filter();
                proof {
                    reveal(refiltered);
                }
                TreeRequest::Nothing
            },
            TreeAction::Filter(mode) => {
                self.filter_mode = mode;
                self.unfold_and_filter();
                proof {
                    reveal(refiltered);
                }
                TreeRequest::Nothing
            },
            TreeAction::DeleteChar => {
                let chars = chars_of(self.search_query.as_str());
                if chars.len() > 0 {
                    let shorter = slice_subrange(chars.as_slice(), 0, chars.len() - 1);
                    assert(shorter@ =~= self.search_query@.drop_last());
                    self.search_query = string_of(shorter);
                    self.unfold_and_filter();
                    proof {
                        reveal(refiltered);
                    }
                }
                TreeRequest::Nothing
            },
            TreeAction::EditLabel => {
                match self.selected_arena_idx() {
                    Some(i) => TreeRequest::EditLabel {
                        id: self.arena[i].entry.id.clone(),
                        label: clone_opt(&self.arena[i].label),
                    },
                    None => TreeRequest::Nothing,
                }
            },
            TreeAction::ToggleLabelTimestamp => {
                self.show_label_timestamps = !self.show_label_timestamps;
                TreeRequest::Nothing
            },
            TreeAction::Type => {
                self.search_query.append(data);
                self.unfold_and_filter();
                proof {
                    reveal(refiltered);
                }
                TreeRequest::Nothing
            },
            TreeAction::Ignore => TreeRequest::Nothing,
        }
    }
}

} // verus!
