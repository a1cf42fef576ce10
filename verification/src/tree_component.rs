//! The session tree selector as a whole: the tree list, and editing labels in
//! it.

use crate::keybinding_hints::KeyMatches;
use crate::session::clone_opt;
use crate::text::{trim, trim_str};
use crate::tree_arena::{tree_rows, ArenaNode, EntryTreeNode};
use crate::tree_input::{reacted, TreeRequest};
use crate::tree_navigation::{first_with_id, is_new_list};
use crate::tree_selector::{FilterMode, TreeList};
use vstd::prelude::*;
use vstd::string::*;

verus! {

/// What came of a key press while a label is edited.
#[derive(Debug, PartialEq, Eq)]
pub enum LabelAction {
    /// Set the label of the entry, or clear it.
    Submit { id: String, label: Option<String> },
    Cancel,
    /// The key press goes to the label's input.
    Edit,
}

/// What the selector asks of its owner.
#[derive(Debug, PartialEq, Eq)]
pub enum TreeSelectorRequest {
    Nothing,
    Select(String),
    Cancel,
    Copy(Option<String>),
    /// Show an input for the label, starting from the current one.
    ShowLabelInput(Option<String>),
    LabelChanged { id: String, label: Option<String> },
    /// The key press goes to the label's input.
    EditLabel,
}

/// The session tree selector.
#[derive(Debug)]
pub struct TreeSelectorComponent {
    pub tree_list: TreeList,
    /// The entry whose label is edited.
    pub label_entry: Option<String>,
    /// When an empty tree is given up, in milliseconds.
    pub empty_tree_deadline: Option<u64>,
}

/// How long an empty tree is shown, in milliseconds.
pub const EMPTY_TREE_MS: u64 = 100;

/// Whether a key in the label's input asks for the action.
pub open spec fn label_answered(
    entry_id: Seq<char>,
    key: KeyMatches,
    value: Seq<char>,
    r: LabelAction,
) -> bool {
    if key.has("tui.select.confirm"@) {
        &&& r is Submit
        &&& r->id@ == entry_id
        &&& match r->label {
            Some(label) => trim(value).len() > 0 && label@ == trim(value),
            None => trim(value).len() == 0,
        }
    } else if key.has("tui.select.cancel"@) {
        r is Cancel
    } else {
        r is Edit
    }
}

/// What a key press does while the label of an entry is edited. `value` is that of the label's
/// input.
pub fn label_action(entry_id: &str, key: &KeyMatches, value: &str) -> (r: LabelAction)
    ensures
        label_answered(entry_id@, *key, value@, r),
{
    if key.matches("tui.select.confirm") {
        let label = trim_str(value);
        LabelAction::Submit {
            id: entry_id.to_owned(),
            label: if label.as_str().is_empty() {
                None
            } else {
                Some(label)
            },
        }
    } else if key.matches("tui.select.cancel") {
        LabelAction::Cancel
    } else {
        LabelAction::Edit
    }
}

/// Whether a key press turns the selector from `before` into `after` and asks for `request`.
pub open spec fn responded(
    before: TreeSelectorComponent,
    after: TreeSelectorComponent,
    key: KeyMatches,
    data: Seq<char>,
    label_value: Seq<char>,
    now: Seq<char>,
    request: TreeSelectorRequest,
) -> bool {
    match before.label_entry {
        Some(id) => if key.has("tui.select.confirm"@) {
            &&& after.label_entry is None
            &&& request is LabelChanged
            &&& request->LabelChanged_id@ == id@
            &&& match request->LabelChanged_label {
                Some(label) => trim(label_value).len() > 0 && label@ == trim(label_value),
                None => trim(label_value).len() == 0,
            }
            &&& after.tree_list == TreeList {
                arena: after.tree_list.arena,
                ..before.tree_list
            }
            &&& after.tree_list.arena@.len() == before.tree_list.arena@.len()
            &&& forall|k: int|
                0 <= k < before.tree_list.arena@.len() && k != first_with_id(
                    before.tree_list.arena@,
                    id@,
                ) ==> #[trigger] after.tree_list.arena@[k] == before.tree_list.arena@[k]
            &&& forall|k: int|
                0 <= k < before.tree_list.arena@.len() && k == first_with_id(
                    before.tree_list.arena@,
                    id@,
                ) ==> {
                    let node = #[trigger] after.tree_list.arena@[k];
                    &&& match request->LabelChanged_label {
                        Some(label) => node.label is Some && node.label->0@ == label@
                            && node.label_timestamp is Some && node.label_timestamp->0@ == now,
                        None => node.label is None && node.label_timestamp is None,
                    }
                    &&& node == ArenaNode {
                        label: node.label,
                        label_timestamp: node.label_timestamp,
                        ..before.tree_list.arena@[k]
                    }
                }
        } else if key.has("tui.select.cancel"@) {
            &&& request is Nothing
            &&& after.label_entry is None
            &&& after.tree_list == before.tree_list
        } else {
            request is EditLabel && after == before
        },
        None => {
            let action = before.tree_list.action_for(key, data);
            &&& reacted(before.tree_list, after.tree_list, key, data)
            &&& exists|asked: TreeRequest|
                {
                    &&& #[trigger] before.tree_list.asks(action, asked)
                    &&& match asked {
                        TreeRequest::Nothing => request is Nothing,
                        TreeRequest::Select(id) => request == TreeSelectorRequest::Select(id),
                        TreeRequest::Copy(text) => request == TreeSelectorRequest::Copy(text),
                        TreeRequest::Cancel => request is Cancel,
                        TreeRequest::EditLabel { id, label } => {
                            &&& request == TreeSelectorRequest::ShowLabelInput(label)
                            &&& after.label_entry == Some(id)
                        },
                    }
                    &&& !(asked is EditLabel) ==> after.label_entry is None
                }
        },
    }
}

impl TreeSelectorComponent {
    /// The list of the tree.
    pub fn get_tree_list(&self) -> (r: &TreeList)
        ensures
            *r == self.tree_list,
    {
        &self.tree_list
    }

    /// A selector on the tree. An empty tree is given up after a moment.
    #[must_use]
    pub fn new(
        tree: Vec<EntryTreeNode>,
        current_leaf_id: Option<&str>,
        terminal_height: u16,
        initial_selected_id: Option<&str>,
        initial_filter_mode: Option<FilterMode>,
        now_ms: u64,
    ) -> (r: Self)
        requires
            tree_rows(tree@).len() < usize::MAX,
        ensures
            r.tree_list.wf(),
            is_new_list(
                r.tree_list,
                tree_rows(tree@),
                current_leaf_id,
                if terminal_height / 2 > 5 {
                    (terminal_height / 2) as usize
                } else {
                    5
                },
                initial_selected_id,
                initial_filter_mode,
            ),
            r.label_entry is None,
            r.empty_tree_deadline == if tree@.len() == 0 {
                Some(
                    if now_ms + EMPTY_TREE_MS <= u64::MAX {
                        (now_ms + EMPTY_TREE_MS) as u64
                    } else {
                        u64::MAX
                    },
                )
            } else {
                None
            },
    {
        let half: u16 = terminal_height / 2;
        let max_visible_lines: usize = if half > 5 {
            half as usize
        } else {
            5
        };
        let empty = tree.len() == 0;
        let tree_list = TreeList::new(
            tree,
            current_leaf_id,
            max_visible_lines,
            initial_selected_id,
            initial_filter_mode,
        );
        TreeSelectorComponent {
            tree_list,
            label_entry: None,
            empty_tree_deadline: if empty {
                Some(now_ms.saturating_add(EMPTY_TREE_MS))
            } else {
                None
            },
        }
    }

    /// Whether the selector is to be given up at the time because its tree is empty.
    pub open spec fn gives_up(self, now_ms: u64) -> bool {
        self.empty_tree_deadline is Some && now_ms >= self.empty_tree_deadline->0
    }

    /// The selector after it was asked whether it is to be given up.
    pub open spec fn after_giving_up(self, now_ms: u64) -> TreeSelectorComponent {
        if self.gives_up(now_ms) {
            TreeSelectorComponent { empty_tree_deadline: None, ..self }
        } else {
            self
        }
    }

    /// Whether the selector is to be given up because its tree is empty. This happens once.
    pub fn fire_empty_tree_cancel(&mut self, now_ms: u64) -> (cancel: bool)
        ensures
            cancel == old(self).gives_up(now_ms),
            *final(self) == old(self).after_giving_up(now_ms),
    {
        match self.empty_tree_deadline {
            Some(deadline) => {
                if now_ms >= deadline {
                    self.empty_tree_deadline = None;
                    true
                } else {
                    false
                }
            },
            None => false,
        }
    }

    fn respond(&mut self, key: &KeyMatches, data: &str, label_value: &str, now: &str) -> (request:
        TreeSelectorRequest)
        requires
            old(self).tree_list.wf(),
        ensures
            final(self).tree_list.wf(),
            final(self).empty_tree_deadline == old(self).empty_tree_deadline,
            responded(*old(self), *final(self), *key, data@, label_value@, now@, request),
    {
        let editing = clone_opt(&self.label_entry);
        match editing {
            Some(id) => {
                match label_action(id.as_str(), key, label_value) {
                    LabelAction::Submit { id, label } => {
                        match &label {
                            Some(text) => {
                                self.tree_list.update_node_label(
                                    id.as_str(),
                                    Some(text.as_str()),
                                    None,
                                    now,
                                );
                            },
                            None => {
                                self.tree_list.update_node_label(id.as_str(), None, None, now);
                            },
                        }
                        self.label_entry = None;
                        TreeSelectorRequest::LabelChanged { id, label }
                    },
                    LabelAction::Cancel => {
                        self.label_entry = None;
                        TreeSelectorRequest::Nothing
                    },
                    LabelAction::Edit => TreeSelectorRequest::EditLabel,
                }
            },
            None => {
                let ghost list = self.tree_list;
                let asked = self.tree_list.handle_input(key, data);
                assert(list.asks(list.action_for(*key, data@), asked));
                match asked {
                    TreeRequest::Nothing => TreeSelectorRequest::Nothing,
                    TreeRequest::Select(id) => TreeSelectorRequest::Select(id),
                    TreeRequest::Copy(text) => TreeSelectorRequest::Copy(text),
                    TreeRequest::Cancel => TreeSelectorRequest::Cancel,
                    TreeRequest::EditLabel { id, label } => {
                        self.label_entry = Some(id);
                        TreeSelectorRequest::ShowLabelInput(label)
                    },
                }
            },
        }
    }

    /// Reacts to a key press: what is asked for, and whether the selector is to be given up now
    /// because its tree is empty. `data` is what the terminal sent for the key, `label_value` the
    /// value of the label's input, `now` the time as a timestamp and `now_ms` in milliseconds.
    pub fn handle_input(
        &mut self,
        key: &KeyMatches,
        data: &str,
        label_value: &str,
        now: &str,
        now_ms: u64,
    ) -> (r: (TreeSelectorRequest, bool))
        requires
            old(self).tree_list.wf(),
        ensures
            final(self).tree_list.wf(),
            r.1 == old(self).gives_up(now_ms),
            final(self).empty_tree_deadline == old(self).after_giving_up(
                now_ms,
            ).empty_tree_deadline,
            responded(
                old(self).after_giving_up(now_ms),
                *final(self),
                *key,
                data@,
                label_value@,
                now@,
                r.0,
            ),
    {
        let cancel = self.fire_empty_tree_cancel(now_ms);
        (self.respond(key, data, label_value, now), cancel)
    }
}

} // verus!
