//! Building the session tree list and moving through it.

use crate::entries::{copy_text, get_entry_copy_text, SessionEntry};
use crate::scroll::valid_selection;
use crate::text::str_eq;
use crate::tree_arena::{
    build_arena, is_arena_node, last_with_id, rows_under, tree_rows, ArenaNode, EntryTreeNode,
    RowView,
};
use crate::tree_layout::{laid_out_roots, table_view, VisitView};
use crate::tree_selector::{
    active_first, active_table, build_active_path, call_views, climb_to_shown, flags, flat_visits,
    flat_visuals, flatten_tree, nearest_position, node_calls, on_path, position_of_key,
    positions_of, redrawn, refiltered, shown_parent, shown_table, shown_under, FilterMode, TreeList,
};
use vstd::prelude::*;
use vstd::string::*;

verus! {

broadcast use vstd::string::group_string_axioms;

/// The position of a shown node; `otherwise` for a node that is not shown.
pub open spec fn position_or(keys: Seq<usize>, k: usize, otherwise: int) -> int {
    match position_of_key(keys, k) {
        Some(i) => i as int,
        None => otherwise,
    }
}

/// Where moving down to the next branch leads: along single children to the first child of a branch,
/// or to the end.
pub open spec fn segment_down(
    arena: Seq<ArenaNode>,
    keys: Seq<usize>,
    selected: int,
    k: usize,
    steps: nat,
) -> int
    decreases steps,
{
    let under = shown_under(arena, keys, Some(k), keys.len());
    if under.len() == 0 {
        position_or(keys, k, selected)
    } else if under.len() > 1 {
        position_or(keys, under[0], selected)
    } else if steps > 0 {
        segment_down(arena, keys, selected, under[0], (steps - 1) as nat)
    } else {
        position_or(keys, k, selected)
    }
}

/// Where moving up to the start of a branch leads: to the nearest node above the selection that is
/// one of several siblings, or to the top.
pub open spec fn segment_up(
    arena: Seq<ArenaNode>,
    keys: Seq<usize>,
    selected: int,
    k: usize,
    steps: nat,
) -> int
    decreases steps,
{
    match shown_parent(arena, keys, k) {
        Some(p) => if shown_under(arena, keys, Some(p), keys.len()).len() > 1 && position_or(
            keys,
            k,
            selected,
        ) < selected {
            position_or(keys, k, selected)
        } else if steps > 0 {
            segment_up(arena, keys, selected, p, (steps - 1) as nat)
        } else {
            position_or(keys, k, selected)
        },
        None => position_or(keys, k, selected),
    }
}

/// Whether a shown node can be folded: it has shown children, and is at the top or one of several
/// siblings.
pub open spec fn is_foldable(arena: Seq<ArenaNode>, keys: Seq<usize>, k: usize) -> bool {
    &&& shown_under(arena, keys, Some(k), keys.len()).len() > 0
    &&& match shown_parent(arena, keys, k) {
        Some(p) => shown_under(arena, keys, Some(p), keys.len()).len() > 1,
        None => true,
    }
}

proof fn lemma_shown_under_are_keys(
    arena: Seq<ArenaNode>,
    keys: Seq<usize>,
    parent: Option<usize>,
    n: nat,
)
    requires
        n <= keys.len(),
    ensures
        forall|i: int|
            0 <= i < shown_under(arena, keys, parent, n).len() ==> keys.contains(
                #[trigger] shown_under(arena, keys, parent, n)[i],
            ),
    decreases n,
{
    if n > 0 {
        lemma_shown_under_are_keys(arena, keys, parent, (n - 1) as nat);
        let before = shown_under(arena, keys, parent, (n - 1) as nat);
        let all = shown_under(arena, keys, parent, n);
        assert forall|i: int| 0 <= i < all.len() implies keys.contains(#[trigger] all[i]) by {
            if i < before.len() {
                assert(all[i] == before[i]);
            } else {
                assert(all[i] == keys[n - 1]);
            }
        }
    }
}

proof fn lemma_climb_is_key(
    arena: Seq<ArenaNode>,
    keys: Seq<usize>,
    at: Option<usize>,
    steps: nat,
)
    ensures
        crate::tree_selector::climb(arena, keys, at, steps) matches Some(k) ==> keys.contains(k),
    decreases steps,
{
    if let Some(k) = at {
        if !keys.contains(k) && steps > 0 && k < arena.len() {
            lemma_climb_is_key(arena, keys, arena[k as int].parent, (steps - 1) as nat);
        }
    }
}

/// The last node whose entry has the id.
fn find_key(arena: &Vec<ArenaNode>, wanted: Option<&str>, Ghost(rows): Ghost<Seq<RowView>>) -> (r:
    Option<usize>)
    requires
        arena@.len() == rows.len(),
        forall|i: int| 0 <= i < arena@.len() ==> is_arena_node(rows, #[trigger] arena@[i], i),
    ensures
        r == lookup(rows, wanted),
        r matches Some(k) ==> k < arena@.len(),
{
    let id: &str = match wanted {
        Some(id) => id,
        None => {
            return None;
        },
    };
    let mut i: usize = arena.len();
    while i > 0
        invariant
            i <= arena.len(),
            arena@.len() == rows.len(),
            forall|i: int| 0 <= i < arena@.len() ==> is_arena_node(rows, #[trigger] arena@[i], i),
            lookup(rows, wanted) == last_with_id(rows, id@, i as nat),
        decreases i,
    {
        i = i - 1;
        assert(is_arena_node(rows, arena@[i as int], i as int));
        if str_eq(arena[i].entry.id.as_str(), id) {
            return Some(i);
        }
    }
    None
}

/// The last row whose entry has the id, if one is given.
pub open spec fn lookup(rows: Seq<RowView>, id: Option<&str>) -> Option<usize> {
    match id {
        Some(id) => last_with_id(rows, id@, rows.len()),
        None => None,
    }
}

/// Whether the list is a new one of the rows: every entry is listed, the active branch first; the
/// shown ones are drawn and connected; nothing is folded or searched; and the selection is the shown
/// entry nearest to the given one, or to the one in use.
pub open spec fn is_new_list(
    list: TreeList,
    rows: Seq<RowView>,
    current_leaf_id: Option<&str>,
    max_visible_lines: usize,
    initial_selected_id: Option<&str>,
    initial_filter_mode: Option<FilterMode>,
) -> bool {
    let arena = list.arena@;
    let keys = list.keys();
    let visits = laid_out_roots(
        active_table(arena, list.current_leaf),
        active_first(arena, list.current_leaf, rows_under(rows, None, rows.len())),
        arena.len(),
        0,
    );
    let shown_roots = shown_under(arena, keys, None, keys.len());
    &&& arena.len() == rows.len()
    &&& forall|i: int| 0 <= i < arena.len() ==> is_arena_node(rows, #[trigger] arena[i], i)
    &&& list.current_leaf == lookup(rows, current_leaf_id)
    &&& list.max_visible_lines == max_visible_lines
    &&& list.filter_mode == match initial_filter_mode {
        Some(mode) => mode,
        None => FilterMode::Default,
    }
    &&& list.search_query@.len() == 0
    &&& !list.show_label_timestamps
    &&& list.folded_nodes@ == Seq::new(arena.len(), |i: int| false)
    &&& forall|k: usize|
        k < arena.len() ==> #[trigger] list.active_path@[k as int] == on_path(
            arena,
            list.current_leaf,
            k,
            arena.len(),
        )
    &&& list.flat() == visits.map_values(|v: VisitView| v.node)
    &&& flat_visuals(list.flat_nodes@) == redrawn(
        visits.map_values(|v: VisitView| v.visual),
        laid_out_roots(shown_table(arena, keys), shown_roots, arena.len(), 0),
        keys,
        list.filtered_nodes@,
    )
    &&& list.multiple_roots == if keys.len() > 0 {
        shown_roots.len() > 1
    } else {
        rows_under(rows, None, rows.len()).len() > 1
    }
    &&& list.filtered_nodes@ == list.to_show()
    &&& call_views(list.tool_calls@) == node_calls(arena, list.flat())
    &&& list.selected_index == nearest_position(
        arena,
        keys,
        match initial_selected_id {
            Some(id) => lookup(rows, initial_selected_id),
            None => list.current_leaf,
        },
    )
    &&& list.last_selected == list.selected_key()
}

impl TreeList {
    /// A list of the tree's entries, on the given entry or the one in use.
    #[must_use]
    pub fn new(
        tree: Vec<EntryTreeNode>,
        current_leaf_id: Option<&str>,
        max_visible_lines: usize,
        initial_selected_id: Option<&str>,
        initial_filter_mode: Option<FilterMode>,
    ) -> (r: Self)
        requires
            tree_rows(tree@).len() < usize::MAX,
        ensures
            r.wf(),
            is_new_list(
                r,
                tree_rows(tree@),
                current_leaf_id,
                max_visible_lines,
                initial_selected_id,
                initial_filter_mode,
            ),
    {
        let ghost rows = tree_rows(tree@);
        let (arena, roots) = build_arena(tree);
        let current_leaf = find_key(&arena, current_leaf_id, Ghost(rows));
        let target: Option<usize> = match initial_selected_id {
            Some(_) => find_key(&arena, initial_selected_id, Ghost(rows)),
            None => current_leaf,
        };
        let (flat_nodes, tool_calls) = flatten_tree(&arena, &roots, current_leaf);
        let active_path = build_active_path(&arena, current_leaf);
        let n: usize = arena.len();
        let mut list = TreeList {
            arena,
            flat_nodes,
            filtered_nodes: Vec::new(),
            selected_index: 0,
            current_leaf,
            max_visible_lines,
            filter_mode: match initial_filter_mode {
                Some(mode) => mode,
                None => FilterMode::Default,
            },
            search_query: String::new(),
            tool_calls,
            multiple_roots: roots.len() > 1,
            show_label_timestamps: false,
            active_path,
            visible_parent: Vec::new(),
            visible_children: Vec::new(),
            last_selected: None,
            folded_nodes: flags(n),
        };
        let ghost before = list;
        list.apply_filter();
        proof {
            reveal(refiltered);
            let visits = laid_out_roots(
                active_table(list.arena@, list.current_leaf),
                active_first(list.arena@, list.current_leaf, roots@),
                list.arena@.len(),
                0,
            );
            assert(before.flat() =~= visits.map_values(|v: VisitView| v.node)) by {
                assert(flat_visits(before.flat_nodes@) == visits);
                assert forall|i: int| 0 <= i < visits.len() implies before.flat()[i]
                    == visits[i].node by {
                    assert(flat_visits(before.flat_nodes@)[i] == visits[i]);
                }
            }
            assert(flat_visuals(before.flat_nodes@) =~= visits.map_values(
                |v: VisitView| v.visual,
            )) by {
                assert forall|i: int| 0 <= i < visits.len() implies flat_visuals(
                    before.flat_nodes@,
                )[i] == visits[i].visual by {
                    assert(flat_visits(before.flat_nodes@)[i] == visits[i]);
                }
            }
        }
        list.select_nearest(target);
        list
    }

    /// Selects the shown node nearest to the given one.
    fn select_nearest(&mut self, target: Option<usize>)
        requires
            old(self).wf(),
            target matches Some(k) ==> k < old(self).arena@.len(),
        ensures
            final(self).wf(),
            final(self).selected_index == nearest_position(
                old(self).arena@,
                old(self).keys(),
                target,
            ),
            final(self).last_selected == final(self).selected_key(),
            *final(self) == (TreeList {
                selected_index: final(self).selected_index,
                last_selected: final(self).last_selected,
                ..*old(self)
            }),
    {
        let keys = self.keys_of(&self.filtered_nodes);
        let positions = positions_of(&keys, self.arena.len());
        if keys.len() == 0 {
            self.selected_index = 0;
            self.last_selected = None;
            return;
        }
        let found = climb_to_shown(&self.arena, &keys, &positions, target);
        self.selected_index = match found {
            Some(shown) => match positions[shown] {
                Some(at) => at,
                None => keys.len() - 1,
            },
            None => keys.len() - 1,
        };
        self.last_selected = Some(keys[self.selected_index]);
    }

    /// The id of the flat node's entry.
    pub fn node_id(&self, flat_idx: usize) -> (r: &str)
        requires
            self.is_consistent(),
            flat_idx < self.flat_nodes@.len(),
        ensures
            r@ == self.arena@[self.flat()[flat_idx as int] as int].entry.id@,
    {
        assert(self.flat_nodes@[flat_idx as int].arena_idx < self.arena@.len());
        self.arena[self.flat_nodes[flat_idx].arena_idx].entry.id.as_str()
    }

    /// The selected node.
    pub open spec fn selected_node(&self) -> Option<ArenaNode> {
        if self.selected_index < self.filtered_nodes@.len() {
            Some(
                self.arena@[self.flat()[self.filtered_nodes@[self.selected_index as int] as int] as int],
            )
        } else {
            None
        }
    }

    pub(crate) fn selected_arena_idx(&self) -> (r: Option<usize>)
        requires
            self.is_consistent(),
        ensures
            match r {
                Some(i) => {
                    &&& i < self.arena@.len()
                    &&& self.selected_node() == Some(self.arena@[i as int])
                    &&& self.selected_key() == Some(self.arena@[i as int].key)
                },
                None => self.selected_node() is None && self.selected_key() is None,
            },
    {
        if self.selected_index < self.filtered_nodes.len() {
            let f: usize = self.filtered_nodes[self.selected_index];
            assert(self.flat_nodes@[f as int].arena_idx < self.arena@.len());
            assert(self.flat()[f as int] == self.flat_nodes@[f as int].arena_idx);
            Some(self.flat_nodes[f].arena_idx)
        } else {
            None
        }
    }

    #[must_use]
    pub fn get_search_query(&self) -> (r: &str)
        ensures
            r@ == self.search_query@,
    {
        self.search_query.as_str()
    }

    #[must_use]
    pub fn filter_mode(&self) -> (r: FilterMode)
        ensures
            r == self.filter_mode,
    {
        self.filter_mode
    }

    /// The selected entry.
    #[must_use]
    pub fn get_selected_entry(&self) -> (r: Option<&SessionEntry>)
        requires
            self.is_consistent(),
        ensures
            match r {
                Some(entry) => self.selected_node() is Some && *entry
                    == self.selected_node()->0.entry,
                None => self.selected_node() is None,
            },
    {
        match self.selected_arena_idx() {
            Some(i) => Some(&self.arena[i].entry),
            None => None,
        }
    }

    /// The text to copy from the selected entry.
    pub fn copy_selected(&self) -> (r: Option<String>)
        requires
            self.is_consistent(),
        ensures
            match r {
                Some(text) => self.selected_node() is Some && copy_text(
                    self.selected_node()->0.entry.kind,
                ) == Some(text@),
                None => self.selected_node() is Some ==> copy_text(
                    self.selected_node()->0.entry.kind,
                ) is None,
            },
    {
        match self.selected_arena_idx() {
            Some(i) => get_entry_copy_text(&self.arena[i].entry),
            None => None,
        }
    }

    /// Sets or clears the label of the first entry with the id. A label without a timestamp of its
    /// own gets the time `now`.
    pub fn update_node_label(
        &mut self,
        entry_id: &str,
        label: Option<&str>,
        label_timestamp: Option<&str>,
        now: &str,
    )
        requires
            old(self).wf(),
        ensures
            final(self).wf(),
            final(self).arena@.len() == old(self).arena@.len(),
            ({
                let i = first_with_id(old(self).arena@, entry_id@);
                forall|k: int|
                    0 <= k < old(self).arena@.len() ==> if k == i {
                        &&& is_labeled(#[trigger] final(self).arena@[k], label, label_timestamp, now)
                        &&& final(self).arena@[k] == ArenaNode {
                            label: final(self).arena@[k].label,
                            label_timestamp: final(self).arena@[k].label_timestamp,
                            ..old(self).arena@[k]
                        }
                    } else {
                        final(self).arena@[k] == old(self).arena@[k]
                    }
            }),
            *final(self) == (TreeList { arena: final(self).arena, ..*old(self) }),
    {
        let mut i: usize = 0;
        assert(self.arena@.skip(0) =~= self.arena@);
        while i < self.arena.len()
            invariant
                i <= self.arena@.len(),
                *self == *old(self),
                self.wf(),
                first_with_id(self.arena@, entry_id@) == i + first_with_id(
                    self.arena@.skip(i as int),
                    entry_id@,
                ),
            decreases self.arena@.len() - i,
        {
            let ghost rest = self.arena@.skip(i as int);
            assert(rest[0] == self.arena@[i as int]);
            assert(rest.skip(1) =~= self.arena@.skip(i as int + 1));
            if str_eq(self.arena[i].entry.id.as_str(), entry_id) {
                let label: Option<String> = match label {
                    Some(label) => Some(label.to_owned()),
                    None => None,
                };
                let stamp: Option<String> = match label {
                    Some(_) => match label_timestamp {
                        Some(stamp) => Some(stamp.to_owned()),
                        None => Some(now.to_owned()),
                    },
                    None => None,
                };
                self.arena[i].label = label;
                self.arena[i].label_timestamp = stamp;
                proof {
                    lemma_labels_keep_wf(*old(self), *self, i as int);
                }
                return;
            }
            i = i + 1;
        }
        assert(self.arena@.skip(i as int).len() == 0);
    }

    /// Whether the node with the key can be folded.
    pub(crate) fn can_fold(&self, k: usize) -> (r: bool)
        requires
            self.wf(),
            k < self.arena@.len(),
            self.keys().contains(k),
        ensures
            r == is_foldable(self.arena@, self.keys(), k),
    {
        assert(table_view(self.visible_children@)[k as int] == self.visible_children@[k as int]@);
        if self.visible_children[k].len() == 0 {
            return false;
        }
        proof {
            let i = self.keys().index_of(k);
            assert(self.keys()[i] == k);
            lemma_climb_is_key(
                self.arena@,
                self.keys(),
                self.arena@[k as int].parent,
                self.arena@.len(),
            );
        }
        match self.visible_parent[k] {
            Some(p) => {
                proof {
                    lemma_keys_in_range(*self);
                    let i = self.keys().index_of(p);
                    assert(self.keys()[i] == p);
                    assert(table_view(self.visible_children@)[p as int]
                        == self.visible_children@[p as int]@);
                }
                self.visible_children[p].len() > 1
            },
            None => true,
        }
    }

    /// Where moving to the next branch leads, up or down.
    pub(crate) fn find_branch_segment_start(&self, up: bool) -> (r: usize)
        requires
            self.wf(),
        ensures
            match self.selected_key() {
                Some(k) => r == if up {
                    segment_up(
                        self.arena@,
                        self.keys(),
                        self.selected_index as int,
                        k,
                        self.arena@.len(),
                    )
                } else {
                    segment_down(
                        self.arena@,
                        self.keys(),
                        self.selected_index as int,
                        k,
                        self.arena@.len(),
                    )
                },
                None => r == self.selected_index,
            },
            valid_selection(r as int, self.filtered_nodes@.len() as int),
    {
        let mut at: usize = match self.selected_arena_idx() {
            Some(i) => self.arena[i].key,
            None => {
                return self.selected_index;
            },
        };
        let keys = self.keys_of(&self.filtered_nodes);
        let positions = positions_of(&keys, self.arena.len());
        let mut steps: usize = self.arena.len();
        let selected: usize = self.selected_index;
        let ghost start = at;
        proof {
            assert(keys@[selected as int] == at);
            assert(keys@.contains(at));
        }
        loop
            invariant
                self.wf(),
                keys@ == self.keys(),
                selected == self.selected_index,
                selected < keys@.len(),
                positions@.len() == self.arena@.len(),
                forall|i: int| 0 <= i < keys@.len() ==> #[trigger] keys@[i] < self.arena@.len(),
                forall|k: usize|
                    k < self.arena@.len() ==> #[trigger] positions@[k as int] == position_of_key(
                        keys@,
                        k,
                    ),
                forall|k: usize|
                    k < self.arena@.len() ==> (#[trigger] positions@[k as int] matches Some(i)
                        ==> i < keys@.len()),
                at < self.arena@.len(),
                keys@.contains(at),
                self.selected_key() == Some(start),
                up ==> segment_up(
                    self.arena@,
                    keys@,
                    selected as int,
                    start,
                    self.arena@.len(),
                ) == segment_up(self.arena@, keys@, selected as int, at, steps as nat),
                !up ==> segment_down(
                    self.arena@,
                    keys@,
                    selected as int,
                    start,
                    self.arena@.len(),
                ) == segment_down(self.arena@, keys@, selected as int, at, steps as nat),
            decreases steps,
        {
            let here: usize = match positions[at] {
                Some(i) => i,
                None => selected,
            };
            proof {
                assert(table_view(self.visible_children@)[at as int]
                    == self.visible_children@[at as int]@);
                let i = keys@.index_of(at);
                assert(self.keys()[i] == at);
            }
            if up {
                match self.visible_parent[at] {
                    Some(p) => {
                        proof {
                            lemma_climb_is_key(
                                self.arena@,
                                keys@,
                                self.arena@[at as int].parent,
                                self.arena@.len(),
                            );
                            let j = keys@.index_of(p);
                            assert(keys@[j] == p);
                            assert(table_view(self.visible_children@)[p as int]
                                == self.visible_children@[p as int]@);
                        }
                        if self.visible_children[p].len() > 1 && here < selected {
                            return here;
                        }
                        if steps == 0 {
                            return here;
                        }
                        at = p;
                    },
                    None => {
                        return here;
                    },
                }
            } else {
                let under = &self.visible_children[at];
                if under.len() == 0 {
                    return here;
                }
                let first: usize = under[0];
                proof {
                    lemma_shown_under_are_keys(self.arena@, keys@, Some(at), keys@.len());
                    assert(keys@.contains(first));
                    let j = keys@.index_of(first);
                    assert(keys@[j] == first);
                }
                if under.len() > 1 {
                    return match positions[first] {
                        Some(i) => i,
                        None => selected,
                    };
                }
                if steps == 0 {
                    return here;
                }
                at = first;
            }
            steps = steps - 1;
        }
    }
}

/// The first node whose entry has the id; the number of nodes if there is none.
pub open spec fn first_with_id(arena: Seq<ArenaNode>, id: Seq<char>) -> int
    decreases arena.len(),
{
    if arena.len() == 0 || arena[0].entry.id@ == id {
        0
    } else {
        1 + first_with_id(arena.skip(1), id)
    }
}

/// Whether the node carries the label, with its timestamp or the time `now`; without a label there
/// is no timestamp.
pub open spec fn is_labeled(
    node: ArenaNode,
    label: Option<&str>,
    label_timestamp: Option<&str>,
    now: &str,
) -> bool {
    match label {
        Some(label) => {
            &&& node.label is Some
            &&& node.label->0@ == label@
            &&& node.label_timestamp is Some
            &&& node.label_timestamp->0@ == match label_timestamp {
                Some(stamp) => stamp@,
                None => now@,
            }
        },
        None => node.label is None && node.label_timestamp is None,
    }
}

proof fn lemma_keys_in_range(list: TreeList)
    requires
        list.is_consistent(),
    ensures
        forall|i: int| 0 <= i < list.keys().len() ==> #[trigger] list.keys()[i] < list.arena@.len(),
{
    assert forall|i: int| 0 <= i < list.keys().len() implies #[trigger] list.keys()[i]
        < list.arena@.len() by {
        let f = list.filtered_nodes@[i];
        assert(list.flat_nodes@[f as int].arena_idx < list.arena@.len());
        assert(list.flat()[f as int] == list.flat_nodes@[f as int].arena_idx);
    }
}

/// Whether two arenas differ in labels only.
spec fn same_structure(a: Seq<ArenaNode>, b: Seq<ArenaNode>) -> bool {
    &&& a.len() == b.len()
    &&& forall|k: int|
        0 <= k < a.len() ==> (#[trigger] a[k]).key == b[k].key && a[k].parent == b[k].parent
            && a[k].children == b[k].children
}

proof fn lemma_climb_same(
    a: Seq<ArenaNode>,
    b: Seq<ArenaNode>,
    keys: Seq<usize>,
    at: Option<usize>,
    steps: nat,
)
    requires
        same_structure(a, b),
    ensures
        crate::tree_selector::climb(a, keys, at, steps) == crate::tree_selector::climb(
            b,
            keys,
            at,
            steps,
        ),
    decreases steps,
{
    if let Some(k) = at {
        if !keys.contains(k) && steps > 0 && k < a.len() {
            assert(a[k as int].parent == b[k as int].parent);
            lemma_climb_same(a, b, keys, a[k as int].parent, (steps - 1) as nat);
        }
    }
}

proof fn lemma_shown_under_same(
    a: Seq<ArenaNode>,
    b: Seq<ArenaNode>,
    keys: Seq<usize>,
    parent: Option<usize>,
    n: nat,
)
    requires
        same_structure(a, b),
        n <= keys.len(),
        forall|i: int| 0 <= i < keys.len() ==> #[trigger] keys[i] < a.len(),
    ensures
        shown_under(a, keys, parent, n) == shown_under(b, keys, parent, n),
    decreases n,
{
    if n > 0 {
        lemma_shown_under_same(a, b, keys, parent, (n - 1) as nat);
        let k = keys[n - 1];
        assert(a[k as int].parent == b[k as int].parent);
        lemma_climb_same(a, b, keys, a[k as int].parent, a.len());
    }
}

proof fn lemma_labels_keep_wf(before: TreeList, after: TreeList, i: int)
    requires
        before.wf(),
        0 <= i < before.arena@.len(),
        after.arena@.len() == before.arena@.len(),
        forall|k: int|
            0 <= k < before.arena@.len() && k != i ==> #[trigger] after.arena@[k]
                == before.arena@[k],
        after.arena@[i].key == before.arena@[i].key,
        after.arena@[i].parent == before.arena@[i].parent,
        after.arena@[i].children == before.arena@[i].children,
        after == (TreeList { arena: after.arena, ..before }),
    ensures
        after.wf(),
{
    let a = before.arena@;
    let b = after.arena@;
    assert(same_structure(a, b)) by {
        assert forall|k: int| 0 <= k < a.len() implies (#[trigger] a[k]).key == b[k].key
            && a[k].parent == b[k].parent && a[k].children == b[k].children by {
            if k != i {
                assert(b[k] == a[k]);
            }
        }
    }
    assert forall|m: int, k: int|
        #![trigger b[m].children@[k]]
        0 <= m < b.len() && 0 <= k < b[m].children@.len() implies m < b[m].children@[k]
        < b.len() by {
        assert(a[m].children == b[m].children);
        assert(m < a[m].children@[k] < a.len());
    }
    assert forall|m: int| 0 <= m < b.len() implies (#[trigger] b[m]).key < b.len() && (
    b[m].parent matches Some(p) ==> p < b.len()) by {
        assert(a[m].key < a.len());
    }
    assert(after.keys() =~= before.keys()) by {
        assert forall|j: int| 0 <= j < before.keys().len() implies after.keys()[j]
            == before.keys()[j] by {
            let f = before.filtered_nodes@[j];
            assert(before.flat_nodes@[f as int].arena_idx < a.len());
            assert(before.flat()[f as int] == before.flat_nodes@[f as int].arena_idx);
            assert(a[before.flat()[f as int] as int].key == b[before.flat()[f as int] as int].key);
        }
    }
    lemma_keys_in_range(before);
    let keys = before.keys();
    assert forall|j: int| 0 <= j < keys.len() implies after.visible_parent@[(
    #[trigger] keys[j]) as int] == shown_parent(b, keys, keys[j]) by {
        assert(a[keys[j] as int].parent == b[keys[j] as int].parent);
        lemma_climb_same(a, b, keys, a[keys[j] as int].parent, a.len());
    }
    assert(shown_table(a, keys) =~= shown_table(b, keys)) by {
        assert forall|k: int| 0 <= k < a.len() implies shown_table(a, keys)[k] == shown_table(
            b,
            keys,
        )[k] by {
            lemma_shown_under_same(a, b, keys, Some(k as usize), keys.len());
        }
    }
}

} // verus!
