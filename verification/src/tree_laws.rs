//! What filtering, searching and folding keep in the tree.

use crate::entries::EntryKind;
use crate::keybinding_hints::KeyMatches;
use crate::tree_arena::ArenaNode;
use crate::tree_input::{reacted, TreeAction};
use crate::tree_selector::{
    climb, folded_away, is_shown, last_position, passes_mode, refiltered, shown_nodes, FilterMode,
    TreeList,
};
use vstd::prelude::*;

verus! {

/// What a narrower filter mode lets through, a wider one does too: from user messages to messages
/// without tool results, to the default, to all entries.
pub proof fn filter_modes_are_nested(kind: EntryKind, labeled: bool)
    ensures
        passes_mode(kind, labeled, FilterMode::UserOnly) ==> passes_mode(
            kind,
            labeled,
            FilterMode::NoTools,
        ),
        passes_mode(kind, labeled, FilterMode::NoTools) ==> passes_mode(
            kind,
            labeled,
            FilterMode::Default,
        ),
        passes_mode(kind, labeled, FilterMode::Default) ==> passes_mode(
            kind,
            labeled,
            FilterMode::All,
        ),
        passes_mode(kind, labeled, FilterMode::LabeledOnly) ==> passes_mode(
            kind,
            labeled,
            FilterMode::All,
        ),
{
    reveal_strlit("user");
    reveal_strlit("toolResult");
    assert("user"@.len() == 4 && "toolResult"@.len() == 10);
}

proof fn lemma_shown_nodes(
    arena: Seq<ArenaNode>,
    flat: Seq<usize>,
    leaf: Option<usize>,
    mode: FilterMode,
    query: Seq<char>,
    away: Set<usize>,
    n: nat,
)
    requires
        n <= flat.len() <= usize::MAX,
    ensures
        forall|f: usize| #[trigger]
            shown_nodes(arena, flat, leaf, mode, query, away, n).contains(f) <==> f < n && is_shown(
                arena,
                flat[f as int],
                leaf,
                mode,
                query,
                away,
            ),
    decreases n,
{
    let shown = shown_nodes(arena, flat, leaf, mode, query, away, n);
    if n > 0 {
        lemma_shown_nodes(arena, flat, leaf, mode, query, away, (n - 1) as nat);
        let before = shown_nodes(arena, flat, leaf, mode, query, away, (n - 1) as nat);
        let last = (n - 1) as usize;
        assert forall|f: usize| #[trigger] shown.contains(f) <==> f < n && is_shown(
            arena,
            flat[f as int],
            leaf,
            mode,
            query,
            away,
        ) by {
            assert(before.contains(f) <==> f < n - 1 && is_shown(
                arena,
                flat[f as int],
                leaf,
                mode,
                query,
                away,
            ));
            if is_shown(arena, flat[n - 1], leaf, mode, query, away) {
                assert(shown == before.push(last));
                if before.contains(f) {
                    assert(shown[before.index_of(f)] == f);
                }
                if f == last {
                    assert(shown[before.len() as int] == f);
                }
                if shown.contains(f) {
                    let k = shown.index_of(f);
                    if k < before.len() {
                        assert(before[k] == f);
                    }
                }
            }
        }
    }
}

/// The list shows exactly the nodes that the filter mode lets through and the search finds, and
/// that are neither silent nor below a folded node.
pub proof fn list_shows_what_matches(list: TreeList, f: usize)
    ensures
        list.to_show().contains(f) <==> f < list.flat().len() && is_shown(
            list.arena@,
            list.flat()[f as int],
            list.current_leaf,
            list.filter_mode,
            list.search_query@,
            list.away(),
        ),
{
    assert(list.flat().len() == list.flat_nodes.len());
    lemma_shown_nodes(
        list.arena@,
        list.flat(),
        list.current_leaf,
        list.filter_mode,
        list.search_query@,
        list.away(),
        list.flat().len(),
    );
}

proof fn lemma_last_position(keys: Seq<usize>, k: usize, n: nat)
    requires
        n <= keys.len() <= usize::MAX,
    ensures
        match last_position(keys, k, n) {
            Some(i) => i < n && keys[i as int] == k,
            None => forall|j: int| 0 <= j < n ==> #[trigger] keys[j] != k,
        },
    decreases n,
{
    if n > 0 {
        lemma_last_position(keys, k, (n - 1) as nat);
    }
}

/// The selection stays on its node as long as the node is shown.
pub proof fn selection_stays_on_its_node(before: TreeList, after: TreeList)
    requires
        refiltered(before, after),
        before.selected_key() is Some,
        after.keys().contains(before.selected_key()->0),
    ensures
        after.selected_key() == before.selected_key(),
{
    reveal(refiltered);
    let k = before.selected_key()->0;
    let keys = after.keys();
    assert(keys.len() == after.filtered_nodes.len());
    lemma_last_position(keys, k, keys.len());
    let at = keys.index_of(k);
    assert(keys[at] == k);
    assert(climb(before.arena@, keys, Some(k), before.arena@.len()) == Some(k));
}

/// Whether entries have ids of their own and come after the entries they follow.
pub open spec fn is_history(arena: Seq<ArenaNode>) -> bool {
    forall|i: int|
        0 <= i < arena.len() ==> (#[trigger] arena[i]).key == i && (arena[i].parent matches Some(p)
            ==> p < i)
}

proof fn lemma_folding_below(
    arena: Seq<ArenaNode>,
    flat: Seq<usize>,
    folded: Seq<bool>,
    k: usize,
    n: nat,
)
    requires
        is_history(arena),
        n <= flat.len(),
        forall|f: int| 0 <= f < flat.len() ==> #[trigger] flat[f] < arena.len(),
        folded.len() == arena.len(),
        k < arena.len(),
    ensures
        forall|j: usize|
            j <= k ==> (#[trigger] folded_away(arena, flat, folded.update(k as int, true), n).contains(
                j,
            ) <==> folded_away(arena, flat, folded, n).contains(j)),
    decreases n,
{
    if n > 0 {
        lemma_folding_below(arena, flat, folded, k, (n - 1) as nat);
        let changed = folded.update(k as int, true);
        let m = flat[n - 1];
        let node = arena[m as int];
        assert(node.key == m);
        let before = folded_away(arena, flat, folded, (n - 1) as nat);
        let with_k = folded_away(arena, flat, changed, (n - 1) as nat);
        assert forall|j: usize|
            j <= k implies (#[trigger] folded_away(arena, flat, changed, n).contains(j)
                <==> folded_away(arena, flat, folded, n).contains(j)) by {
            assert(with_k.contains(j) <==> before.contains(j));
            if m <= k {
                if let Some(p) = node.parent {
                    assert(p < m);
                    assert(changed[p as int] == folded[p as int]);
                    assert(with_k.contains(p) <==> before.contains(p));
                }
            }
        }
    }
}

/// Folding a node does not hide the node itself, and unfolding it brings back the list as it was
/// before, with the same selection.
pub proof fn unfolding_undoes_folding(
    a: TreeList,
    b: TreeList,
    c: TreeList,
    fold: KeyMatches,
    unfold: KeyMatches,
    fold_data: Seq<char>,
    unfold_data: Seq<char>,
)
    requires
        a.wf(),
        is_history(a.arena@),
        a.filtered_nodes@ == a.to_show(),
        a.folds_selection(),
        a.action_for(fold, fold_data) == TreeAction::FoldOrUp,
        reacted(a, b, fold, fold_data),
        b.action_for(unfold, unfold_data) == TreeAction::UnfoldOrDown,
        reacted(b, c, unfold, unfold_data),
    ensures
        b.selected_key() == a.selected_key(),
        b.selection_is_folded(),
        c.folded_nodes@ == a.folded_nodes@,
        c.filtered_nodes@ == a.filtered_nodes@,
        c.selected_key() == a.selected_key(),
{
    reveal(refiltered);
    let k = a.selected_key()->0;
    let f = a.filtered_nodes@[a.selected_index as int];
    assert(a.flat()[f as int] == a.flat_nodes@[f as int].arena_idx);
    assert(a.arena@[a.flat()[f as int] as int].key == k);
    assert(a.flat()[f as int] == k);
    // Folding: the node stays in view.
    let folded = TreeList {
        search_query: b.search_query,
        folded_nodes: b.folded_nodes,
        filter_mode: a.filter_mode,
        ..a
    };
    assert(refiltered(folded, b));
    assert(folded.flat() == a.flat());
    assert(b.folded_nodes@ == a.folded_nodes@.update(k as int, true));
    assert forall|i: int| 0 <= i < a.flat().len() implies #[trigger] a.flat()[i]
        < a.arena@.len() by {
        assert(a.flat_nodes@[i].arena_idx < a.arena@.len());
    }
    lemma_folding_below(a.arena@, a.flat(), a.folded_nodes@, k, a.flat().len());
    list_shows_what_matches(a, f);
    list_shows_what_matches(folded, f);
    assert(a.filtered_nodes@.contains(f));
    assert(!a.away().contains(k));
    assert(!folded.away().contains(k));
    assert(folded.to_show().contains(f));
    let p = b.filtered_nodes@.index_of(f);
    assert(b.keys()[p] == k);
    assert(folded.selected_key() == a.selected_key());
    selection_stays_on_its_node(folded, b);
    assert(b.folded_nodes@[k as int]);
    // Unfolding: everything is as before.
    let unfolded = TreeList {
        search_query: c.search_query,
        folded_nodes: c.folded_nodes,
        filter_mode: b.filter_mode,
        ..b
    };
    assert(refiltered(unfolded, c));
    assert(c.folded_nodes@ =~= a.folded_nodes@);
    assert(unfolded.flat() == a.flat());
    assert(unfolded.to_show() == a.to_show());
    assert(c.filtered_nodes@ == a.filtered_nodes@);
    assert(c.flat() == a.flat());
    assert(c.keys() =~= a.keys());
    assert(c.keys()[a.selected_index as int] == k);
    selection_stays_on_its_node(unfolded, c);
}

} // verus!
