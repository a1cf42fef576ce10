//! How the session tree is drawn: every entry is listed, under the one it follows and with lines to
//! match, and the branch in use comes first.

use crate::tree_arena::{
    is_arena_node, preorder, preorder_from, rows_under, tree_rows, ArenaNode, EntryTreeNode,
    RowView,
};
use crate::tree_layout::{children_in, laid_out, laid_out_children, laid_out_roots, VisitView};
use crate::tree_navigation::is_new_list;
use crate::tree_selector::{
    active_first, active_table, holds_leaf, nodes_holding, FilterMode, TreeList,
};
use vstd::prelude::*;

verus! {

/// Whether `child` is drawn as one of the children of `parent`: with a connector if it has siblings,
/// one level further in then, marked as the last if it is, and with the lines of its parent on its left.
pub open spec fn hangs_from(children: Seq<Seq<usize>>, parent: VisitView, child: VisitView) -> bool {
    let under = children_in(children, parent.node);
    let visual = child.visual;
    &&& !visual.is_virtual_root_child
    &&& visual.show_connector == (under.len() > 1)
    &&& under.len() > 1 ==> visual.indent == parent.visual.indent + 1
    &&& parent.visual.indent <= visual.indent <= parent.visual.indent + 1
    &&& parent.visual.gutters.is_prefix_of(visual.gutters)
    &&& visual.gutters.len() == parent.visual.gutters.len() + if parent.visual.show_connector
        && !parent.visual.is_virtual_root_child {
        1int
    } else {
        0
    }
    &&& visual.gutters.len() > parent.visual.gutters.len() ==> visual.gutters.last().show
        == !parent.visual.is_last
    &&& exists|i: int|
        0 <= i < under.len() && #[trigger] under[i] == child.node && visual.is_last == (i
            == under.len() - 1)
}

/// Whether the visit at index `k` is drawn under one before it.
pub open spec fn hangs_from_earlier(
    children: Seq<Seq<usize>>,
    visits: Seq<VisitView>,
    k: int,
) -> bool {
    exists|j: int| 0 <= j < k && hangs_from(children, #[trigger] visits[j], visits[k])
}

proof fn lemma_subtree_hangs(
    children: Seq<Seq<usize>>,
    multiple_roots: bool,
    visit: VisitView,
    just_branched: bool,
    levels: nat,
)
    ensures
        laid_out(children, multiple_roots, visit, just_branched, levels).len() > 0,
        laid_out(children, multiple_roots, visit, just_branched, levels)[0] == visit,
        forall|k: int|
            0 < k < laid_out(children, multiple_roots, visit, just_branched, levels).len()
                ==> #[trigger] hangs_from_earlier(
                children,
                laid_out(children, multiple_roots, visit, just_branched, levels),
                k,
            ),
    decreases levels, 0nat,
{
    if levels > 0 {
        let below = (levels - 1) as nat;
        lemma_children_hang(children, multiple_roots, visit, just_branched, below, 0);
        let part = laid_out_children(children, multiple_roots, visit, just_branched, below, 0);
        let all = laid_out(children, multiple_roots, visit, just_branched, levels);
        assert(all == seq![visit] + part);
        assert forall|k: int| 0 < k < all.len() implies #[trigger] hangs_from_earlier(
            children,
            all,
            k,
        ) by {
            assert(all[k] == part[k - 1]);
            if hangs_from(children, visit, part[k - 1]) {
                assert(all[0] == visit);
                assert(hangs_from(children, all[0], all[k]));
            } else {
                assert(hangs_from_earlier(children, part, k - 1));
                let j = choose|j: int|
                    0 <= j < k - 1 && hangs_from(children, #[trigger] part[j], part[k - 1]);
                assert(all[j + 1] == part[j]);
                assert(hangs_from(children, all[j + 1], all[k]));
            }
        }
    }
}

proof fn lemma_children_hang(
    children: Seq<Seq<usize>>,
    multiple_roots: bool,
    visit: VisitView,
    just_branched: bool,
    levels: nat,
    from: nat,
)
    ensures
        forall|k: int|
            0 <= k < laid_out_children(
                children,
                multiple_roots,
                visit,
                just_branched,
                levels,
                from,
            ).len() ==> hangs_from(
                children,
                visit,
                #[trigger] laid_out_children(
                    children,
                    multiple_roots,
                    visit,
                    just_branched,
                    levels,
                    from,
                )[k],
            ) || hangs_from_earlier(
                children,
                laid_out_children(children, multiple_roots, visit, just_branched, levels, from),
                k,
            ),
    decreases levels, 1 + (children_in(children, visit.node).len() - from),
{
    let under = children_in(children, visit.node);
    let all = laid_out_children(children, multiple_roots, visit, just_branched, levels, from);
    if from < under.len() {
        let child = VisitView {
            node: under[from as int],
            visual: crate::tree_layout::child_visual(
                visit.visual,
                just_branched,
                multiple_roots,
                from as int,
                under.len() as int,
            ),
        };
        let first = laid_out(children, multiple_roots, child, under.len() > 1, levels);
        let rest = laid_out_children(
            children,
            multiple_roots,
            visit,
            just_branched,
            levels,
            from + 1,
        );
        lemma_subtree_hangs(children, multiple_roots, child, under.len() > 1, levels);
        lemma_children_hang(children, multiple_roots, visit, just_branched, levels, from + 1);
        assert(all == first + rest);
        assert(under[from as int] == child.node);
        assert(hangs_from(children, visit, child));
        assert forall|k: int| 0 <= k < all.len() implies hangs_from(
            children,
            visit,
            #[trigger] all[k],
        ) || hangs_from_earlier(children, all, k) by {
            if k < first.len() {
                assert(all[k] == first[k]);
                if k > 0 {
                    assert(hangs_from_earlier(children, first, k));
                    let j = choose|j: int|
                        0 <= j < k && hangs_from(children, #[trigger] first[j], first[k]);
                    assert(all[j] == first[j]);
                    assert(hangs_from(children, all[j], all[k]));
                }
            } else {
                let m = k - first.len();
                assert(all[k] == rest[m]);
                if !hangs_from(children, visit, rest[m]) {
                    assert(hangs_from_earlier(children, rest, m));
                    let j = choose|j: int|
                        0 <= j < m && hangs_from(children, #[trigger] rest[j], rest[m]);
                    assert(all[j + first.len()] == rest[j]);
                    assert(hangs_from(children, all[j + first.len()], all[k]));
                }
            }
        }
    }
}

/// Whether the visit is drawn as a root: at the left edge, with a connector only among several.
pub open spec fn is_drawn_root(roots: Seq<usize>, visit: VisitView) -> bool {
    &&& visit.visual.show_connector == (roots.len() > 1)
    &&& visit.visual.is_virtual_root_child == (roots.len() > 1)
    &&& visit.visual.gutters.len() == 0
    &&& exists|i: int|
        0 <= i < roots.len() && #[trigger] roots[i] == visit.node && visit.visual.is_last == (i
            == roots.len() - 1)
}

/// Every node is drawn as a root, or under one that is drawn before it, as one of its children.
pub proof fn nodes_are_drawn_under_their_parents(
    children: Seq<Seq<usize>>,
    roots: Seq<usize>,
    levels: nat,
    from: nat,
    k: int,
)
    requires
        from <= roots.len(),
        0 <= k < laid_out_roots(children, roots, levels, from).len(),
    ensures
        is_drawn_root(roots, laid_out_roots(children, roots, levels, from)[k]) || hangs_from_earlier(
            children,
            laid_out_roots(children, roots, levels, from),
            k,
        ),
    decreases roots.len() - from,
{
    let root = VisitView {
        node: roots[from as int],
        visual: crate::tree_layout::root_visual(from as int, roots.len() as int),
    };
    let first = laid_out(children, roots.len() > 1, root, roots.len() > 1, levels);
    let rest = laid_out_roots(children, roots, levels, from + 1);
    let all = laid_out_roots(children, roots, levels, from);
    assert(all == first + rest);
    lemma_subtree_hangs(children, roots.len() > 1, root, roots.len() > 1, levels);
    if k < first.len() {
        assert(all[k] == first[k]);
        if k > 0 {
            assert(hangs_from_earlier(children, first, k));
            let j = choose|j: int| 0 <= j < k && hangs_from(children, #[trigger] first[j], first[k]);
            assert(all[j] == first[j]);
            assert(hangs_from(children, all[j], all[k]));
        } else {
            assert(roots[from as int] == root.node);
        }
    } else {
        let m = k - first.len();
        nodes_are_drawn_under_their_parents(children, roots, levels, from + 1, m);
        assert(all[k] == rest[m]);
        if !is_drawn_root(roots, rest[m]) {
            let j = choose|j: int| 0 <= j < m && hangs_from(children, #[trigger] rest[j], rest[m]);
            assert(all[j + first.len()] == rest[j]);
            assert(hangs_from(children, all[j + first.len()], all[k]));
        }
    }
}

/// Whether `node` is reached from `top` by going down `steps` times.
pub open spec fn is_below(children: Seq<Seq<usize>>, top: usize, node: usize, steps: nat) -> bool
    decreases steps,
{
    if steps == 0 {
        top == node
    } else {
        exists|i: int|
            0 <= i < children_in(children, top).len() && is_below(
                children,
                #[trigger] children_in(children, top)[i],
                node,
                (steps - 1) as nat,
            )
    }
}

/// The nodes that are drawn.
spec fn drawn(visits: Seq<VisitView>) -> Seq<usize> {
    visits.map_values(|v: VisitView| v.node)
}

proof fn lemma_subtree_complete(
    children: Seq<Seq<usize>>,
    multiple_roots: bool,
    visit: VisitView,
    just_branched: bool,
    levels: nat,
    node: usize,
    steps: nat,
)
    requires
        is_below(children, visit.node, node, steps),
        steps <= levels,
    ensures
        drawn(laid_out(children, multiple_roots, visit, just_branched, levels)).contains(node),
    decreases levels, 0nat,
{
    let all = laid_out(children, multiple_roots, visit, just_branched, levels);
    lemma_subtree_hangs(children, multiple_roots, visit, just_branched, levels);
    if steps == 0 {
        assert(drawn(all)[0] == node);
    } else {
        let below = (levels - 1) as nat;
        let under = children_in(children, visit.node);
        let i = choose|i: int|
            0 <= i < under.len() && is_below(
                children,
                #[trigger] under[i],
                node,
                (steps - 1) as nat,
            );
        lemma_children_complete(
            children,
            multiple_roots,
            visit,
            just_branched,
            below,
            0,
            i,
            node,
            (steps - 1) as nat,
        );
        let part = laid_out_children(children, multiple_roots, visit, just_branched, below, 0);
        assert(all == seq![visit] + part);
        let k = drawn(part).index_of(node);
        assert(drawn(all)[k + 1] == drawn(part)[k]);
    }
}

proof fn lemma_children_complete(
    children: Seq<Seq<usize>>,
    multiple_roots: bool,
    visit: VisitView,
    just_branched: bool,
    levels: nat,
    from: nat,
    i: int,
    node: usize,
    steps: nat,
)
    requires
        from <= i < children_in(children, visit.node).len(),
        is_below(children, children_in(children, visit.node)[i], node, steps),
        steps <= levels,
    ensures
        drawn(
            laid_out_children(children, multiple_roots, visit, just_branched, levels, from),
        ).contains(node),
    decreases levels, 1 + (children_in(children, visit.node).len() - from),
{
    let under = children_in(children, visit.node);
    let all = laid_out_children(children, multiple_roots, visit, just_branched, levels, from);
    let child = VisitView {
        node: under[from as int],
        visual: crate::tree_layout::child_visual(
            visit.visual,
            just_branched,
            multiple_roots,
            from as int,
            under.len() as int,
        ),
    };
    let first = laid_out(children, multiple_roots, child, under.len() > 1, levels);
    let rest = laid_out_children(
        children,
        multiple_roots,
        visit,
        just_branched,
        levels,
        from + 1,
    );
    assert(all == first + rest);
    if i == from {
        lemma_subtree_complete(
            children,
            multiple_roots,
            child,
            under.len() > 1,
            levels,
            node,
            steps,
        );
        let k = drawn(first).index_of(node);
        assert(drawn(all)[k] == drawn(first)[k]);
    } else {
        lemma_children_complete(
            children,
            multiple_roots,
            visit,
            just_branched,
            levels,
            from + 1,
            i,
            node,
            steps,
        );
        let k = drawn(rest).index_of(node);
        assert(drawn(all)[k + first.len()] == drawn(rest)[k]);
    }
}

proof fn lemma_roots_complete(
    children: Seq<Seq<usize>>,
    roots: Seq<usize>,
    levels: nat,
    from: nat,
    i: int,
    node: usize,
    steps: nat,
)
    requires
        from <= i < roots.len(),
        is_below(children, roots[i], node, steps),
        steps <= levels,
    ensures
        drawn(laid_out_roots(children, roots, levels, from)).contains(node),
    decreases roots.len() - from,
{
    let root = VisitView {
        node: roots[from as int],
        visual: crate::tree_layout::root_visual(from as int, roots.len() as int),
    };
    let first = laid_out(children, roots.len() > 1, root, roots.len() > 1, levels);
    let rest = laid_out_roots(children, roots, levels, from + 1);
    let all = laid_out_roots(children, roots, levels, from);
    assert(all == first + rest);
    if i == from {
        lemma_subtree_complete(
            children,
            roots.len() > 1,
            root,
            roots.len() > 1,
            levels,
            node,
            steps,
        );
        let k = drawn(first).index_of(node);
        assert(drawn(all)[k] == drawn(first)[k]);
    } else {
        lemma_roots_complete(children, roots, levels, from + 1, i, node, steps);
        let k = drawn(rest).index_of(node);
        assert(drawn(all)[k + first.len()] == drawn(rest)[k]);
    }
}

proof fn lemma_nodes_holding(
    arena: Seq<ArenaNode>,
    leaf: Option<usize>,
    nodes: Seq<usize>,
    holding: bool,
    node: usize,
)
    ensures
        nodes_holding(arena, leaf, nodes, holding).contains(node) <==> nodes.contains(node)
            && holds_leaf(arena, leaf, node as int) == holding,
    decreases nodes.len(),
{
    if nodes.len() > 0 {
        let rest = nodes.drop_last();
        let last = nodes.last();
        lemma_nodes_holding(arena, leaf, rest, holding, node);
        let before = nodes_holding(arena, leaf, rest, holding);
        let all = nodes_holding(arena, leaf, nodes, holding);
        assert(nodes[nodes.len() - 1] == last);
        if nodes.contains(node) && node != last {
            assert(rest[nodes.index_of(node)] == node);
        }
        if rest.contains(node) {
            assert(nodes[rest.index_of(node)] == node);
        }
        if holds_leaf(arena, leaf, last as int) == holding {
            assert(all == before.push(last));
            assert(all[before.len() as int] == last);
            if before.contains(node) {
                assert(all[before.index_of(node)] == node);
            }
            if all.contains(node) {
                let k = all.index_of(node);
                if k < before.len() {
                    assert(before[k] == node);
                }
            }
        }
    }
}

/// Among siblings the branch that leads to the entry in use is drawn first, and none is left out.
pub proof fn the_branch_in_use_comes_first(
    arena: Seq<ArenaNode>,
    leaf: Option<usize>,
    nodes: Seq<usize>,
    node: usize,
    p: int,
    q: int,
)
    requires
        0 <= p < q < active_first(arena, leaf, nodes).len(),
    ensures
        active_first(arena, leaf, nodes).contains(node) <==> nodes.contains(node),
        holds_leaf(arena, leaf, active_first(arena, leaf, nodes)[q] as int) ==> holds_leaf(
            arena,
            leaf,
            active_first(arena, leaf, nodes)[p] as int,
        ),
{
    lemma_active_first_holds(arena, leaf, nodes, node);
    let front = nodes_holding(arena, leaf, nodes, true);
    let back = nodes_holding(arena, leaf, nodes, false);
    let all = active_first(arena, leaf, nodes);
    if holds_leaf(arena, leaf, all[q] as int) {
        if q >= front.len() {
            assert(all[q] == back[q - front.len()]);
            lemma_nodes_holding(arena, leaf, nodes, false, all[q]);
            assert(back.contains(all[q]));
        }
        assert(all[p] == front[p]);
        lemma_nodes_holding(arena, leaf, nodes, true, all[p]);
        assert(front.contains(all[p]));
    }
}

proof fn lemma_active_first_holds(
    arena: Seq<ArenaNode>,
    leaf: Option<usize>,
    nodes: Seq<usize>,
    node: usize,
)
    ensures
        active_first(arena, leaf, nodes).contains(node) <==> nodes.contains(node),
{
    lemma_nodes_holding(arena, leaf, nodes, true, node);
    lemma_nodes_holding(arena, leaf, nodes, false, node);
    let front = nodes_holding(arena, leaf, nodes, true);
    let back = nodes_holding(arena, leaf, nodes, false);
    let all = active_first(arena, leaf, nodes);
    if front.contains(node) {
        assert(all[front.index_of(node)] == node);
    }
    if back.contains(node) {
        assert(all[front.len() + back.index_of(node)] == node);
    }
    if all.contains(node) {
        let k = all.index_of(node);
        if k < front.len() {
            assert(front[k] == node);
        } else {
            assert(back[k - front.len()] == node);
        }
    }
}

proof fn lemma_rows_under(rows: Seq<RowView>, above: Option<usize>, n: nat, i: int)
    requires
        0 <= i < n <= rows.len() <= usize::MAX,
        rows[i].above == above,
    ensures
        rows_under(rows, above, n).contains(i as usize),
    decreases n,
{
    let all = rows_under(rows, above, n);
    let before = rows_under(rows, above, (n - 1) as nat);
    if i < n - 1 {
        lemma_rows_under(rows, above, (n - 1) as nat, i);
        assert(all[before.index_of(i as usize)] == i as usize);
    } else {
        assert(all == before.push((n - 1) as usize));
        assert(all[before.len() as int] == i as usize);
    }
}

proof fn lemma_preorder_numbers(node: EntryTreeNode, above: Option<usize>, base: nat)
    requires
        base + preorder(node, above, base).len() <= usize::MAX,
    ensures
        preorder(node, above, base).len() > 0,
        preorder(node, above, base)[0].above == above,
        forall|k: int|
            0 < k < preorder(node, above, base).len() ==> ((#[trigger] preorder(
                node,
                above,
                base,
            )[k]).above matches Some(p) && base <= p < base + k),
    decreases node, 0nat,
{
    let rest = preorder_from(node.children@, 0, Some(base as usize), base + 1);
    let all = preorder(node, above, base);
    lemma_preorder_from_numbers(node.children@, 0, Some(base as usize), base + 1);
    assert forall|k: int| 0 < k < all.len() implies ((#[trigger] all[k]).above matches Some(p)
        && base <= p < base + k) by {
        assert(all[k] == rest[k - 1]);
    }
}

proof fn lemma_preorder_from_numbers(
    nodes: Seq<EntryTreeNode>,
    from: nat,
    above: Option<usize>,
    base: nat,
)
    requires
        base + preorder_from(nodes, from, above, base).len() <= usize::MAX,
    ensures
        forall|k: int|
            0 <= k < preorder_from(nodes, from, above, base).len() ==> (#[trigger] preorder_from(
                nodes,
                from,
                above,
                base,
            )[k]).above == above || (preorder_from(nodes, from, above, base)[k].above matches Some(p)
                && base <= p < base + k),
    decreases nodes, nodes.len() - from + 1,
{
    if from < nodes.len() {
        let first = preorder(nodes[from as int], above, base);
        let rest = preorder_from(nodes, from + 1, above, base + first.len());
        let all = preorder_from(nodes, from, above, base);
        lemma_preorder_numbers(nodes[from as int], above, base);
        lemma_preorder_from_numbers(nodes, from + 1, above, base + first.len());
        assert forall|k: int| 0 <= k < all.len() implies (#[trigger] all[k]).above == above || (
        all[k].above matches Some(p) && base <= p < base + k) by {
            if k < first.len() {
                assert(all[k] == first[k]);
            } else {
                assert(all[k] == rest[k - first.len()]);
            }
        }
    }
}

proof fn lemma_step_below(
    children: Seq<Seq<usize>>,
    top: usize,
    middle: usize,
    node: usize,
    steps: nat,
)
    requires
        is_below(children, top, middle, steps),
        children_in(children, middle).contains(node),
    ensures
        is_below(children, top, node, steps + 1),
    decreases steps,
{
    if steps == 0 {
        let i = children_in(children, top).index_of(node);
        assert(is_below(children, children_in(children, top)[i], node, 0));
    } else {
        let i = choose|i: int|
            0 <= i < children_in(children, top).len() && is_below(
                children,
                #[trigger] children_in(children, top)[i],
                middle,
                (steps - 1) as nat,
            );
        lemma_step_below(
            children,
            children_in(children, top)[i],
            middle,
            node,
            (steps - 1) as nat,
        );
        assert(is_below(children, children_in(children, top)[i], node, steps));
    }
}

proof fn lemma_reached(
    rows: Seq<RowView>,
    arena: Seq<ArenaNode>,
    leaf: Option<usize>,
    i: int,
) -> (r: (int, nat))
    requires
        rows.len() <= usize::MAX,
        arena.len() == rows.len(),
        forall|j: int| 0 <= j < arena.len() ==> is_arena_node(rows, #[trigger] arena[j], j),
        forall|j: int|
            0 <= j < rows.len() ==> ((#[trigger] rows[j]).above matches Some(p) ==> p < j),
        0 <= i < rows.len(),
    ensures
        ({
            let roots = active_first(arena, leaf, rows_under(rows, None, rows.len()));
            &&& 0 <= r.0 < roots.len()
            &&& r.1 <= i
            &&& is_below(active_table(arena, leaf), roots[r.0], i as usize, r.1)
        }),
    decreases i,
{
    let top = rows_under(rows, None, rows.len());
    let roots = active_first(arena, leaf, top);
    let table = active_table(arena, leaf);
    match rows[i].above {
        None => {
            lemma_rows_under(rows, None, rows.len(), i);
            lemma_active_first_holds(arena, leaf, top, i as usize);
            let k = roots.index_of(i as usize);
            assert(is_below(table, roots[k], i as usize, 0));
            (k, 0)
        },
        Some(p) => {
            assert(rows[i].above matches Some(q) ==> q < i);
            let (k, steps) = lemma_reached(rows, arena, leaf, p as int);
            assert(is_arena_node(rows, arena[p as int], p as int));
            lemma_rows_under(rows, Some(p), rows.len(), i);
            lemma_active_first_holds(arena, leaf, arena[p as int].children@, i as usize);
            assert(children_in(table, p) == active_first(arena, leaf, arena[p as int].children@));
            lemma_step_below(table, roots[k], p, i as usize, steps);
            (k, steps + 1)
        },
    }
}

/// Every entry of a session tree is in the list that is made of it.
pub proof fn every_entry_is_in_the_tree(
    list: TreeList,
    tree: Seq<EntryTreeNode>,
    current_leaf_id: Option<&str>,
    max_visible_lines: usize,
    initial_selected_id: Option<&str>,
    initial_filter_mode: Option<FilterMode>,
    i: int,
)
    requires
        tree_rows(tree).len() <= usize::MAX,
        is_new_list(
            list,
            tree_rows(tree),
            current_leaf_id,
            max_visible_lines,
            initial_selected_id,
            initial_filter_mode,
        ),
        0 <= i < tree_rows(tree).len(),
    ensures
        list.flat().contains(i as usize),
        list.arena@[i].entry == tree_rows(tree)[i].entry,
{
    let rows = tree_rows(tree);
    let arena = list.arena@;
    lemma_preorder_from_numbers(tree, 0, None, 0);
    assert forall|j: int| 0 <= j < rows.len() implies ((#[trigger] rows[j]).above matches Some(p)
        ==> p < j) by {
        assert(rows[j] == preorder_from(tree, 0, None, 0)[j]);
    }
    let (k, steps) = lemma_reached(rows, arena, list.current_leaf, i);
    let table = active_table(arena, list.current_leaf);
    let roots = active_first(arena, list.current_leaf, rows_under(rows, None, rows.len()));
    lemma_roots_complete(table, roots, arena.len(), 0, k, i as usize, steps);
    assert(list.flat() =~= drawn(laid_out_roots(table, roots, arena.len(), 0)));
    assert(is_arena_node(rows, arena[i], i));
}

} // verus!
