//! What the flattened session tree lists.

use crate::order::{
    comes_before, is_stable_order, lemma_covers, lemma_stable_order_exists, stable_order,
};
use crate::session::{CanonicalPaths, SessionInfo};
use crate::session_tree::{
    activity_keys, by_activity, flat_tree, flat_trees, is_session_forest, is_session_tree,
    last_at_path, latest, latest_among, link_of, nodes_under, session_links, ActivityKey, FlatView,
    SessionLink, SessionTreeNode,
};
use vstd::prelude::*;

verus! {

/// How often a session stands in the list.
pub open spec fn occurrences(flat: Seq<FlatView>, session: SessionInfo) -> nat
    decreases flat.len(),
{
    if flat.len() == 0 {
        0
    } else {
        occurrences(flat.drop_last(), session) + if flat.last().session == session {
            1nat
        } else {
            0
        }
    }
}

/// How many sessions are above a session, if following the parents ends within `fuel` steps.
pub open spec fn level(links: Seq<SessionLink>, v: usize, fuel: nat) -> Option<nat>
    decreases fuel,
{
    match links[v as int].parent {
        None => Some(0),
        Some(p) => if fuel == 0 {
            None
        } else {
            match level(links, p, (fuel - 1) as nat) {
                Some(n) => Some(n + 1),
                None => None,
            }
        },
    }
}

/// Whether no other session is in the file of the session.
pub open spec fn has_own_file(sessions: Seq<SessionInfo>, paths: CanonicalPaths, i: int) -> bool {
    forall|j: int|
        0 <= j < sessions.len() && j != i ==> paths.canonical((#[trigger] sessions[j]).path@)
            != paths.canonical(sessions[i].path@)
}

/// Whether the session and all that it descends from have files of their own, and following the
/// parents ends within `fuel` steps at a session at the top.
pub open spec fn is_rooted(
    sessions: Seq<SessionInfo>,
    paths: CanonicalPaths,
    v: usize,
    fuel: nat,
) -> bool
    decreases fuel,
{
    &&& has_own_file(sessions, paths, v as int)
    &&& match session_links(sessions, paths)[v as int].parent {
        None => true,
        Some(p) => fuel > 0 && is_rooted(sessions, paths, p, (fuel - 1) as nat),
    }
}

spec fn well_linked(links: Seq<SessionLink>) -> bool {
    &&& links.len() <= usize::MAX
    &&& forall|i: int| 0 <= i < links.len() ==> (#[trigger] links[i]).node < links.len()
    &&& forall|i: int|
        0 <= i < links.len() ==> ((#[trigger] links[i]).parent matches Some(p) ==> p < links.len())
}

spec fn is_placed(links: Seq<SessionLink>, v: usize) -> bool {
    level(links, v, links.len()) is Some
}

/// Whether the session stands for itself and for no other.
spec fn is_lone(links: Seq<SessionLink>, v: usize) -> bool {
    forall|j: int| 0 <= j < links.len() ==> (#[trigger] links[j].node == v <==> j == v)
}

spec fn has_lone_way(links: Seq<SessionLink>, v: usize) -> bool {
    &&& is_placed(links, v)
    &&& forall|k: nat| k <= depth_of(links, v) ==> is_lone(links, #[trigger] up(links, v, k))
}

spec fn depth_of(links: Seq<SessionLink>, v: usize) -> nat {
    level(links, v, links.len())->0
}

spec fn up(links: Seq<SessionLink>, v: usize, k: nat) -> usize
    decreases k,
{
    if k == 0 {
        v
    } else {
        match links[v as int].parent {
            Some(p) => up(links, p, (k - 1) as nat),
            None => v,
        }
    }
}

spec fn is_above(links: Seq<SessionLink>, u: usize, v: usize) -> bool {
    is_placed(links, u) && depth_of(links, u) <= depth_of(links, v) && up(
        links,
        v,
        (depth_of(links, v) - depth_of(links, u)) as nat,
    ) == u
}

proof fn lemma_level_fuel(links: Seq<SessionLink>, v: usize, fuel: nat, more: nat)
    requires
        level(links, v, fuel) is Some,
        fuel <= more,
    ensures
        level(links, v, more) == level(links, v, fuel),
        level(links, v, fuel)->0 <= fuel,
    decreases fuel,
{
    if let Some(p) = links[v as int].parent {
        lemma_level_fuel(links, p, (fuel - 1) as nat, (more - 1) as nat);
    }
}

proof fn lemma_parent_depth(links: Seq<SessionLink>, v: usize)
    requires
        well_linked(links),
        is_placed(links, v),
        v < links.len(),
    ensures
        depth_of(links, v) <= links.len(),
        links[v as int].parent is None <==> depth_of(links, v) == 0,
        links[v as int].parent matches Some(p) ==> is_placed(links, p) && depth_of(links, v)
            == depth_of(links, p) + 1 && p < links.len(),
{
    lemma_level_fuel(links, v, links.len(), links.len());
    if let Some(p) = links[v as int].parent {
        lemma_level_fuel(links, p, (links.len() - 1) as nat, links.len());
    }
}

proof fn lemma_up(links: Seq<SessionLink>, v: usize, k: nat)
    requires
        well_linked(links),
        is_placed(links, v),
        v < links.len(),
        k <= depth_of(links, v),
    ensures
        up(links, v, k) < links.len(),
        is_placed(links, up(links, v, k)),
        depth_of(links, up(links, v, k)) == depth_of(links, v) - k,
        k < depth_of(links, v) ==> links[up(links, v, k) as int].parent == Some(
            up(links, v, k + 1),
        ),
    decreases k,
{
    lemma_parent_depth(links, v);
    if k > 0 {
        let p = links[v as int].parent->0;
        lemma_up(links, p, (k - 1) as nat);
    } else if 0 < depth_of(links, v) {
        let p = links[v as int].parent->0;
        assert(up(links, v, 1) == up(links, p, 0));
    }
}

/// Of the nodes under `u`, exactly the one on the way to `v` is above it.
proof fn lemma_child_above(links: Seq<SessionLink>, u: usize, v: usize, w: usize)
    requires
        well_linked(links),
        is_placed(links, v),
        u < links.len(),
        v < links.len(),
        w < links.len(),
        links[w as int].parent == Some(u),
        is_above(links, w, v),
    ensures
        depth_of(links, w) == depth_of(links, u) + 1,
        is_above(links, u, v),
        u != v,
        w == up(links, v, (depth_of(links, v) - depth_of(links, u) - 1) as nat),
{
    lemma_parent_depth(links, w);
    let k = (depth_of(links, v) - depth_of(links, w)) as nat;
    lemma_up(links, v, k);
    assert(k + 1 == depth_of(links, v) - depth_of(links, u));
}

proof fn lemma_way_down(links: Seq<SessionLink>, u: usize, v: usize) -> (w: usize)
    requires
        well_linked(links),
        is_placed(links, v),
        u < links.len(),
        v < links.len(),
        is_above(links, u, v),
        u != v,
    ensures
        w < links.len(),
        links[w as int].parent == Some(u),
        is_above(links, w, v),
{
    assert(depth_of(links, u) < depth_of(links, v)) by {
        if depth_of(links, u) == depth_of(links, v) {
            assert(up(links, v, 0) == v);
        }
    }
    let k = (depth_of(links, v) - depth_of(links, u) - 1) as nat;
    lemma_up(links, v, k);
    let w = up(links, v, k);
    assert(k + 1 == depth_of(links, v) - depth_of(links, u));
    assert(depth_of(links, w) == depth_of(links, v) - k);
    w
}

proof fn lemma_top_above(links: Seq<SessionLink>, v: usize) -> (r: usize)
    requires
        well_linked(links),
        is_placed(links, v),
        v < links.len(),
    ensures
        r < links.len(),
        links[r as int].parent is None,
        is_above(links, r, v),
        forall|s: usize|
            s < links.len() && #[trigger] links[s as int].parent is None && is_above(links, s, v)
                ==> s == r,
{
    let k = depth_of(links, v);
    lemma_up(links, v, k);
    let r = up(links, v, k);
    lemma_parent_depth(links, r);
    assert forall|s: usize|
        s < links.len() && #[trigger] links[s as int].parent is None && is_above(
            links,
            s,
            v,
        ) implies s == r by {
        lemma_parent_depth(links, s);
    }
    r
}

/// Whether the node occurs at most once.
spec fn at_most_once(nodes: Seq<usize>, w: usize) -> bool {
    forall|i: int, j: int|
        0 <= i < nodes.len() && 0 <= j < nodes.len() && #[trigger] nodes[i] == w
            && #[trigger] nodes[j] == w ==> i == j
}

/// A node that stands for itself alone is once under its parent and under no other.
proof fn lemma_nodes_under(links: Seq<SessionLink>, parent: Option<usize>, n: nat, w: usize)
    requires
        n <= links.len() <= usize::MAX,
        forall|i: int| 0 <= i < links.len() ==> (#[trigger] links[i]).node < links.len(),
        is_lone(links, w),
        w < links.len(),
    ensures
        nodes_under(links.take(n as int), parent).len() <= n,
        at_most_once(nodes_under(links.take(n as int), parent), w),
        nodes_under(links.take(n as int), parent).contains(w) <==> w < n && links[w as int].parent
            == parent,
        forall|k: int|
            0 <= k < nodes_under(links.take(n as int), parent).len() ==> #[trigger] nodes_under(
                links.take(n as int),
                parent,
            )[k] < links.len(),
    decreases n,
{
    let head = links.take(n as int);
    let nodes = nodes_under(head, parent);
    if n > 0 {
        lemma_nodes_under(links, parent, (n - 1) as nat, w);
        assert(head.drop_last() =~= links.take(n - 1));
        let before = nodes_under(links.take(n - 1), parent);
        let last = links[n - 1];
        assert(head.last() == last);
        assert(last.node == w <==> n - 1 == w);
        if last.parent == parent {
            assert(nodes == before.push(last.node));
            assert(nodes[before.len() as int] == last.node);
            if before.contains(w) {
                assert(nodes[before.index_of(w)] == w);
            }
            if nodes.contains(w) && last.node != w {
                assert(before[nodes.index_of(w)] == w);
            }
            assert forall|i: int, j: int|
                0 <= i < nodes.len() && 0 <= j < nodes.len() && #[trigger] nodes[i] == w
                    && #[trigger] nodes[j] == w implies i == j by {
                if i < before.len() {
                    assert(before[i] == w);
                    assert(before.contains(w));
                }
                if j < before.len() {
                    assert(before[j] == w);
                    assert(before.contains(w));
                }
            }
            assert forall|k: int| 0 <= k < nodes.len() implies #[trigger] nodes[k]
                < links.len() by {
                if k < before.len() {
                    assert(before[k] < links.len());
                }
            }
        }
    }
}

proof fn lemma_by_activity(
    sessions: Seq<SessionInfo>,
    links: Seq<SessionLink>,
    nodes: Seq<usize>,
    depth: nat,
    w: usize,
)
    requires
        nodes.len() <= usize::MAX,
        at_most_once(nodes, w),
    ensures
        by_activity(sessions, links, nodes, depth).len() == nodes.len(),
        at_most_once(by_activity(sessions, links, nodes, depth), w),
        by_activity(sessions, links, nodes, depth).contains(w) <==> nodes.contains(w),
        forall|k: int|
            0 <= k < nodes.len() ==> nodes.contains(
                #[trigger] by_activity(sessions, links, nodes, depth)[k],
            ),
{
    let keys = activity_keys(sessions, links, nodes, depth);
    lemma_stable_order_exists::<ActivityKey>(keys);
    let order = stable_order::<ActivityKey>(keys);
    assert(is_stable_order::<ActivityKey>(order, keys));
    lemma_covers(order, keys.len());
    let sorted = by_activity(sessions, links, nodes, depth);
    assert forall|k: int| 0 <= k < nodes.len() implies nodes.contains(#[trigger] sorted[k]) by {
        assert(nodes[order[k] as int] == sorted[k]);
    }
    assert forall|i: int, j: int|
        0 <= i < sorted.len() && 0 <= j < sorted.len() && #[trigger] sorted[i] == w
            && #[trigger] sorted[j] == w implies i == j by {
        assert(nodes[order[i] as int] == w && nodes[order[j] as int] == w);
        assert(order[i] == order[j]);
    }
    if nodes.contains(w) {
        let k = nodes.index_of(w);
        assert(order.contains(k as usize));
        let p = order.index_of(k as usize);
        assert(sorted[p] == w);
    }
    if sorted.contains(w) {
        let k = sorted.index_of(w);
        assert(nodes[order[k] as int] == w);
    }
}

proof fn lemma_occurrences_add(a: Seq<FlatView>, b: Seq<FlatView>, session: SessionInfo)
    ensures
        occurrences(a + b, session) == occurrences(a, session) + occurrences(b, session),
    decreases b.len(),
{
    if b.len() == 0 {
        assert(a + b =~= a);
    } else {
        assert((a + b).drop_last() =~= a + b.drop_last());
        lemma_occurrences_add(a, b.drop_last(), session);
    }
}

spec fn one_if(b: bool) -> nat {
    if b {
        1
    } else {
        0
    }
}

/// The trees of the first `n` nodes list `v` once if one of the nodes is above it.
proof fn lemma_trees_list(
    sessions: Seq<SessionInfo>,
    links: Seq<SessionLink>,
    trees: Seq<SessionTreeNode>,
    nodes: Seq<usize>,
    depth: nat,
    continues: Seq<bool>,
    v: usize,
    n: nat,
)
    requires
        well_linked(links),
        sessions.len() == links.len(),
        has_lone_way(links, v),
        forall|j: int| 0 <= j < sessions.len() && #[trigger] sessions[j] == sessions[v as int] ==> j == v,
        v < links.len(),
        n <= nodes.len(),
        trees.len() == nodes.len(),
        forall|k: int|
            0 <= k < nodes.len() ==> #[trigger] nodes[k] < links.len() && (is_above(
                links,
                nodes[k],
                v,
            ) ==> depth_of(links, v) <= depth_of(links, nodes[k]) + depth),
        forall|k: int|
            0 <= k < nodes.len() ==> is_session_tree(
                sessions,
                links,
                #[trigger] trees[k],
                nodes[k],
                depth,
            ),
        forall|j: int, k: int|
            0 <= j < nodes.len() && 0 <= k < nodes.len() && is_above(
                links,
                #[trigger] nodes[j],
                v,
            ) && is_above(links, #[trigger] nodes[k], v) ==> j == k,
    ensures
        occurrences(flat_trees(trees, n, continues), sessions[v as int]) == one_if(
            exists|k: int| 0 <= k < n && is_above(links, #[trigger] nodes[k], v),
        ),
    decreases depth, n + 1,
{
    if n > 0 {
        let before = flat_trees(trees, (n - 1) as nat, continues);
        let last = flat_tree(trees[n - 1], continues, n == trees.len());
        lemma_trees_list(sessions, links, trees, nodes, depth, continues, v, (n - 1) as nat);
        lemma_tree_lists(
            sessions,
            links,
            trees[n - 1],
            nodes[n - 1],
            depth,
            continues,
            n == trees.len(),
            v,
        );
        lemma_occurrences_add(before, last, sessions[v as int]);
        let some_before = exists|k: int| 0 <= k < n - 1 && is_above(links, #[trigger] nodes[k], v);
        let some = exists|k: int| 0 <= k < n && is_above(links, #[trigger] nodes[k], v);
        if is_above(links, nodes[n - 1], v) {
            assert(some);
            assert(!some_before);
        } else if some {
            let k = choose|k: int| 0 <= k < n && is_above(links, #[trigger] nodes[k], v);
            assert(0 <= k < n - 1);
            assert(some_before);
        }
    }
}

/// The tree of `u` lists `v` once if `u` is above it, and not at all otherwise.
proof fn lemma_tree_lists(
    sessions: Seq<SessionInfo>,
    links: Seq<SessionLink>,
    tree: SessionTreeNode,
    u: usize,
    depth: nat,
    continues: Seq<bool>,
    is_last: bool,
    v: usize,
)
    requires
        well_linked(links),
        sessions.len() == links.len(),
        has_lone_way(links, v),
        forall|j: int| 0 <= j < sessions.len() && #[trigger] sessions[j] == sessions[v as int] ==> j == v,
        u < links.len(),
        v < links.len(),
        is_session_tree(sessions, links, tree, u, depth),
        is_above(links, u, v) ==> depth_of(links, v) <= depth_of(links, u) + depth,
    ensures
        occurrences(flat_tree(tree, continues, is_last), sessions[v as int]) == one_if(
            is_above(links, u, v),
        ),
    decreases depth, 0nat,
{
    let session = sessions[v as int];
    let next = continues.push(continues.len() > 0 && !is_last);
    let head = seq![
        FlatView {
            session: tree.session,
            depth: continues.len(),
            is_last,
            ancestor_continues: continues,
        },
    ];
    let below = flat_trees(tree.children@, tree.children@.len(), next);
    lemma_occurrences_add(head, below, session);
    assert(head.drop_last() =~= Seq::empty());
    assert(occurrences(head.drop_last(), session) == 0);
    assert(head.last().session == tree.session);
    assert(occurrences(head, session) == one_if(tree.session == session));
    assert((tree.session == session) == (u == v)) by {
        assert(sessions[u as int] == session ==> u == v);
    }
    assert(is_above(links, v, v)) by {
        assert(up(links, v, 0) == v);
    }
    if depth == 0 {
        assert(occurrences(below, session) == 0);
        if is_above(links, u, v) {
            assert(up(links, v, 0) == v);
        }
    } else {
        let nodes = nodes_under(links, Some(u));
        let under = by_activity(sessions, links, nodes, (depth - 1) as nat);
        assert(links.take(links.len() as int) =~= links);
        assert(is_lone(links, up(links, v, 0)));
        lemma_nodes_under(links, Some(u), links.len(), v);
        lemma_by_activity(sessions, links, nodes, (depth - 1) as nat, v);
        assert forall|k: int| 0 <= k < under.len() implies #[trigger] under[k] < links.len() by {
            assert(nodes.contains(under[k]));
            assert(nodes[nodes.index_of(under[k])] == under[k]);
        }
        assert forall|k: int|
            0 <= k < under.len() && is_above(links, #[trigger] under[k], v) implies links[under[k] as int].parent
            == Some(u) && depth_of(links, v) <= depth_of(links, under[k]) + (depth - 1) by {
            let w = under[k];
            assert(is_lone(links, up(links, v, (depth_of(links, v) - depth_of(links, w)) as nat)));
            lemma_nodes_under(links, Some(u), links.len(), w);
            assert(nodes.contains(w));
            lemma_child_above(links, u, v, w);
        }
        assert forall|j: int, k: int|
            0 <= j < under.len() && 0 <= k < under.len() && is_above(
                links,
                #[trigger] under[j],
                v,
            ) && is_above(links, #[trigger] under[k], v) implies j == k by {
            let w = under[j];
            assert(is_lone(links, up(links, v, (depth_of(links, v) - depth_of(links, w)) as nat)));
            lemma_child_above(links, u, v, under[j]);
            lemma_child_above(links, u, v, under[k]);
            assert(under[j] == under[k]);
            lemma_nodes_under(links, Some(u), links.len(), w);
            lemma_by_activity(sessions, links, nodes, (depth - 1) as nat, w);
        }
        lemma_trees_list(
            sessions,
            links,
            tree.children@,
            under,
            (depth - 1) as nat,
            next,
            v,
            under.len(),
        );
        let some = exists|k: int| 0 <= k < under.len() && is_above(links, #[trigger] under[k], v);
        if some {
            let k = choose|k: int| 0 <= k < under.len() && is_above(links, #[trigger] under[k], v);
            lemma_child_above(links, u, v, under[k]);
        }
        if is_above(links, u, v) && u != v {
            let w = lemma_way_down(links, u, v);
            assert(is_lone(links, up(links, v, (depth_of(links, v) - depth_of(links, w)) as nat)));
            lemma_nodes_under(links, Some(u), links.len(), w);
            lemma_by_activity(sessions, links, nodes, (depth - 1) as nat, w);
            assert(under.contains(w));
            let k = under.index_of(w);
            assert(is_above(links, under[k], v));
        }
    }
}

proof fn lemma_last_at_path(
    sessions: Seq<SessionInfo>,
    paths: CanonicalPaths,
    path: Seq<char>,
    n: nat,
)
    requires
        n <= sessions.len() <= usize::MAX,
    ensures
        match last_at_path(sessions, paths, path, n) {
            Some(i) => i < n && paths.canonical(sessions[i as int].path@) == path,
            None => forall|j: int|
                0 <= j < n ==> paths.canonical((#[trigger] sessions[j]).path@) != path,
        },
    decreases n,
{
    if n > 0 {
        lemma_last_at_path(sessions, paths, path, (n - 1) as nat);
    }
}

proof fn lemma_well_linked(sessions: Seq<SessionInfo>, paths: CanonicalPaths)
    requires
        sessions.len() <= usize::MAX,
    ensures
        well_linked(session_links(sessions, paths)),
{
    let links = session_links(sessions, paths);
    assert forall|i: int| 0 <= i < links.len() implies (#[trigger] links[i]).node < links.len() && (
    links[i].parent matches Some(p) ==> p < links.len()) by {
        assert(links[i] == link_of(sessions, paths, i));
        lemma_last_at_path(
            sessions,
            paths,
            paths.canonical(sessions[i].path@),
            sessions.len(),
        );
        if let Some(parent) = sessions[i].parent_session_path {
            lemma_last_at_path(sessions, paths, paths.canonical(parent@), sessions.len());
        }
    }
}

/// A session with a file of its own stands for itself alone.
proof fn lemma_own_file_is_lone(sessions: Seq<SessionInfo>, paths: CanonicalPaths, v: usize)
    requires
        sessions.len() <= usize::MAX,
        v < sessions.len(),
        has_own_file(sessions, paths, v as int),
    ensures
        is_lone(session_links(sessions, paths), v),
{
    let links = session_links(sessions, paths);
    assert forall|j: int| 0 <= j < links.len() implies (#[trigger] links[j].node == v <==> j
        == v) by {
        assert(links[j] == link_of(sessions, paths, j));
        lemma_last_at_path(
            sessions,
            paths,
            paths.canonical(sessions[j].path@),
            sessions.len(),
        );
        let node = links[j].node as int;
        assert(paths.canonical(sessions[node].path@) == paths.canonical(sessions[j].path@));
    }
}

proof fn lemma_rooted(sessions: Seq<SessionInfo>, paths: CanonicalPaths, v: usize, fuel: nat)
    requires
        sessions.len() <= usize::MAX,
        v < sessions.len(),
        is_rooted(sessions, paths, v, fuel),
    ensures
        level(session_links(sessions, paths), v, fuel) is Some,
        forall|k: nat|
            k <= level(session_links(sessions, paths), v, fuel)->0 ==> is_lone(
                session_links(sessions, paths),
                #[trigger] up(session_links(sessions, paths), v, k),
            ),
    decreases fuel,
{
    let links = session_links(sessions, paths);
    lemma_well_linked(sessions, paths);
    lemma_own_file_is_lone(sessions, paths, v);
    if let Some(p) = links[v as int].parent {
        assert(links[v as int].parent matches Some(q) ==> q < links.len());
        lemma_rooted(sessions, paths, p, (fuel - 1) as nat);
        assert forall|k: nat| k <= level(links, v, fuel)->0 implies is_lone(
            links,
            #[trigger] up(links, v, k),
        ) by {
            if k > 0 {
                assert(up(links, v, k) == up(links, p, (k - 1) as nat));
            }
        }
    }
}

/// A session that descends from one at the top is listed exactly once, where it and all that it
/// descends from have files of their own.
pub proof fn every_session_is_listed_once(
    sessions: Seq<SessionInfo>,
    paths: CanonicalPaths,
    trees: Seq<SessionTreeNode>,
    i: int,
)
    requires
        sessions.len() <= usize::MAX,
        0 <= i < sessions.len(),
        is_rooted(sessions, paths, i as usize, sessions.len()),
        is_session_forest(
            sessions,
            session_links(sessions, paths),
            trees,
            nodes_under(session_links(sessions, paths), None),
            sessions.len(),
        ),
    ensures
        occurrences(flat_trees(trees, trees.len(), Seq::empty()), sessions[i]) == 1,
{
    let links = session_links(sessions, paths);
    let v = i as usize;
    lemma_well_linked(sessions, paths);
    lemma_rooted(sessions, paths, v, sessions.len());
    assert forall|j: int|
        0 <= j < sessions.len() && #[trigger] sessions[j] == sessions[v as int] implies j == v by {
        assert(has_own_file(sessions, paths, i));
    }
    let nodes = nodes_under(links, None);
    let sorted = by_activity(sessions, links, nodes, sessions.len());
    assert(links.take(links.len() as int) =~= links);
    assert(is_lone(links, up(links, v, 0)));
    lemma_nodes_under(links, None, links.len(), v);
    lemma_by_activity(sessions, links, nodes, sessions.len(), v);
    let top = lemma_top_above(links, v);
    lemma_parent_depth(links, v);
    assert(is_lone(links, up(links, v, (depth_of(links, v) - depth_of(links, top)) as nat)));
    lemma_nodes_under(links, None, links.len(), top);
    lemma_by_activity(sessions, links, nodes, sessions.len(), top);
    assert forall|k: int| 0 <= k < sorted.len() implies #[trigger] sorted[k] < links.len() by {
        assert(nodes.contains(sorted[k]));
        assert(nodes[nodes.index_of(sorted[k])] == sorted[k]);
    }
    assert forall|k: int| 0 <= k < sorted.len() && is_above(links, #[trigger] sorted[k], v) implies sorted[k]
        == top by {
        let w = sorted[k];
        assert(is_lone(links, up(links, v, (depth_of(links, v) - depth_of(links, w)) as nat)));
        lemma_nodes_under(links, None, links.len(), w);
        assert(nodes.contains(w));
        assert(links[w as int].parent is None);
    }
    lemma_trees_list(
        sessions,
        links,
        trees,
        sorted,
        sessions.len(),
        Seq::empty(),
        v,
        sorted.len(),
    );
    assert(sorted.contains(top));
    let k = sorted.index_of(top);
    assert(is_above(links, sorted[k], v));
}

/// Every listed session has one guide for each level above it.
pub proof fn guides_match_the_depth(
    trees: Seq<SessionTreeNode>,
    n: nat,
    continues: Seq<bool>,
    k: int,
)
    requires
        0 <= k < flat_trees(trees, n, continues).len(),
    ensures
        flat_trees(trees, n, continues)[k].depth == flat_trees(
            trees,
            n,
            continues,
        )[k].ancestor_continues.len(),
    decreases trees, n + 1,
{
    if n > 0 && n <= trees.len() {
        let before = flat_trees(trees, (n - 1) as nat, continues);
        if k < before.len() {
            guides_match_the_depth(trees, (n - 1) as nat, continues, k);
        } else {
            let tree = trees[n - 1];
            let is_last = n == trees.len();
            let next = continues.push(continues.len() > 0 && !is_last);
            let whole = flat_tree(tree, continues, is_last);
            let below = flat_trees(tree.children@, tree.children@.len(), next);
            assert(flat_trees(trees, n, continues) == before + whole);
            assert(whole.len() == 1 + below.len());
            if k > before.len() {
                guides_match_the_depth(
                    tree.children@,
                    tree.children@.len(),
                    next,
                    k - before.len() - 1,
                );
                assert(whole[k - before.len()] == below[k - before.len() - 1]);
            }
        }
    }
}

/// Whether the trees stand by their latest activity, the most recent first.
pub open spec fn is_recent_first(trees: Seq<SessionTreeNode>) -> bool {
    forall|i: int, j: int|
        0 <= i < j < trees.len() ==> (#[trigger] trees[i]).latest_activity >= (
        #[trigger] trees[j]).latest_activity
}

/// Whether each node of the tree is at least as recent as its session and what is under it, and the
/// most recent stand first at each level.
pub open spec fn tells_activity(tree: SessionTreeNode) -> bool
    decreases tree,
{
    &&& tree.latest_activity >= tree.session.modified_ms
    &&& is_recent_first(tree.children@)
    &&& forall|k: int|
        0 <= k < tree.children@.len() ==> tree.latest_activity >= (
        #[trigger] tree.children@[k]).latest_activity && tells_activity(tree.children@[k])
}

proof fn lemma_nodes_under_len(links: Seq<SessionLink>, parent: Option<usize>)
    ensures
        nodes_under(links, parent).len() <= links.len(),
    decreases links.len(),
{
    if links.len() > 0 {
        lemma_nodes_under_len(links.drop_last(), parent);
    }
}

proof fn lemma_latest_among(
    sessions: Seq<SessionInfo>,
    links: Seq<SessionLink>,
    nodes: Seq<usize>,
    depth: nat,
    own: i64,
)
    ensures
        latest_among(sessions, links, nodes, depth, own) >= own,
        forall|k: int|
            0 <= k < nodes.len() ==> latest_among(sessions, links, nodes, depth, own) >= latest(
                sessions,
                links,
                #[trigger] nodes[k],
                depth,
            ),
    decreases nodes.len(),
{
    if nodes.len() > 0 {
        let rest = nodes.drop_last();
        lemma_latest_among(sessions, links, rest, depth, own);
        assert forall|k: int| 0 <= k < nodes.len() implies latest_among(
            sessions,
            links,
            nodes,
            depth,
            own,
        ) >= latest(sessions, links, #[trigger] nodes[k], depth) by {
            if k < rest.len() {
                assert(rest[k] == nodes[k]);
            }
        }
    }
}

/// The nodes by activity are among the given ones, the most recent first.
proof fn lemma_activity_falls(
    sessions: Seq<SessionInfo>,
    links: Seq<SessionLink>,
    nodes: Seq<usize>,
    depth: nat,
)
    requires
        nodes.len() <= usize::MAX,
    ensures
        forall|k: int|
            0 <= k < by_activity(sessions, links, nodes, depth).len() ==> nodes.contains(
                #[trigger] by_activity(sessions, links, nodes, depth)[k],
            ),
        forall|i: int, j: int|
            0 <= i < j < by_activity(sessions, links, nodes, depth).len() ==> latest(
                sessions,
                links,
                #[trigger] by_activity(sessions, links, nodes, depth)[i],
                depth,
            ) >= latest(
                sessions,
                links,
                #[trigger] by_activity(sessions, links, nodes, depth)[j],
                depth,
            ),
{
    let keys = activity_keys(sessions, links, nodes, depth);
    lemma_stable_order_exists::<ActivityKey>(keys);
    let order = stable_order::<ActivityKey>(keys);
    let sorted = by_activity(sessions, links, nodes, depth);
    assert forall|k: int| 0 <= k < sorted.len() implies nodes.contains(#[trigger] sorted[k]) by {
        assert(sorted[k] == nodes[order[k] as int]);
    }
    assert forall|i: int, j: int| 0 <= i < j < sorted.len() implies latest(
        sessions,
        links,
        #[trigger] sorted[i],
        depth,
    ) >= latest(sessions, links, #[trigger] sorted[j], depth) by {
        assert(comes_before::<ActivityKey>(keys, order[i] as int, order[j] as int));
        assert(keys[order[i] as int].latest == latest(sessions, links, sorted[i], depth));
        assert(keys[order[j] as int].latest == latest(sessions, links, sorted[j], depth));
    }
}

proof fn lemma_tree_tells_activity(
    sessions: Seq<SessionInfo>,
    links: Seq<SessionLink>,
    tree: SessionTreeNode,
    node: usize,
    depth: nat,
)
    requires
        links.len() <= usize::MAX,
        is_session_tree(sessions, links, tree, node, depth),
    ensures
        tells_activity(tree),
    decreases depth,
{
    if depth > 0 {
        let below = (depth - 1) as nat;
        let nodes = nodes_under(links, Some(node));
        let under = by_activity(sessions, links, nodes, below);
        lemma_nodes_under_len(links, Some(node));
        lemma_activity_falls(sessions, links, nodes, below);
        lemma_latest_among(sessions, links, nodes, below, sessions[node as int].modified_ms);
        assert forall|k: int| 0 <= k < tree.children@.len() implies tree.latest_activity >= (
        #[trigger] tree.children@[k]).latest_activity && tells_activity(tree.children@[k]) by {
            assert(is_session_tree(sessions, links, tree.children@[k], under[k], below));
            lemma_tree_tells_activity(sessions, links, tree.children@[k], under[k], below);
            assert(nodes.contains(under[k]));
            assert(nodes[nodes.index_of(under[k])] == under[k]);
        }
        assert forall|i: int, j: int| 0 <= i < j < tree.children@.len() implies (
        #[trigger] tree.children@[i]).latest_activity >= (
        #[trigger] tree.children@[j]).latest_activity by {
            assert(is_session_tree(sessions, links, tree.children@[i], under[i], below));
            assert(is_session_tree(sessions, links, tree.children@[j], under[j], below));
        }
    }
}

/// At every level of the session tree the sessions stand by the latest activity in or under them,
/// the most recent first.
pub proof fn recent_sessions_come_first(
    sessions: Seq<SessionInfo>,
    paths: CanonicalPaths,
    trees: Seq<SessionTreeNode>,
)
    requires
        sessions.len() <= usize::MAX,
        is_session_forest(
            sessions,
            session_links(sessions, paths),
            trees,
            nodes_under(session_links(sessions, paths), None),
            sessions.len(),
        ),
    ensures
        is_recent_first(trees),
        forall|k: int| 0 <= k < trees.len() ==> tells_activity(#[trigger] trees[k]),
{
    let links = session_links(sessions, paths);
    let nodes = nodes_under(links, None);
    let sorted = by_activity(sessions, links, nodes, sessions.len());
    lemma_nodes_under_len(links, None);
    lemma_activity_falls(sessions, links, nodes, sessions.len());
    assert forall|k: int| 0 <= k < trees.len() implies tells_activity(#[trigger] trees[k]) by {
        assert(is_session_tree(sessions, links, trees[k], sorted[k], sessions.len()));
        lemma_tree_tells_activity(sessions, links, trees[k], sorted[k], sessions.len());
    }
    assert forall|i: int, j: int| 0 <= i < j < trees.len() implies (
    #[trigger] trees[i]).latest_activity >= (#[trigger] trees[j]).latest_activity by {
        assert(is_session_tree(sessions, links, trees[i], sorted[i], sessions.len()));
        assert(is_session_tree(sessions, links, trees[j], sorted[j], sessions.len()));
    }
}

} // verus!
