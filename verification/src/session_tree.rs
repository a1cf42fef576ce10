//! The tree of sessions: which session was forked from which, and the order in
//! which the tree is shown.

use crate::order::{is_stable_order, ranks, sort_indices, stable_order, Ranked};
use crate::session::{CanonicalPaths, SessionInfo};
use crate::text::str_eq;
use vstd::prelude::*;

verus! {

/// A session with the sessions that were forked from it.
#[derive(Debug)]
pub struct SessionTreeNode {
    pub session: SessionInfo,
    pub children: Vec<SessionTreeNode>,
    pub latest_activity: i64,
}

/// A session in the flattened tree.
#[derive(Debug)]
pub struct FlatSessionNode {
    pub session: SessionInfo,
    pub depth: usize,
    pub is_last: bool,
    /// For each ancestor level, whether there are more siblings after it.
    pub ancestor_continues: Vec<bool>,
}

/// Where a session goes in the tree: the node that stands for its file, and the node of its
/// parent, both as indices into the list of sessions.
#[derive(Debug, Clone, Copy, PartialEq, Eq, Structural)]
pub struct SessionLink {
    pub node: usize,
    pub parent: Option<usize>,
}

/// The last of the first `n` sessions whose file has the canonical path.
pub open spec fn last_at_path(
    sessions: Seq<SessionInfo>,
    paths: CanonicalPaths,
    path: Seq<char>,
    n: nat,
) -> Option<usize>
    decreases n,
{
    if n == 0 {
        None
    } else if paths.canonical(sessions[n - 1].path@) == path {
        Some((n - 1) as usize)
    } else {
        last_at_path(sessions, paths, path, (n - 1) as nat)
    }
}

/// Where session `i` goes in the tree. Of several sessions in one file, the last stands for all.
pub open spec fn link_of(sessions: Seq<SessionInfo>, paths: CanonicalPaths, i: int) -> SessionLink {
    let path = paths.canonical(sessions[i].path@);
    SessionLink {
        node: match last_at_path(sessions, paths, path, sessions.len()) {
            Some(node) => node,
            None => i as usize,
        },
        parent: match sessions[i].parent_session_path {
            Some(parent) => last_at_path(
                sessions,
                paths,
                paths.canonical(parent@),
                sessions.len(),
            ),
            None => None,
        },
    }
}

/// Where each session goes in the tree.
pub open spec fn session_links(sessions: Seq<SessionInfo>, paths: CanonicalPaths) -> Seq<
    SessionLink,
> {
    Seq::new(sessions.len(), |i: int| link_of(sessions, paths, i))
}

/// The nodes under the given parent, or at the top for none, in list order.
pub open spec fn nodes_under(links: Seq<SessionLink>, parent: Option<usize>) -> Seq<usize>
    decreases links.len(),
{
    if links.len() == 0 {
        Seq::empty()
    } else if links.last().parent == parent {
        nodes_under(links.drop_last(), parent).push(links.last().node)
    } else {
        nodes_under(links.drop_last(), parent)
    }
}

/// When the node, or one of those up to `depth` levels under it, was last modified.
pub open spec fn latest(
    sessions: Seq<SessionInfo>,
    links: Seq<SessionLink>,
    node: usize,
    depth: nat,
) -> i64
    decreases depth, 0nat,
{
    let own = sessions[node as int].modified_ms;
    if depth == 0 {
        own
    } else {
        latest_among(
            sessions,
            links,
            nodes_under(links, Some(node)),
            (depth - 1) as nat,
            own,
        )
    }
}

/// The latest of `own` and the latest modifications of the nodes.
pub open spec fn latest_among(
    sessions: Seq<SessionInfo>,
    links: Seq<SessionLink>,
    nodes: Seq<usize>,
    depth: nat,
    own: i64,
) -> i64
    decreases depth, nodes.len() + 1,
{
    if nodes.len() == 0 {
        own
    } else {
        let before = latest_among(sessions, links, nodes.drop_last(), depth, own);
        let last = latest(sessions, links, nodes.last(), depth);
        if last > before {
            last
        } else {
            before
        }
    }
}

/// Ranks nodes by their latest modification, the most recent first.
pub struct ActivityKey {
    pub latest: i64,
}

impl Ranked for ActivityKey {
    type Rank = ActivityKey;

    open spec fn rank(&self) -> ActivityKey {
        *self
    }

    open spec fn at_most(a: ActivityKey, b: ActivityKey) -> bool {
        a.latest >= b.latest
    }

    proof fn total(a: ActivityKey, b: ActivityKey) {
    }

    proof fn transitive(a: ActivityKey, b: ActivityKey, c: ActivityKey) {
    }

    fn is_at_most(&self, other: &Self) -> bool {
        self.latest >= other.latest
    }
}

/// What ranks the nodes.
pub open spec fn activity_keys(
    sessions: Seq<SessionInfo>,
    links: Seq<SessionLink>,
    nodes: Seq<usize>,
    depth: nat,
) -> Seq<ActivityKey> {
    nodes.map_values(|n: usize| ActivityKey { latest: latest(sessions, links, n, depth) })
}

/// The nodes by latest modification, the most recent first.
pub open spec fn by_activity(
    sessions: Seq<SessionInfo>,
    links: Seq<SessionLink>,
    nodes: Seq<usize>,
    depth: nat,
) -> Seq<usize> {
    stable_order::<ActivityKey>(activity_keys(sessions, links, nodes, depth)).map_values(
        |k: usize| nodes[k as int],
    )
}

/// Whether the tree is that of the node, unfolded to `depth` levels under it.
pub open spec fn is_session_tree(
    sessions: Seq<SessionInfo>,
    links: Seq<SessionLink>,
    tree: SessionTreeNode,
    node: usize,
    depth: nat,
) -> bool
    decreases depth,
{
    &&& tree.session == sessions[node as int]
    &&& tree.latest_activity == latest(sessions, links, node, depth)
    &&& if depth == 0 {
        tree.children@.len() == 0
    } else {
        let under = by_activity(
            sessions,
            links,
            nodes_under(links, Some(node)),
            (depth - 1) as nat,
        );
        &&& tree.children@.len() == under.len()
        &&& forall|k: int|
            0 <= k < under.len() ==> is_session_tree(
                sessions,
                links,
                #[trigger] tree.children@[k],
                under[k],
                (depth - 1) as nat,
            )
    }
}

/// Whether the trees are those of the nodes, the most recently active first.
pub open spec fn is_session_forest(
    sessions: Seq<SessionInfo>,
    links: Seq<SessionLink>,
    trees: Seq<SessionTreeNode>,
    nodes: Seq<usize>,
    depth: nat,
) -> bool {
    let sorted = by_activity(sessions, links, nodes, depth);
    &&& trees.len() == sorted.len()
    &&& forall|k: int|
        0 <= k < sorted.len() ==> is_session_tree(
            sessions,
            links,
            #[trigger] trees[k],
            sorted[k],
            depth,
        )
}

proof fn lemma_nodes_under_bounds(links: Seq<SessionLink>, parent: Option<usize>, n: nat)
    requires
        forall|i: int| 0 <= i < links.len() ==> (#[trigger] links[i]).node < n,
    ensures
        forall|k: int|
            0 <= k < nodes_under(links, parent).len() ==> #[trigger] nodes_under(links, parent)[k]
                < n,
    decreases links.len(),
{
    if links.len() > 0 {
        let rest = links.drop_last();
        assert forall|i: int| 0 <= i < rest.len() implies (#[trigger] rest[i]).node < n by {
            assert(rest[i] == links[i]);
        }
        lemma_nodes_under_bounds(rest, parent, n);
        assert(links.last() == links[links.len() - 1]);
        assert forall|k: int| 0 <= k < nodes_under(links, parent).len() implies #[trigger] nodes_under(
            links,
            parent,
        )[k] < n by {
            if k < nodes_under(rest, parent).len() {
                assert(nodes_under(rest, parent)[k] < n);
            }
        }
    }
}

/// The last session whose canonical path is the given one.
fn find_last(canonical: &Vec<String>, path: &str) -> (r: Option<usize>)
    ensures
        r matches Some(i) ==> i < canonical@.len() && canonical@[i as int]@ == path@ && forall|j: int|
            i < j < canonical@.len() ==> (#[trigger] canonical@[j])@ != path@,
        r is None ==> forall|j: int|
            0 <= j < canonical@.len() ==> (#[trigger] canonical@[j])@ != path@,
{
    let mut i: usize = canonical.len();
    while i > 0
        invariant
            i <= canonical.len(),
            forall|j: int| i <= j < canonical@.len() ==> (#[trigger] canonical@[j])@ != path@,
        decreases i,
    {
        i = i - 1;
        if str_eq(canonical[i].as_str(), path) {
            return Some(i);
        }
    }
    None
}

proof fn lemma_last_at_path_is(
    sessions: Seq<SessionInfo>,
    paths: CanonicalPaths,
    path: Seq<char>,
    n: nat,
    r: Option<usize>,
)
    requires
        n <= sessions.len() <= usize::MAX,
        r matches Some(i) ==> i < n && paths.canonical(sessions[i as int].path@) == path && forall|
            j: int,
        |
            i < j < n ==> paths.canonical((#[trigger] sessions[j]).path@) != path,
        r is None ==> forall|j: int|
            0 <= j < n ==> paths.canonical((#[trigger] sessions[j]).path@) != path,
    ensures
        last_at_path(sessions, paths, path, n) == r,
    decreases n,
{
    if n > 0 {
        let last = sessions[n - 1];
        if r != Some((n - 1) as usize) {
            lemma_last_at_path_is(sessions, paths, path, (n - 1) as nat, r);
        }
    }
}

fn link_sessions(sessions: &Vec<SessionInfo>, paths: &CanonicalPaths) -> (links: Vec<SessionLink>)
    ensures
        links@ == session_links(sessions@, *paths),
        forall|i: int| 0 <= i < links@.len() ==> (#[trigger] links@[i]).node < sessions@.len(),
{
    let mut canonical: Vec<String> = Vec::new();
    let mut i: usize = 0;
    while i < sessions.len()
        invariant
            i <= sessions.len(),
            canonical.len() == i,
            forall|j: int|
                0 <= j < i ==> (#[trigger] canonical@[j])@ == paths.canonical(sessions@[j].path@),
        decreases sessions.len() - i,
    {
        canonical.push(paths.resolve(sessions[i].path.as_str()));
        i = i + 1;
    }
    let mut links: Vec<SessionLink> = Vec::new();
    i = 0;
    while i < sessions.len()
        invariant
            i <= sessions.len(),
            links.len() == i,
            canonical.len() == sessions.len(),
            forall|j: int|
                0 <= j < sessions.len() ==> (#[trigger] canonical@[j])@ == paths.canonical(
                    sessions@[j].path@,
                ),
            forall|j: int| 0 <= j < i ==> links@[j] == link_of(sessions@, *paths, j),
            forall|j: int| 0 <= j < i ==> (#[trigger] links@[j]).node < sessions@.len(),
        decreases sessions.len() - i,
    {
        let found = find_last(&canonical, canonical[i].as_str());
        proof {
            assert forall|j: int| 0 <= j < sessions@.len() implies (#[trigger] sessions@[j]).path@
                == sessions@[j].path@ && paths.canonical(sessions@[j].path@)
                == canonical@[j]@ by {}
            lemma_last_at_path_is(
                sessions@,
                *paths,
                canonical@[i as int]@,
                sessions@.len(),
                found,
            );
        }
        let node: usize = match found {
            Some(node) => node,
            None => i,
        };
        let parent: Option<usize> = match &sessions[i].parent_session_path {
            Some(path) => {
                let resolved = paths.resolve(path.as_str());
                let parent = find_last(&canonical, resolved.as_str());
                proof {
                    lemma_last_at_path_is(
                        sessions@,
                        *paths,
                        resolved@,
                        sessions@.len(),
                        parent,
                    );
                }
                parent
            },
            None => None,
        };
        links.push(SessionLink { node, parent });
        i = i + 1;
    }
    assert(links@ =~= session_links(sessions@, *paths));
    links
}

fn list_nodes_under(links: &Vec<SessionLink>, parent: Option<usize>) -> (r: Vec<usize>)
    ensures
        r@ == nodes_under(links@, parent),
{
    let mut r: Vec<usize> = Vec::new();
    let mut i: usize = 0;
    while i < links.len()
        invariant
            i <= links.len(),
            r@ == nodes_under(links@.take(i as int), parent),
        decreases links.len() - i,
    {
        assert(links@.take(i as int + 1).drop_last() =~= links@.take(i as int));
        if links[i].parent == parent {
            r.push(links[i].node);
        }
        i = i + 1;
    }
    assert(links@.take(i as int) =~= links@);
    r
}

/// Puts the trees of the nodes in order: the most recently active first.
fn sort_trees(
    sessions: Ghost<Seq<SessionInfo>>,
    links: Ghost<Seq<SessionLink>>,
    nodes: Ghost<Seq<usize>>,
    depth: Ghost<nat>,
    built: Vec<SessionTreeNode>,
) -> (r: Vec<SessionTreeNode>)
    requires
        built@.len() == nodes@.len(),
        forall|k: int|
            0 <= k < nodes@.len() ==> is_session_tree(
                sessions@,
                links@,
                #[trigger] built@[k],
                nodes@[k],
                depth@,
            ),
    ensures
        is_session_forest(sessions@, links@, r@, nodes@, depth@),
{
    let ghost trees = built@;
    let ghost wanted = activity_keys(sessions@, links@, nodes@, depth@);
    let mut keys: Vec<ActivityKey> = Vec::new();
    let mut k: usize = 0;
    while k < built.len()
        invariant
            k <= built.len(),
            built@ == trees,
            trees.len() == nodes@.len(),
            wanted == activity_keys(sessions@, links@, nodes@, depth@),
            forall|k: int|
                0 <= k < nodes@.len() ==> is_session_tree(
                    sessions@,
                    links@,
                    #[trigger] trees[k],
                    nodes@[k],
                    depth@,
                ),
            keys@ =~= wanted.take(k as int),
        decreases built.len() - k,
    {
        assert(is_session_tree(sessions@, links@, trees[k as int], nodes@[k as int], depth@));
        keys.push(ActivityKey { latest: built[k].latest_activity });
        k = k + 1;
    }
    assert(keys@ =~= wanted);
    assert(ranks(keys@) =~= keys@);
    let order = sort_indices(&keys);
    let mut slots: Vec<Option<SessionTreeNode>> = Vec::new();
    let mut rest = built;
    while rest.len() > 0
        invariant
            rest@.len() + slots@.len() == trees.len(),
            rest@ =~= trees.take(rest@.len() as int),
            forall|j: int|
                0 <= j < slots@.len() ==> #[trigger] slots@[j] == Some(trees[trees.len() - 1 - j]),
        decreases rest.len(),
    {
        let tree = rest.pop();
        slots.push(tree);
    }
    let n: usize = slots.len();
    let mut r: Vec<SessionTreeNode> = Vec::new();
    k = 0;
    while k < order.len()
        invariant
            k <= order.len(),
            n == slots@.len() == trees.len() == keys.len(),
            is_stable_order::<ActivityKey>(order@, keys@),
            r.len() == k,
            forall|j: int| 0 <= j < k ==> #[trigger] r@[j] == trees[order@[j] as int],
            forall|j: int|
                k <= j < order.len() ==> slots@[n - 1 - #[trigger] order@[j]] == Some(
                    trees[order@[j] as int],
                ),
        decreases order.len() - k,
    {
        let at: usize = order[k];
        let ghost before = slots@;
        let mut slot: Option<SessionTreeNode> = None;
        std::mem::swap(&mut slot, &mut slots[n - 1 - at]);
        assert(slot == before[n - 1 - at]);
        assert forall|j: int| k + 1 <= j < order.len() implies slots@[n - 1 - #[trigger] order@[j]]
            == Some(trees[order@[j] as int]) by {
            assert(order@[j] != order@[k as int]);
            assert(before[n - 1 - order@[j]] == Some(trees[order@[j] as int]));
        }
        if let Some(tree) = slot {
            r.push(tree);
        }
        k = k + 1;
    }
    proof {
        let sorted = by_activity(sessions@, links@, nodes@, depth@);
        assert(sorted =~= order@.map_values(|k: usize| nodes@[k as int]));
        assert forall|j: int| 0 <= j < sorted.len() implies is_session_tree(
            sessions@,
            links@,
            #[trigger] r@[j],
            sorted[j],
            depth@,
        ) by {
            assert(r@[j] == trees[order@[j] as int]);
        }
    }
    r
}

fn assemble(
    sessions: &Vec<SessionInfo>,
    links: &Vec<SessionLink>,
    node: usize,
    depth: usize,
) -> (tree: SessionTreeNode)
    requires
        node < sessions@.len(),
        forall|i: int| 0 <= i < links@.len() ==> (#[trigger] links@[i]).node < sessions@.len(),
    ensures
        is_session_tree(sessions@, links@, tree, node, depth as nat),
    decreases depth, 0nat,
{
    let session = sessions[node].clone();
    let mut latest_activity: i64 = session.modified_ms;
    if depth == 0 {
        return SessionTreeNode { session, children: Vec::new(), latest_activity };
    }
    let under = list_nodes_under(links, Some(node));
    proof {
        lemma_nodes_under_bounds(links@, Some(node), sessions@.len());
    }
    let built = assemble_all(sessions, links, &under, depth - 1);
    let mut k: usize = 0;
    while k < built.len()
        invariant
            k <= built.len(),
            depth > 0,
            built@.len() == under@.len(),
            forall|k: int|
                0 <= k < under@.len() ==> is_session_tree(
                    sessions@,
                    links@,
                    #[trigger] built@[k],
                    under@[k],
                    (depth - 1) as nat,
                ),
            latest_activity == latest_among(
                sessions@,
                links@,
                under@.take(k as int),
                (depth - 1) as nat,
                sessions@[node as int].modified_ms,
            ),
        decreases built.len() - k,
    {
        proof {
            assert(under@.take(k as int + 1).drop_last() =~= under@.take(k as int));
            assert(is_session_tree(
                sessions@,
                links@,
                built@[k as int],
                under@[k as int],
                (depth - 1) as nat,
            ));
        }
        if built[k].latest_activity > latest_activity {
            latest_activity = built[k].latest_activity;
        }
        k = k + 1;
    }
    assert(under@.take(k as int) =~= under@);
    let children = sort_trees(
        Ghost(sessions@),
        Ghost(links@),
        Ghost(under@),
        Ghost((depth - 1) as nat),
        built,
    );
    SessionTreeNode { session, children, latest_activity }
}

fn assemble_all(
    sessions: &Vec<SessionInfo>,
    links: &Vec<SessionLink>,
    nodes: &Vec<usize>,
    depth: usize,
) -> (r: Vec<SessionTreeNode>)
    requires
        forall|k: int| 0 <= k < nodes@.len() ==> #[trigger] nodes@[k] < sessions@.len(),
        forall|i: int| 0 <= i < links@.len() ==> (#[trigger] links@[i]).node < sessions@.len(),
    ensures
        r@.len() == nodes@.len(),
        forall|k: int|
            0 <= k < nodes@.len() ==> is_session_tree(
                sessions@,
                links@,
                #[trigger] r@[k],
                nodes@[k],
                depth as nat,
            ),
    decreases depth, 1nat,
{
    let mut r: Vec<SessionTreeNode> = Vec::new();
    let mut k: usize = 0;
    while k < nodes.len()
        invariant
            k <= nodes.len(),
            r.len() == k,
            forall|k: int| 0 <= k < nodes@.len() ==> #[trigger] nodes@[k] < sessions@.len(),
            forall|i: int| 0 <= i < links@.len() ==> (#[trigger] links@[i]).node < sessions@.len(),
            forall|j: int|
                0 <= j < k ==> is_session_tree(
                    sessions@,
                    links@,
                    #[trigger] r@[j],
                    nodes@[j],
                    depth as nat,
                ),
        decreases nodes.len() - k,
    {
        r.push(assemble(sessions, links, nodes[k], depth));
        k = k + 1;
    }
    r
}

/// Builds the tree of the sessions by the sessions they were forked from, the most recently active
/// first at each level. A session whose parent is not in the list stands at the top. The tree is as
/// deep as there are sessions at most.
#[must_use]
pub fn build_session_tree(sessions: &Vec<SessionInfo>, paths: &CanonicalPaths) -> (r: Vec<
    SessionTreeNode,
>)
    ensures
        is_session_forest(
            sessions@,
            session_links(sessions@, *paths),
            r@,
            nodes_under(session_links(sessions@, *paths), None),
            sessions@.len(),
        ),
{
    let links = link_sessions(sessions, paths);
    let top = list_nodes_under(&links, None);
    proof {
        lemma_nodes_under_bounds(links@, None, sessions@.len());
    }
    let depth: usize = sessions.len();
    let built = assemble_all(sessions, &links, &top, depth);
    sort_trees(Ghost(sessions@), Ghost(links@), Ghost(top@), Ghost(depth as nat), built)
}

/// The content of a flattened node.
#[verifier::ext_equal]
pub struct FlatView {
    pub session: SessionInfo,
    pub depth: nat,
    pub is_last: bool,
    pub ancestor_continues: Seq<bool>,
}

impl View for FlatSessionNode {
    type V = FlatView;

    open spec fn view(&self) -> FlatView {
        FlatView {
            session: self.session,
            depth: self.depth as nat,
            is_last: self.is_last,
            ancestor_continues: self.ancestor_continues@,
        }
    }
}

/// The contents of a list of flattened nodes.
pub open spec fn flat_views(nodes: Seq<FlatSessionNode>) -> Seq<FlatView> {
    nodes.map_values(|n: FlatSessionNode| n@)
}

/// The tree in display order: the node, then the trees under it.
pub open spec fn flat_tree(tree: SessionTreeNode, continues: Seq<bool>, is_last: bool) -> Seq<
    FlatView,
>
    decreases tree, 0nat,
{
    seq![
        FlatView {
            session: tree.session,
            depth: continues.len(),
            is_last,
            ancestor_continues: continues,
        },
    ] + flat_trees(
        tree.children@,
        tree.children@.len(),
        continues.push(continues.len() > 0 && !is_last),
    )
}

/// The first `n` of the trees in display order. The last of all the trees has no sibling after it.
pub open spec fn flat_trees(trees: Seq<SessionTreeNode>, n: nat, continues: Seq<bool>) -> Seq<
    FlatView,
>
    decreases trees, n + 1,
{
    if n == 0 || n > trees.len() {
        Seq::empty()
    } else {
        flat_trees(trees, (n - 1) as nat, continues) + flat_tree(
            trees[n - 1],
            continues,
            n == trees.len(),
        )
    }
}

fn flatten_tree(
    tree: &SessionTreeNode,
    continues: &Vec<bool>,
    is_last: bool,
    result: &mut Vec<FlatSessionNode>,
)
    ensures
        flat_views(final(result)@) == flat_views(old(result)@) + flat_tree(
            *tree,
            continues@,
            is_last,
        ),
    decreases tree,
{
    result.push(
        FlatSessionNode {
            session: tree.session.clone(),
            depth: continues.len(),
            is_last,
            ancestor_continues: vstd::slice::slice_to_vec(continues.as_slice()),
        },
    );
    let mut next = vstd::slice::slice_to_vec(continues.as_slice());
    next.push(continues.len() > 0 && !is_last);
    let ghost first = flat_views(result@);
    assert(first =~= flat_views(old(result)@).push(result@.last()@));
    let mut i: usize = 0;
    while i < tree.children.len()
        invariant
            i <= tree.children.len(),
            next@ == continues@.push(continues@.len() > 0 && !is_last),
            flat_views(result@) =~= first + flat_trees(tree.children@, i as nat, next@),
        decreases tree.children.len() - i,
    {
        let last = i == tree.children.len() - 1;
        flatten_tree(&tree.children[i], &next, last, result);
        i = i + 1;
    }
}

/// Flattens the trees into display order.
#[must_use]
pub fn flatten_session_tree(roots: &Vec<SessionTreeNode>) -> (r: Vec<FlatSessionNode>)
    ensures
        flat_views(r@) == flat_trees(roots@, roots@.len(), Seq::empty()),
{
    let mut result: Vec<FlatSessionNode> = Vec::new();
    let none: Vec<bool> = Vec::new();
    let mut i: usize = 0;
    while i < roots.len()
        invariant
            i <= roots.len(),
            none@ == Seq::<bool>::empty(),
            flat_views(result@) =~= flat_trees(roots@, i as nat, none@),
        decreases roots.len() - i,
    {
        let last = i == roots.len() - 1;
        flatten_tree(&roots[i], &none, last, &mut result);
        i = i + 1;
    }
    result
}

} // verus!
