//! The entries of a session tree, numbered so that each comes after its parent.

use crate::entries::SessionEntry;
use vstd::hash_map::StringHashMap;
use vstd::prelude::*;

verus! {

/// A node of the session tree.
#[derive(Debug)]
pub struct EntryTreeNode {
    pub entry: SessionEntry,
    pub children: Vec<EntryTreeNode>,
    pub label: Option<String>,
    pub label_timestamp: Option<String>,
}

/// A numbered node.
#[derive(Debug)]
pub struct ArenaNode {
    pub entry: SessionEntry,
    pub label: Option<String>,
    pub label_timestamp: Option<String>,
    /// The nodes under this one in the tree.
    pub children: Vec<usize>,
    /// The last node whose entry has the same id.
    pub key: usize,
    /// The last node whose entry has the id that this entry names as its parent.
    pub parent: Option<usize>,
}

/// A node with the number of the node above it.
pub struct RowView {
    pub entry: SessionEntry,
    pub label: Option<String>,
    pub label_timestamp: Option<String>,
    pub above: Option<usize>,
}

/// The nodes of a subtree, each before its children, numbered from `base`.
pub open spec fn preorder(node: EntryTreeNode, above: Option<usize>, base: nat) -> Seq<RowView>
    decreases node, 0nat,
{
    seq![
        RowView {
            entry: node.entry,
            label: node.label,
            label_timestamp: node.label_timestamp,
            above,
        },
    ] + preorder_from(node.children@, 0, Some(base as usize), base + 1)
}

/// The nodes of the subtrees from index `from` on, numbered from `base`.
pub open spec fn preorder_from(
    nodes: Seq<EntryTreeNode>,
    from: nat,
    above: Option<usize>,
    base: nat,
) -> Seq<RowView>
    decreases nodes, nodes.len() - from + 1,
{
    if from >= nodes.len() {
        Seq::empty()
    } else {
        let first = preorder(nodes[from as int], above, base);
        first + preorder_from(nodes, from + 1, above, base + first.len())
    }
}

/// The nodes of the session tree in order.
pub open spec fn tree_rows(tree: Seq<EntryTreeNode>) -> Seq<RowView> {
    preorder_from(tree, 0, None, 0)
}

/// Which of the first `n` rows stand directly under a node, or at the top for none.
pub open spec fn rows_under(rows: Seq<RowView>, above: Option<usize>, n: nat) -> Seq<usize>
    decreases n,
{
    if n == 0 {
        Seq::empty()
    } else if rows[n - 1].above == above {
        rows_under(rows, above, (n - 1) as nat).push((n - 1) as usize)
    } else {
        rows_under(rows, above, (n - 1) as nat)
    }
}

/// The last of the first `n` rows whose entry has the id.
pub open spec fn last_with_id(rows: Seq<RowView>, id: Seq<char>, n: nat) -> Option<usize>
    decreases n,
{
    if n == 0 {
        None
    } else if rows[n - 1].entry.id@ == id {
        Some((n - 1) as usize)
    } else {
        last_with_id(rows, id, (n - 1) as nat)
    }
}

/// Whether the arena node stands for row `i`.
pub open spec fn is_arena_node(rows: Seq<RowView>, node: ArenaNode, i: int) -> bool {
    &&& node.entry == rows[i].entry
    &&& node.label == rows[i].label
    &&& node.label_timestamp == rows[i].label_timestamp
    &&& node.children@ == rows_under(rows, Some(i as usize), rows.len())
    &&& Some(node.key) == last_with_id(rows, rows[i].entry.id@, rows.len())
    &&& node.parent == match rows[i].entry.parent_id {
        Some(id) => last_with_id(rows, id@, rows.len()),
        None => None,
    }
}

/// Whether children come after their parents, and keys and parents are numbers of nodes.
pub open spec fn arena_wf(arena: Seq<ArenaNode>) -> bool {
    &&& arena.len() < usize::MAX
    &&& forall|i: int, k: int|
        #![trigger arena[i].children@[k]]
        0 <= i < arena.len() && 0 <= k < arena[i].children@.len() ==> i < arena[i].children@[k]
            < arena.len()
    &&& forall|i: int| 0 <= i < arena.len() ==> (#[trigger] arena[i]).key < arena.len()
    &&& forall|i: int|
        0 <= i < arena.len() ==> ((#[trigger] arena[i]).parent matches Some(p) ==> p < arena.len())
}

/// The rows of the subtrees on the stack, from the top down, numbered from `base`.
spec fn stacked_rows(stack: Seq<(EntryTreeNode, Option<usize>)>, base: nat) -> Seq<RowView>
    decreases stack.len(),
{
    if stack.len() == 0 {
        Seq::empty()
    } else {
        let first = preorder(stack.last().0, stack.last().1, base);
        first + stacked_rows(stack.drop_last(), base + first.len())
    }
}

/// Puts the nodes from index `k` on back on the stack, the first of them on top.
fn push_reversed(
    nodes: Vec<EntryTreeNode>,
    above: Option<usize>,
    stack: &mut Vec<(EntryTreeNode, Option<usize>)>,
)
    ensures
        forall|base: nat|
            #![trigger stacked_rows(final(stack)@, base)]
            stacked_rows(final(stack)@, base) == preorder_from(nodes@, 0, above, base)
                + stacked_rows(
                old(stack)@,
                base + preorder_from(nodes@, 0, above, base).len(),
            ),
        forall|k: int|
            0 <= k < final(stack)@.len() ==> {
                ||| (#[trigger] final(stack)@[k]).1 == above
                ||| k < old(stack)@.len() && final(stack)@[k] == old(stack)@[k]
            },
{
    let ghost all = nodes@;
    let ghost rest = stack@;
    let mut nodes = nodes;
    while nodes.len() > 0
        invariant
            nodes@ == all.take(nodes@.len() as int),
            nodes@.len() <= all.len(),
            rest == old(stack)@,
            rest.len() <= stack@.len(),
            forall|base: nat|
                #![trigger stacked_rows(stack@, base)]
                stacked_rows(stack@, base) =~= preorder_from(all, nodes@.len(), above, base)
                    + stacked_rows(
                    rest,
                    base + preorder_from(all, nodes@.len(), above, base).len(),
                ),
            forall|k: int|
                0 <= k < stack@.len() ==> {
                    ||| (#[trigger] stack@[k]).1 == above
                    ||| k < rest.len() && stack@[k] == rest[k]
                },
        decreases nodes@.len(),
    {
        let ghost left = nodes@;
        let ghost before = stack@;
        if let Some(node) = nodes.pop() {
            assert(node == all[left.len() - 1]);
            stack.push((node, above));
            assert(nodes@ =~= all.take(left.len() - 1));
            assert forall|base: nat|
                #![trigger stacked_rows(stack@, base)]
                stacked_rows(stack@, base) =~= preorder_from(
                    all,
                    (left.len() - 1) as nat,
                    above,
                    base,
                ) + stacked_rows(
                    rest,
                    base + preorder_from(all, (left.len() - 1) as nat, above, base).len(),
                ) by {
                assert(stack@.drop_last() =~= before);
                let first = preorder(node, above, base);
                let next = base + first.len();
                assert(stacked_rows(before, next) =~= preorder_from(all, left.len(), above, next)
                    + stacked_rows(
                    rest,
                    next + preorder_from(all, left.len(), above, next).len(),
                ));
            }
        }
    }
}

/// The nodes of the tree in order, without their connections.
fn number_nodes(tree: Vec<EntryTreeNode>) -> (r: (Vec<ArenaNode>, Vec<Option<usize>>))
    requires
        tree_rows(tree@).len() < usize::MAX,
    ensures
        r.0@.len() == tree_rows(tree@).len(),
        r.1@.len() == tree_rows(tree@).len(),
        forall|i: int|
            0 <= i < r.0@.len() ==> {
                &&& (#[trigger] r.0@[i]).entry == tree_rows(tree@)[i].entry
                &&& r.0@[i].label == tree_rows(tree@)[i].label
                &&& r.0@[i].label_timestamp == tree_rows(tree@)[i].label_timestamp
            },
        forall|i: int| 0 <= i < r.1@.len() ==> #[trigger] r.1@[i] == tree_rows(tree@)[i].above,
        forall|i: int| 0 <= i < r.1@.len() ==> (#[trigger] r.1@[i] matches Some(p) ==> p < i),
{
    let ghost rows = tree_rows(tree@);
    let mut arena: Vec<ArenaNode> = Vec::new();
    let mut above: Vec<Option<usize>> = Vec::new();
    let mut stack: Vec<(EntryTreeNode, Option<usize>)> = Vec::new();
    push_reversed(tree, None, &mut stack);
    assert(stacked_rows(stack@, 0) =~= rows);
    while stack.len() > 0
        invariant
            rows.len() < usize::MAX,
            arena@.len() == above@.len(),
            arena@.len() <= rows.len(),
            rows.skip(arena@.len() as int) == stacked_rows(stack@, arena@.len()),
            forall|i: int|
                0 <= i < arena@.len() ==> {
                    &&& (#[trigger] arena@[i]).entry == rows[i].entry
                    &&& arena@[i].label == rows[i].label
                    &&& arena@[i].label_timestamp == rows[i].label_timestamp
                },
            forall|i: int| 0 <= i < above@.len() ==> #[trigger] above@[i] == rows[i].above,
            forall|i: int|
                0 <= i < above@.len() ==> (#[trigger] above@[i] matches Some(p) ==> p < i),
            forall|k: int|
                0 <= k < stack@.len() ==> ((#[trigger] stack@[k]).1 matches Some(p) ==> p
                    < arena@.len()),
        decreases rows.len() - arena@.len(),
    {
        let ghost full = stack@;
        let ghost base = arena@.len();
        let (node, parent) = match stack.pop() {
            Some(top) => top,
            None => {
                return (arena, above);
            },
        };
        proof {
            assert(full.last() == (node, parent));
            assert(stack@ =~= full.drop_last());
            assert(full[full.len() - 1] == full.last());
            let first = preorder(node, parent, base);
            assert(stacked_rows(full, base) == first + stacked_rows(stack@, base + first.len()));
            assert(rows.skip(base as int)[0] == rows[base as int]);
            assert(first[0] == rows[base as int]);
            assert forall|k: int| 0 <= k < stack@.len() implies ((#[trigger] stack@[k]).1 matches Some(
                p,
            ) ==> p < base) by {
                assert(stack@[k] == full[k]);
            }
        }
        let EntryTreeNode { entry, children, label, label_timestamp } = node;
        let number: usize = arena.len();
        arena.push(
            ArenaNode {
                entry,
                label,
                label_timestamp,
                children: Vec::new(),
                key: number,
                parent: None,
            },
        );
        above.push(parent);
        let ghost rest = stack@;
        let ghost under = children@;
        push_reversed(children, Some(number), &mut stack);
        proof {
            let first = preorder(node, parent, base);
            let below = preorder_from(under, 0, Some(number), base + 1);
            assert(first =~= seq![rows[base as int]] + below);
            assert(stacked_rows(stack@, base + 1) == below + stacked_rows(
                rest,
                base + 1 + below.len(),
            ));
            let tail = stacked_rows(rest, base + first.len());
            assert(base + first.len() == base + 1 + below.len());
            assert(rows.skip(base as int) == first + tail);
            assert(rows.skip(base as int + 1) =~= rows.skip(base as int).skip(1));
            assert(rows.skip(base as int + 1) =~= below + tail);
        }
    }
    (arena, above)
}

proof fn lemma_rows_under_after(rows: Seq<RowView>, above: Option<usize>, n: nat)
    requires
        n <= rows.len() < usize::MAX,
        forall|i: int| 0 <= i < rows.len() ==> ((#[trigger] rows[i]).above matches Some(p) ==> p < i),
    ensures
        forall|k: int|
            0 <= k < rows_under(rows, above, n).len() ==> (#[trigger] rows_under(rows, above, n)[k])
                < n && (above matches Some(p) ==> p < rows_under(rows, above, n)[k]),
    decreases n,
{
    if n > 0 {
        lemma_rows_under_after(rows, above, (n - 1) as nat);
        let before = rows_under(rows, above, (n - 1) as nat);
        let all = rows_under(rows, above, n);
        assert(rows[n - 1].above matches Some(p) ==> p < n - 1);
        assert forall|k: int| 0 <= k < all.len() implies (#[trigger] all[k]) < n && (
        above matches Some(p) ==> p < all[k]) by {
            if k < before.len() {
                assert(all[k] == before[k]);
            }
        }
    }
}

/// Numbers the nodes of the tree, each before its children, and connects them.
pub fn build_arena(tree: Vec<EntryTreeNode>) -> (r: (Vec<ArenaNode>, Vec<usize>))
    requires
        tree_rows(tree@).len() < usize::MAX,
    ensures
        r.0@.len() == tree_rows(tree@).len(),
        forall|i: int|
            0 <= i < r.0@.len() ==> is_arena_node(tree_rows(tree@), #[trigger] r.0@[i], i),
        r.1@ == rows_under(tree_rows(tree@), None, tree_rows(tree@).len()),
        arena_wf(r.0@),
        forall|k: int| 0 <= k < r.1@.len() ==> #[trigger] r.1@[k] < r.0@.len(),
{
    let ghost rows = tree_rows(tree@);
    let (mut arena, above) = number_nodes(tree);
    let n: usize = arena.len();
    let mut roots: Vec<usize> = Vec::new();
    let mut under: Vec<Vec<usize>> = Vec::new();
    let mut last: StringHashMap<usize> = StringHashMap::new();
    let mut i: usize = 0;
    while i < n
        invariant
            i <= n,
            n == arena@.len(),
            n == above@.len(),
            n == rows.len(),
            forall|k: int| 0 <= k < n ==> (#[trigger] arena@[k]).entry == rows[k].entry,
            forall|k: int| 0 <= k < n ==> #[trigger] above@[k] == rows[k].above,
            forall|k: int| 0 <= k < n ==> (#[trigger] above@[k] matches Some(p) ==> p < k),
            under@.len() == i,
            roots@ == rows_under(rows, None, i as nat),
            forall|p: int|
                0 <= p < i ==> (#[trigger] under@[p])@ == rows_under(
                    rows,
                    Some(p as usize),
                    i as nat,
                ),
            forall|p: int|
                i <= p < n ==> #[trigger] rows_under(rows, Some(p as usize), i as nat)
                    == Seq::<usize>::empty(),
            forall|id: Seq<char>|
                (#[trigger] last@.contains_key(id)) == (last_with_id(rows, id, i as nat) is Some),
            forall|id: Seq<char>|
                last@.contains_key(id) ==> Some(#[trigger] last@[id]) == last_with_id(
                    rows,
                    id,
                    i as nat,
                ),
        decreases n - i,
    {
        let ghost old_under = under@;
        last.insert(arena[i].entry.id.clone(), i);
        assert(arena@[i as int].entry == rows[i as int].entry);
        assert(above@[i as int] == rows[i as int].above);
        match above[i] {
            Some(p) => {
                let mut list: Vec<usize> = Vec::new();
                std::mem::swap(&mut list, &mut under[p]);
                assert(list@ == rows_under(rows, Some(p), i as nat));
                list.push(i);
                under.set(p, list);
            },
            None => {
                roots.push(i);
            },
        }
        let none: Vec<usize> = Vec::new();
        under.push(none);
        proof {
            assert forall|p: int| 0 <= p < i + 1 implies (#[trigger] under@[p])@ == rows_under(
                rows,
                Some(p as usize),
                (i + 1) as nat,
            ) by {
                if p < i {
                    assert(old_under[p]@ == rows_under(rows, Some(p as usize), i as nat));
                } else {
                    assert(rows_under(rows, Some(p as usize), i as nat) == Seq::<usize>::empty());
                    assert(under@[p]@ =~= Seq::<usize>::empty());
                }
            }
            assert forall|p: int| i + 1 <= p < n implies #[trigger] rows_under(
                rows,
                Some(p as usize),
                (i + 1) as nat,
            ) == Seq::<usize>::empty() by {
                assert(rows_under(rows, Some(p as usize), i as nat) == Seq::<usize>::empty());
            }
        }
        i = i + 1;
    }
    i = n;
    while i > 0
        invariant
            i <= n,
            n == arena@.len(),
            n == rows.len(),
            n < usize::MAX,
            under@.len() == i,
            forall|k: int|
                0 <= k < n ==> {
                    &&& (#[trigger] arena@[k]).entry == rows[k].entry
                    &&& arena@[k].label == rows[k].label
                    &&& arena@[k].label_timestamp == rows[k].label_timestamp
                },
            forall|p: int|
                0 <= p < i ==> (#[trigger] under@[p])@ == rows_under(
                    rows,
                    Some(p as usize),
                    n as nat,
                ),
            forall|id: Seq<char>|
                (#[trigger] last@.contains_key(id)) == (last_with_id(rows, id, n as nat) is Some),
            forall|id: Seq<char>|
                last@.contains_key(id) ==> Some(#[trigger] last@[id]) == last_with_id(
                    rows,
                    id,
                    n as nat,
                ),
            forall|k: int| i <= k < n ==> is_arena_node(rows, #[trigger] arena@[k], k),
        decreases i,
    {
        i = i - 1;
        let ghost before = arena@;
        let children: Vec<usize> = match under.pop() {
            Some(children) => children,
            None => Vec::new(),
        };
        let key: usize = match last.get(arena[i].entry.id.as_str()) {
            Some(key) => *key,
            None => i,
        };
        let parent: Option<usize> = match &arena[i].entry.parent_id {
            Some(id) => match last.get(id.as_str()) {
                Some(parent) => Some(*parent),
                None => None,
            },
            None => None,
        };
        proof {
            assert(before[i as int].entry == rows[i as int].entry);
            lemma_last_with_own_id(rows, i as int, n as nat);
        }
        arena[i].children = children;
        arena[i].key = key;
        arena[i].parent = parent;
        proof {
            assert forall|k: int| 0 <= k < n && k != i implies #[trigger] arena@[k] == before[k] by {}
            assert(is_arena_node(rows, arena@[i as int], i as int));
            assert forall|k: int| i <= k < n implies is_arena_node(rows, #[trigger] arena@[k], k) by {
                if k > i {
                    assert(arena@[k] == before[k]);
                }
            }
        }
    }
    proof {
        assert forall|k: int| 0 <= k < n implies ((#[trigger] rows[k]).above matches Some(p) ==> p
            < k) by {
            assert(above@[k] == rows[k].above);
        }
        lemma_arena_wf(rows, arena@);
        lemma_rows_under_after(rows, None, rows.len());
    }
    (arena, roots)
}

proof fn lemma_last_with_own_id(rows: Seq<RowView>, i: int, n: nat)
    requires
        0 <= i < n <= rows.len(),
    ensures
        last_with_id(rows, rows[i].entry.id@, n) is Some,
    decreases n,
{
    if i < n - 1 {
        lemma_last_with_own_id(rows, i, (n - 1) as nat);
    }
}

proof fn lemma_last_with_id_bound(rows: Seq<RowView>, id: Seq<char>, n: nat)
    requires
        n <= rows.len() < usize::MAX,
    ensures
        last_with_id(rows, id, n) matches Some(p) ==> p < n,
    decreases n,
{
    if n > 0 {
        lemma_last_with_id_bound(rows, id, (n - 1) as nat);
    }
}

proof fn lemma_arena_wf(rows: Seq<RowView>, arena: Seq<ArenaNode>)
    requires
        arena.len() == rows.len(),
        rows.len() < usize::MAX,
        forall|i: int| 0 <= i < arena.len() ==> is_arena_node(rows, #[trigger] arena[i], i),
        forall|i: int| 0 <= i < rows.len() ==> ((#[trigger] rows[i]).above matches Some(p) ==> p < i),
    ensures
        arena_wf(arena),
{
    assert forall|i: int, k: int|
        #![trigger arena[i].children@[k]]
        0 <= i < arena.len() && 0 <= k < arena[i].children@.len() implies i < arena[i].children@[k]
        < arena.len() by {
        lemma_rows_under_after(rows, Some(i as usize), rows.len());
        assert(arena[i].children@[k] == rows_under(rows, Some(i as usize), rows.len())[k]);
    }
    assert forall|i: int| 0 <= i < arena.len() implies (#[trigger] arena[i]).key < arena.len() by {
        lemma_last_with_id_bound(rows, rows[i].entry.id@, rows.len());
    }
    assert forall|i: int| 0 <= i < arena.len() implies ((#[trigger] arena[i]).parent matches Some(
        p,
    ) ==> p < arena.len()) by {
        if let Some(id) = rows[i].entry.parent_id {
            lemma_last_with_id_bound(rows, id@, rows.len());
        }
    }
}

} // verus!
