//! Where the nodes of a tree are drawn: their order, indentation, connectors
//! and the gutters that run past them.

use vstd::prelude::*;

verus! {

/// A vertical line that runs past a node's descendants.
#[derive(Debug, Clone, Copy, PartialEq, Eq, Structural)]
pub struct GutterInfo {
    /// The level at which the connector stands.
    pub position: usize,
    /// Whether the line is drawn or left blank.
    pub show: bool,
}

/// How a node is drawn.
#[derive(Debug)]
pub struct Visual {
    /// The indentation level.
    pub indent: usize,
    /// Whether a connector leads to the node: its parent has several children.
    pub show_connector: bool,
    /// Whether the node is the last of its siblings.
    pub is_last: bool,
    pub gutters: Vec<GutterInfo>,
    /// Whether the node is one of several roots.
    pub is_virtual_root_child: bool,
}

/// The content of a visual.
#[verifier::ext_equal]
pub struct VisualView {
    pub indent: nat,
    pub show_connector: bool,
    pub is_last: bool,
    pub gutters: Seq<GutterInfo>,
    pub is_virtual_root_child: bool,
}

impl View for Visual {
    type V = VisualView;

    open spec fn view(&self) -> VisualView {
        VisualView {
            indent: self.indent as nat,
            show_connector: self.show_connector,
            is_last: self.is_last,
            gutters: self.gutters@,
            is_virtual_root_child: self.is_virtual_root_child,
        }
    }
}

impl Clone for Visual {
    fn clone(&self) -> (r: Self)
        ensures
            r@ == self@,
    {
        Visual {
            indent: self.indent,
            show_connector: self.show_connector,
            is_last: self.is_last,
            gutters: vstd::slice::slice_to_vec(self.gutters.as_slice()),
            is_virtual_root_child: self.is_virtual_root_child,
        }
    }
}

/// A node with the way it is drawn.
#[derive(Debug)]
pub struct Visit {
    pub node: usize,
    pub visual: Visual,
}

/// The content of a visit.
#[verifier::ext_equal]
pub struct VisitView {
    pub node: usize,
    pub visual: VisualView,
}

impl View for Visit {
    type V = VisitView;

    open spec fn view(&self) -> VisitView {
        VisitView { node: self.node, visual: self.visual@ }
    }
}

/// The contents of a list of visits.
pub open spec fn visit_views(visits: Seq<Visit>) -> Seq<VisitView> {
    visits.map_values(|v: Visit| v@)
}

/// A subtree that is still to be drawn.
struct Pending {
    visit: Visit,
    /// Whether the parent has several children.
    just_branched: bool,
    /// How many levels under the node are drawn.
    levels: usize,
}

/// The contents of a table of children.
pub open spec fn table_view(children: Seq<Vec<usize>>) -> Seq<Seq<usize>> {
    children.map_values(|c: Vec<usize>| c@)
}

/// The children that the table lists for a node.
pub open spec fn children_in(children: Seq<Seq<usize>>, node: usize) -> Seq<usize> {
    if node < children.len() {
        children[node as int]
    } else {
        Seq::empty()
    }
}

/// The level at which a node is shown: several roots all stand at the left edge.
pub open spec fn display_indent(indent: nat, multiple_roots: bool) -> nat {
    if multiple_roots && indent > 0 {
        (indent - 1) as nat
    } else {
        indent
    }
}

/// The indentation of the children of a node: one more below a branch and in the first generation
/// after one, otherwise the same.
pub open spec fn child_indent(indent: nat, just_branched: bool, branches: bool) -> nat {
    if branches || (just_branched && indent > 0) {
        indent + 1
    } else {
        indent
    }
}

/// The gutters of the children of a node: its own, and one below its connector if it has one.
pub open spec fn child_gutters(visual: VisualView, multiple_roots: bool) -> Seq<GutterInfo> {
    if visual.show_connector && !visual.is_virtual_root_child {
        let shown_at = display_indent(visual.indent, multiple_roots);
        visual.gutters.push(
            GutterInfo {
                position: if shown_at > 0 {
                    (shown_at - 1) as usize
                } else {
                    0
                },
                show: !visual.is_last,
            },
        )
    } else {
        visual.gutters
    }
}

/// How the child at index `i` of `count` children of a node is drawn.
pub open spec fn child_visual(
    visual: VisualView,
    just_branched: bool,
    multiple_roots: bool,
    i: int,
    count: int,
) -> VisualView {
    VisualView {
        indent: child_indent(visual.indent, just_branched, count > 1),
        show_connector: count > 1,
        is_last: i == count - 1,
        gutters: child_gutters(visual, multiple_roots),
        is_virtual_root_child: false,
    }
}

/// The subtree of a node in drawing order, `levels` levels deep below it.
pub open spec fn laid_out(
    children: Seq<Seq<usize>>,
    multiple_roots: bool,
    visit: VisitView,
    just_branched: bool,
    levels: nat,
) -> Seq<VisitView>
    decreases levels, 0nat,
{
    let under = children_in(children, visit.node);
    if levels == 0 {
        seq![visit]
    } else {
        seq![visit] + laid_out_children(
            children,
            multiple_roots,
            visit,
            just_branched,
            (levels - 1) as nat,
            0,
        )
    }
}

/// The subtrees of the children of a node from index `from` on.
pub open spec fn laid_out_children(
    children: Seq<Seq<usize>>,
    multiple_roots: bool,
    visit: VisitView,
    just_branched: bool,
    levels: nat,
    from: nat,
) -> Seq<VisitView>
    decreases levels, 1 + (children_in(children, visit.node).len() - from),
{
    let under = children_in(children, visit.node);
    if from >= under.len() {
        Seq::empty()
    } else {
        laid_out(
            children,
            multiple_roots,
            VisitView {
                node: under[from as int],
                visual: child_visual(
                    visit.visual,
                    just_branched,
                    multiple_roots,
                    from as int,
                    under.len() as int,
                ),
            },
            under.len() > 1,
            levels,
        ) + laid_out_children(
            children,
            multiple_roots,
            visit,
            just_branched,
            levels,
            from + 1,
        )
    }
}

/// How the root at index `i` of `count` roots is drawn.
pub open spec fn root_visual(i: int, count: int) -> VisualView {
    VisualView {
        indent: if count > 1 {
            1
        } else {
            0
        },
        show_connector: count > 1,
        is_last: i == count - 1,
        gutters: Seq::empty(),
        is_virtual_root_child: count > 1,
    }
}

/// The trees of the roots from index `from` on, in drawing order.
pub open spec fn laid_out_roots(
    children: Seq<Seq<usize>>,
    roots: Seq<usize>,
    levels: nat,
    from: nat,
) -> Seq<VisitView>
    decreases roots.len() - from,
{
    if from >= roots.len() {
        Seq::empty()
    } else {
        laid_out(
            children,
            roots.len() > 1,
            VisitView {
                node: roots[from as int],
                visual: root_visual(from as int, roots.len() as int),
            },
            roots.len() > 1,
            levels,
        ) + laid_out_roots(children, roots, levels, from + 1)
    }
}

/// The subtrees on the stack, from the top down.
spec fn pending_visits(
    children: Seq<Seq<usize>>,
    multiple_roots: bool,
    stack: Seq<Pending>,
) -> Seq<VisitView>
    decreases stack.len(),
{
    if stack.len() == 0 {
        Seq::empty()
    } else {
        let top = stack.last();
        laid_out(children, multiple_roots, top.visit@, top.just_branched, top.levels as nat)
            + pending_visits(children, multiple_roots, stack.drop_last())
    }
}

/// Draws the trees: each node before its children, in the order of the table, `levels` levels deep
/// below the roots.
pub fn lay_out(children: &Vec<Vec<usize>>, roots: &Vec<usize>, levels: usize) -> (r: Vec<Visit>)
    requires
        levels < usize::MAX,
    ensures
        visit_views(r@) == laid_out_roots(table_view(children@), roots@, levels as nat, 0),
{
    let mut out: Vec<Visit> = Vec::new();
    let mut stack: Vec<Pending> = Vec::new();
    let multiple_roots = roots.len() > 1;
    let ghost target = laid_out_roots(table_view(children@), roots@, levels as nat, 0);
    let mut i: usize = roots.len();
    while i > 0
        invariant
            i <= roots.len(),
            multiple_roots == (roots@.len() > 1),
            levels < usize::MAX,
            forall|k: int|
                0 <= k < stack@.len() ==> (#[trigger] stack@[k]).visit.visual.indent
                    + stack@[k].levels <= levels + 1,
            pending_visits(table_view(children@), multiple_roots, stack@) == laid_out_roots(
                table_view(children@),
                roots@,
                levels as nat,
                i as nat,
            ),
        decreases i,
    {
        i = i - 1;
        let ghost before = stack@;
        stack.push(
            Pending {
                visit: Visit {
                    node: roots[i],
                    visual: Visual {
                        indent: if multiple_roots {
                            1
                        } else {
                            0
                        },
                        show_connector: multiple_roots,
                        is_last: i == roots.len() - 1,
                        gutters: Vec::new(),
                        is_virtual_root_child: multiple_roots,
                    },
                },
                just_branched: multiple_roots,
                levels,
            },
        );
        proof {
            assert(stack@.drop_last() =~= before);
            assert(stack@.last().visit@ =~= VisitView {
                node: roots@[i as int],
                visual: root_visual(i as int, roots@.len() as int),
            });
        }
    }
    while stack.len() > 0
        invariant
            multiple_roots == (roots@.len() > 1),
            levels < usize::MAX,
            forall|k: int|
                0 <= k < stack@.len() ==> (#[trigger] stack@[k]).visit.visual.indent
                    + stack@[k].levels <= levels + 1,
            target =~= visit_views(out@) + pending_visits(table_view(children@), multiple_roots, stack@),
        decreases pending_visits(table_view(children@), multiple_roots, stack@).len(),
    {
        let ghost full = stack@;
        let ghost done = visit_views(out@);
        let ghost waiting = pending_visits(table_view(children@), multiple_roots, full);
        let top = match stack.pop() {
            Some(top) => top,
            None => {
                return out;
            },
        };
        let ghost rest = stack@;
        assert(rest =~= full.drop_last());
        assert(top == full.last());
        let ghost visit = top.visit@;
        if top.levels > 0 && top.visit.node < children.len() {
            let under = &children[top.visit.node];
            let branches = under.len() > 1;
            let visual = &top.visit.visual;
            let indent: usize = if branches || (top.just_branched && visual.indent > 0) {
                visual.indent + 1
            } else {
                visual.indent
            };
            let mut gutters = vstd::slice::slice_to_vec(visual.gutters.as_slice());
            if visual.show_connector && !visual.is_virtual_root_child {
                let shown_at: usize = if multiple_roots && visual.indent > 0 {
                    visual.indent - 1
                } else {
                    visual.indent
                };
                let position: usize = if shown_at > 0 {
                    shown_at - 1
                } else {
                    0
                };
                gutters.push(GutterInfo { position, show: !visual.is_last });
            }
            assert(gutters@ =~= child_gutters(visit.visual, multiple_roots));
            let mut k: usize = under.len();
            while k > 0
                invariant
                    k <= under.len(),
                    levels < usize::MAX,
                    top.levels > 0,
                    visit == top.visit@,
                    visit.node < table_view(children@).len(),
                    under@ == table_view(children@)[visit.node as int],
                    branches == (under@.len() > 1),
                    top.visit.visual.indent + top.levels <= levels + 1,
                    indent == child_indent(visit.visual.indent, top.just_branched, branches),
                    gutters@ == child_gutters(visit.visual, multiple_roots),
                    forall|j: int|
                        0 <= j < stack@.len() ==> (#[trigger] stack@[j]).visit.visual.indent
                            + stack@[j].levels <= levels + 1,
                    pending_visits(table_view(children@), multiple_roots, stack@) =~= laid_out_children(
                        table_view(children@),
                        multiple_roots,
                        visit,
                        top.just_branched,
                        (top.levels - 1) as nat,
                        k as nat,
                    ) + pending_visits(table_view(children@), multiple_roots, rest),
                decreases k,
            {
                k = k - 1;
                let ghost before = stack@;
                stack.push(
                    Pending {
                        visit: Visit {
                            node: under[k],
                            visual: Visual {
                                indent,
                                show_connector: branches,
                                is_last: k == under.len() - 1,
                                gutters: vstd::slice::slice_to_vec(gutters.as_slice()),
                                is_virtual_root_child: false,
                            },
                        },
                        just_branched: branches,
                        levels: top.levels - 1,
                    },
                );
                proof {
                    assert(stack@.drop_last() =~= before);
                    assert(stack@.last().visit@ =~= VisitView {
                        node: under@[k as int],
                        visual: child_visual(
                            visit.visual,
                            top.just_branched,
                            multiple_roots,
                            k as int,
                            under@.len() as int,
                        ),
                    });
                }
            }
        }
        let ghost now = pending_visits(table_view(children@), multiple_roots, stack@);
        assert(waiting =~= seq![visit] + now);
        out.push(top.visit);
        assert(visit_views(out@) =~= done.push(visit));
    }
    out
}

/// Whether all the visited nodes are below `n`.
pub open spec fn nodes_below(visits: Seq<VisitView>, n: nat) -> bool {
    forall|k: int| 0 <= k < visits.len() ==> (#[trigger] visits[k]).node < n
}

proof fn lemma_nodes_below_concat(a: Seq<VisitView>, b: Seq<VisitView>, n: nat)
    requires
        nodes_below(a, n),
        nodes_below(b, n),
    ensures
        nodes_below(a + b, n),
{
    assert forall|k: int| 0 <= k < (a + b).len() implies (#[trigger] (a + b)[k]).node < n by {
        if k < a.len() {
            assert((a + b)[k] == a[k]);
        } else {
            assert((a + b)[k] == b[k - a.len()]);
        }
    }
}

/// Only nodes of the table and roots are drawn.
pub proof fn lemma_laid_out_in_range(
    children: Seq<Seq<usize>>,
    multiple_roots: bool,
    visit: VisitView,
    just_branched: bool,
    levels: nat,
    n: nat,
)
    requires
        visit.node < n,
        forall|i: int, k: int|
            #![trigger children[i][k]]
            0 <= i < children.len() && 0 <= k < children[i].len() ==> children[i][k] < n,
    ensures
        nodes_below(
            laid_out(children, multiple_roots, visit, just_branched, levels),
            n,
        ),
    decreases levels, 0nat,
{
    if levels > 0 {
        lemma_laid_out_children_in_range(
            children,
            multiple_roots,
            visit,
            just_branched,
            (levels - 1) as nat,
            0,
            n,
        );
        lemma_nodes_below_concat(
            seq![visit],
            laid_out_children(
                children,
                multiple_roots,
                visit,
                just_branched,
                (levels - 1) as nat,
                0,
            ),
            n,
        );
    }
}

proof fn lemma_laid_out_children_in_range(
    children: Seq<Seq<usize>>,
    multiple_roots: bool,
    visit: VisitView,
    just_branched: bool,
    levels: nat,
    from: nat,
    n: nat,
)
    requires
        forall|i: int, k: int|
            #![trigger children[i][k]]
            0 <= i < children.len() && 0 <= k < children[i].len() ==> children[i][k] < n,
    ensures
        nodes_below(
            laid_out_children(
                children,
                multiple_roots,
                visit,
                just_branched,
                levels,
                from,
            ),
            n,
        ),
    decreases levels, 1 + (children_in(children, visit.node).len() - from),
{
    let under = children_in(children, visit.node);
    if from < under.len() {
        let child = VisitView {
            node: under[from as int],
            visual: child_visual(
                visit.visual,
                just_branched,
                multiple_roots,
                from as int,
                under.len() as int,
            ),
        };
        assert(children[visit.node as int][from as int] < n);
        lemma_laid_out_in_range(children, multiple_roots, child, under.len() > 1, levels, n);
        lemma_laid_out_children_in_range(
            children,
            multiple_roots,
            visit,
            just_branched,
            levels,
            from + 1,
            n,
        );
        lemma_nodes_below_concat(
            laid_out(children, multiple_roots, child, under.len() > 1, levels),
            laid_out_children(children, multiple_roots, visit, just_branched, levels, from + 1),
            n,
        );
    }
}

/// Only nodes of the table and roots are drawn.
pub proof fn lemma_laid_out_roots_in_range(
    children: Seq<Seq<usize>>,
    roots: Seq<usize>,
    levels: nat,
    from: nat,
    n: nat,
)
    requires
        forall|i: int, k: int|
            #![trigger children[i][k]]
            0 <= i < children.len() && 0 <= k < children[i].len() ==> children[i][k] < n,
        forall|k: int| 0 <= k < roots.len() ==> #[trigger] roots[k] < n,
    ensures
        nodes_below(
            laid_out_roots(children, roots, levels, from),
            n,
        ),
    decreases roots.len() - from,
{
    if from < roots.len() {
        let root = VisitView {
            node: roots[from as int],
            visual: root_visual(from as int, roots.len() as int),
        };
        lemma_laid_out_in_range(children, roots.len() > 1, root, roots.len() > 1, levels, n);
        lemma_laid_out_roots_in_range(children, roots, levels, from + 1, n);
        lemma_nodes_below_concat(
            laid_out(children, roots.len() > 1, root, roots.len() > 1, levels),
            laid_out_roots(children, roots, levels, from + 1),
            n,
        );
    }
}

} // verus!
