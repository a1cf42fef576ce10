//! Session tree selector: filtering, folding and searching the entries of a
//! session tree, and moving through them.

use crate::entries::{
    get_searchable_text, has_text, has_text_content, searchable_text, Block, Content, EntryKind,
    Message, SessionEntry,
};
use crate::scroll::{clamp_selection, clamped, valid_selection};
use crate::text::{
    char_texts, chars_of, find, find_chars, lowercase, str_eq, to_lowercase, words, words_of,
};
use crate::tree_arena::{arena_wf, ArenaNode};
use crate::tree_layout::{
    lay_out, laid_out_roots, nodes_below, table_view, visit_views, VisitView, Visual, VisualView,
};
use vstd::prelude::*;
use vstd::string::*;

verus! {

broadcast use vstd::string::group_string_axioms;

/// Which entries the tree shows.
#[derive(Clone, Copy, Debug, PartialEq, Eq, Structural)]
pub enum FilterMode {
    Default,
    NoTools,
    UserOnly,
    LabeledOnly,
    All,
}

impl Default for FilterMode {
    fn default() -> (r: Self)
        ensures
            r == FilterMode::Default,
    {
        FilterMode::Default
    }
}

/// The name of a filter mode in the settings.
pub open spec fn mode_name(mode: FilterMode) -> Seq<char> {
    match mode {
        FilterMode::Default => "default"@,
        FilterMode::NoTools => "no-tools"@,
        FilterMode::UserOnly => "user-only"@,
        FilterMode::LabeledOnly => "labeled-only"@,
        FilterMode::All => "all"@,
    }
}

/// No two filter modes have the same name.
pub proof fn mode_names_are_distinct(a: FilterMode, b: FilterMode)
    ensures
        mode_name(a) == mode_name(b) ==> a == b,
{
    reveal_strlit("default");
    reveal_strlit("no-tools");
    reveal_strlit("user-only");
    reveal_strlit("labeled-only");
    reveal_strlit("all");
    assert("default"@.len() == 7 && "no-tools"@.len() == 8 && "user-only"@.len() == 9);
    assert("labeled-only"@.len() == 12 && "all"@.len() == 3);
}

/// The next filter mode in the cycle.
pub open spec fn next_mode(mode: FilterMode) -> FilterMode {
    match mode {
        FilterMode::Default => FilterMode::NoTools,
        FilterMode::NoTools => FilterMode::UserOnly,
        FilterMode::UserOnly => FilterMode::LabeledOnly,
        FilterMode::LabeledOnly => FilterMode::All,
        FilterMode::All => FilterMode::Default,
    }
}

/// The previous filter mode in the cycle.
pub open spec fn previous_mode(mode: FilterMode) -> FilterMode {
    match mode {
        FilterMode::Default => FilterMode::All,
        FilterMode::NoTools => FilterMode::Default,
        FilterMode::UserOnly => FilterMode::NoTools,
        FilterMode::LabeledOnly => FilterMode::UserOnly,
        FilterMode::All => FilterMode::LabeledOnly,
    }
}

/// Cycling forward and backward undo each other, and five steps forward come back.
pub proof fn filter_cycle_is_invertible(mode: FilterMode)
    ensures
        previous_mode(next_mode(mode)) == mode,
        next_mode(previous_mode(mode)) == mode,
        next_mode(next_mode(next_mode(next_mode(next_mode(mode))))) == mode,
{
}

impl FilterMode {
    #[must_use]
    pub fn as_str(self) -> (r: &'static str)
        ensures
            r@ == mode_name(self),
    {
        match self {
            FilterMode::Default => "default",
            FilterMode::NoTools => "no-tools",
            FilterMode::UserOnly => "user-only",
            FilterMode::LabeledOnly => "labeled-only",
            FilterMode::All => "all",
        }
    }

    /// The filter mode with the name. Each mode is what its own name gives.
    #[must_use]
    pub fn parse(value: &str) -> (r: Option<FilterMode>)
        ensures
            forall|mode: FilterMode| #[trigger]
                mode_name(mode) == value@ <==> r == Some(mode),
    {
        proof {
            assert forall|a: FilterMode, b: FilterMode|
                #![trigger mode_name(a), mode_name(b)]
                mode_name(a) == mode_name(b) implies a == b by {
                mode_names_are_distinct(a, b);
            }
        }
        if str_eq(value, "default") {
            assert(mode_name(FilterMode::Default) == value@);
            Some(FilterMode::Default)
        } else if str_eq(value, "no-tools") {
            assert(mode_name(FilterMode::NoTools) == value@);
            Some(FilterMode::NoTools)
        } else if str_eq(value, "user-only") {
            assert(mode_name(FilterMode::UserOnly) == value@);
            Some(FilterMode::UserOnly)
        } else if str_eq(value, "labeled-only") {
            assert(mode_name(FilterMode::LabeledOnly) == value@);
            Some(FilterMode::LabeledOnly)
        } else if str_eq(value, "all") {
            assert(mode_name(FilterMode::All) == value@);
            Some(FilterMode::All)
        } else {
            None
        }
    }

    pub(crate) fn next(self) -> (r: FilterMode)
        ensures
            r == next_mode(self),
    {
        match self {
            FilterMode::Default => FilterMode::NoTools,
            FilterMode::NoTools => FilterMode::UserOnly,
            FilterMode::UserOnly => FilterMode::LabeledOnly,
            FilterMode::LabeledOnly => FilterMode::All,
            FilterMode::All => FilterMode::Default,
        }
    }

    pub(crate) fn previous(self) -> (r: FilterMode)
        ensures
            r == previous_mode(self),
    {
        match self {
            FilterMode::Default => FilterMode::All,
            FilterMode::NoTools => FilterMode::Default,
            FilterMode::UserOnly => FilterMode::NoTools,
            FilterMode::LabeledOnly => FilterMode::UserOnly,
            FilterMode::All => FilterMode::LabeledOnly,
        }
    }
}

/// A tool call that an assistant message made.
#[derive(Debug)]
pub struct ToolCallInfo {
    pub id: String,
    pub name: String,
    /// The arguments as JSON text.
    pub arguments: String,
}

/// A node in display order.
#[derive(Debug)]
pub struct FlatNode {
    pub arena_idx: usize,
    pub visual: Visual,
}

/// The tree as a list that is filtered, folded and searched.
#[derive(Debug)]
pub struct TreeList {
    pub arena: Vec<ArenaNode>,
    pub flat_nodes: Vec<FlatNode>,
    /// Indices into `flat_nodes`.
    pub filtered_nodes: Vec<usize>,
    pub selected_index: usize,
    /// The node of the entry in use.
    pub current_leaf: Option<usize>,
    pub max_visible_lines: usize,
    pub filter_mode: FilterMode,
    pub search_query: String,
    pub tool_calls: Vec<ToolCallInfo>,
    pub multiple_roots: bool,
    pub show_label_timestamps: bool,
    /// For each node, whether it is on the path to the entry in use.
    pub active_path: Vec<bool>,
    /// For each shown node, the nearest shown node above it.
    pub visible_parent: Vec<Option<usize>>,
    /// For each node, the shown nodes right under it.
    pub visible_children: Vec<Vec<usize>>,
    pub last_selected: Option<usize>,
    /// For each node, whether it is folded.
    pub folded_nodes: Vec<bool>,
}

/// The visits that flat nodes stand for.
pub open spec fn flat_visits(flat: Seq<FlatNode>) -> Seq<VisitView> {
    flat.map_values(|f: FlatNode| VisitView { node: f.arena_idx, visual: f.visual@ })
}

/// How flat nodes are drawn.
pub open spec fn flat_visuals(flat: Seq<FlatNode>) -> Seq<VisualView> {
    flat.map_values(|f: FlatNode| f.visual@)
}

/// The nodes that flat nodes stand for.
pub open spec fn flat_nodes_of(flat: Seq<FlatNode>) -> Seq<usize> {
    flat.map_values(|f: FlatNode| f.arena_idx)
}

/// Whether the subtree of node `i` holds the entry in use.
pub open spec fn holds_leaf(arena: Seq<ArenaNode>, leaf: Option<usize>, i: int) -> bool
    decreases arena.len() - i,
{
    if 0 <= i < arena.len() {
        leaf == Some(arena[i].key) || exists|k: int|
            0 <= k < arena[i].children@.len() && i < (#[trigger] arena[i].children@[k])
                < arena.len() && holds_leaf(arena, leaf, arena[i].children@[k] as int)
    } else {
        false
    }
}

/// Those of the nodes whose subtree holds the entry in use, or those whose subtree does not.
pub open spec fn nodes_holding(
    arena: Seq<ArenaNode>,
    leaf: Option<usize>,
    nodes: Seq<usize>,
    holding: bool,
) -> Seq<usize>
    decreases nodes.len(),
{
    if nodes.len() == 0 {
        Seq::empty()
    } else {
        let before = nodes_holding(arena, leaf, nodes.drop_last(), holding);
        if holds_leaf(arena, leaf, nodes.last() as int) == holding {
            before.push(nodes.last())
        } else {
            before
        }
    }
}

/// The nodes with the branch that holds the entry in use first.
pub open spec fn active_first(
    arena: Seq<ArenaNode>,
    leaf: Option<usize>,
    nodes: Seq<usize>,
) -> Seq<usize> {
    nodes_holding(arena, leaf, nodes, true) + nodes_holding(arena, leaf, nodes, false)
}

/// For each node, its children with the active branch first.
pub open spec fn active_table(arena: Seq<ArenaNode>, leaf: Option<usize>) -> Seq<Seq<usize>> {
    Seq::new(arena.len(), |i: int| active_first(arena, leaf, arena[i].children@))
}

/// The tool calls in the first `n` blocks.
pub open spec fn block_calls(blocks: Seq<Block>) -> Seq<(Seq<char>, Seq<char>, Seq<char>)>
    decreases blocks.len(),
{
    if blocks.len() == 0 {
        Seq::empty()
    } else {
        let before = block_calls(blocks.drop_last());
        match blocks.last() {
            Block::ToolCall { id, name, arguments } => before.push((id@, name@, arguments@)),
            _ => before,
        }
    }
}

/// The tool calls of an entry.
pub open spec fn entry_calls(kind: EntryKind) -> Seq<(Seq<char>, Seq<char>, Seq<char>)> {
    match kind {
        EntryKind::Message(message) => if message.role@ == "assistant"@ {
            match message.content {
                Content::Blocks(blocks) => block_calls(blocks@),
                _ => Seq::empty(),
            }
        } else {
            Seq::empty()
        },
        _ => Seq::empty(),
    }
}

/// The tool calls of the nodes in order.
pub open spec fn node_calls(arena: Seq<ArenaNode>, nodes: Seq<usize>) -> Seq<
    (Seq<char>, Seq<char>, Seq<char>),
>
    decreases nodes.len(),
{
    if nodes.len() == 0 {
        Seq::empty()
    } else {
        node_calls(arena, nodes.drop_last()) + entry_calls(arena[nodes.last() as int].entry.kind)
    }
}

/// The contents of a list of tool calls.
pub open spec fn call_views(calls: Seq<ToolCallInfo>) -> Seq<(Seq<char>, Seq<char>, Seq<char>)> {
    calls.map_values(|c: ToolCallInfo| (c.id@, c.name@, c.arguments@))
}

/// Whether node `k` is on the way up from `at`, following parents for `steps` steps.
pub open spec fn on_path(arena: Seq<ArenaNode>, at: Option<usize>, k: usize, steps: nat) -> bool
    decreases steps,
{
    match at {
        Some(n) => n == k || (steps > 0 && n < arena.len() && on_path(
            arena,
            arena[n as int].parent,
            k,
            (steps - 1) as nat,
        )),
        None => false,
    }
}

/// Whether the entry is bookkeeping that the default view hides.
pub open spec fn is_settings_entry(kind: EntryKind) -> bool {
    kind is Label || kind is Custom || kind is ModelChange || kind is ThinkingLevelChange
        || kind is SessionInfo
}

/// Whether the entry is a message with the role.
pub open spec fn has_role(kind: EntryKind, role: Seq<char>) -> bool {
    match kind {
        EntryKind::Message(message) => message.role@ == role,
        _ => false,
    }
}

/// Whether the message ended by an error or an abort.
pub open spec fn ended_badly(message: Message) -> bool {
    match message.stop_reason {
        Some(reason) => reason@.len() > 0 && reason@ != "stop"@ && reason@ != "toolUse"@,
        None => false,
    }
}

/// Whether the entry is an assistant message that only called tools.
pub open spec fn is_silent(kind: EntryKind) -> bool {
    match kind {
        EntryKind::Message(message) => message.role@ == "assistant"@ && !has_text(message.content)
            && !ended_badly(message),
        _ => false,
    }
}

/// Whether the filter mode lets the entry through.
pub open spec fn passes_mode(kind: EntryKind, labeled: bool, mode: FilterMode) -> bool {
    match mode {
        FilterMode::UserOnly => has_role(kind, "user"@),
        FilterMode::NoTools => !is_settings_entry(kind) && !has_role(kind, "toolResult"@),
        FilterMode::LabeledOnly => labeled,
        FilterMode::All => true,
        FilterMode::Default => !is_settings_entry(kind),
    }
}

/// Whether the text holds every token.
pub open spec fn has_tokens(text: Seq<char>, tokens: Seq<Seq<char>>) -> bool {
    forall|i: int| 0 <= i < tokens.len() ==> find(text, #[trigger] tokens[i]) is Some
}

/// The tokens of a search query.
pub open spec fn search_tokens(query: Seq<char>) -> Seq<Seq<char>> {
    words(lowercase(query))
}

/// Whether the search finds the node.
pub open spec fn search_finds(node: ArenaNode, query: Seq<char>) -> bool {
    search_tokens(query).len() == 0 || has_tokens(
        lowercase(searchable_text(node.entry.kind, node.label)),
        search_tokens(query),
    )
}

/// The nodes below folded ones, as far as the first `n` flat nodes show.
pub open spec fn folded_away(
    arena: Seq<ArenaNode>,
    flat: Seq<usize>,
    folded: Seq<bool>,
    n: nat,
) -> Set<usize>
    decreases n,
{
    if n == 0 {
        Set::empty()
    } else {
        let before = folded_away(arena, flat, folded, (n - 1) as nat);
        let node = arena[flat[n - 1] as int];
        match node.parent {
            Some(p) => if folded[p as int] || before.contains(p) {
                before.insert(node.key)
            } else {
                before
            },
            None => before,
        }
    }
}

/// Whether the node is shown: it is not a silent assistant message, unless it is the entry in use;
/// the filter mode lets it through; the search finds it; and it is not below a folded node.
pub open spec fn is_shown(
    arena: Seq<ArenaNode>,
    i: usize,
    leaf: Option<usize>,
    mode: FilterMode,
    query: Seq<char>,
    away: Set<usize>,
) -> bool {
    let node = arena[i as int];
    &&& !is_silent(node.entry.kind) || leaf == Some(node.key)
    &&& passes_mode(node.entry.kind, node.label is Some, mode)
    &&& search_finds(node, query)
    &&& !away.contains(node.key)
}

/// Those of the first `n` flat nodes that are shown.
pub open spec fn shown_nodes(
    arena: Seq<ArenaNode>,
    flat: Seq<usize>,
    leaf: Option<usize>,
    mode: FilterMode,
    query: Seq<char>,
    away: Set<usize>,
    n: nat,
) -> Seq<usize>
    decreases n,
{
    if n == 0 {
        Seq::empty()
    } else {
        let before = shown_nodes(arena, flat, leaf, mode, query, away, (n - 1) as nat);
        if is_shown(arena, flat[n - 1], leaf, mode, query, away) {
            before.push((n - 1) as usize)
        } else {
            before
        }
    }
}

/// The keys of the shown nodes.
pub open spec fn shown_keys(
    arena: Seq<ArenaNode>,
    flat: Seq<usize>,
    filtered: Seq<usize>,
) -> Seq<usize> {
    filtered.map_values(|f: usize| arena[flat[f as int] as int].key)
}

/// The first shown node on the way up from `at`, within `steps` steps.
pub open spec fn climb(
    arena: Seq<ArenaNode>,
    keys: Seq<usize>,
    at: Option<usize>,
    steps: nat,
) -> Option<usize>
    decreases steps,
{
    match at {
        Some(k) => if keys.contains(k) {
            Some(k)
        } else if steps > 0 && k < arena.len() {
            climb(arena, keys, arena[k as int].parent, (steps - 1) as nat)
        } else {
            None
        },
        None => None,
    }
}

/// The nearest shown node above a node.
pub open spec fn shown_parent(arena: Seq<ArenaNode>, keys: Seq<usize>, k: usize) -> Option<usize> {
    climb(arena, keys, arena[k as int].parent, arena.len())
}

/// Those of the first `n` shown nodes that stand right under the node, or at the top for none.
pub open spec fn shown_under(
    arena: Seq<ArenaNode>,
    keys: Seq<usize>,
    parent: Option<usize>,
    n: nat,
) -> Seq<usize>
    decreases n,
{
    if n == 0 {
        Seq::empty()
    } else {
        let before = shown_under(arena, keys, parent, (n - 1) as nat);
        if shown_parent(arena, keys, keys[n - 1]) == parent {
            before.push(keys[n - 1])
        } else {
            before
        }
    }
}

/// For each node, the shown nodes right under it.
pub open spec fn shown_table(arena: Seq<ArenaNode>, keys: Seq<usize>) -> Seq<Seq<usize>> {
    Seq::new(arena.len(), |k: int| shown_under(arena, keys, Some(k as usize), keys.len()))
}

/// The last of the first `n` positions at which the key stands.
pub open spec fn last_position(keys: Seq<usize>, k: usize, n: nat) -> Option<usize>
    decreases n,
{
    if n == 0 {
        None
    } else if keys[n - 1] == k {
        Some((n - 1) as usize)
    } else {
        last_position(keys, k, (n - 1) as nat)
    }
}

/// Where the key stands among the shown nodes.
pub open spec fn position_of_key(keys: Seq<usize>, k: usize) -> Option<usize> {
    last_position(keys, k, keys.len())
}

/// The flat nodes with each visited node drawn as visited.
pub open spec fn redrawn(
    visuals: Seq<VisualView>,
    visits: Seq<VisitView>,
    keys: Seq<usize>,
    filtered: Seq<usize>,
) -> Seq<VisualView>
    decreases visits.len(),
{
    if visits.len() == 0 {
        visuals
    } else {
        let before = redrawn(visuals, visits.drop_last(), keys, filtered);
        match position_of_key(keys, visits.last().node) {
            Some(i) => before.update(filtered[i as int] as int, visits.last().visual),
            None => before,
        }
    }
}

/// The position of the shown node nearest to `at` on the way up; the last one if there is none.
pub open spec fn nearest_position(
    arena: Seq<ArenaNode>,
    keys: Seq<usize>,
    at: Option<usize>,
) -> int {
    if keys.len() == 0 {
        0
    } else {
        match climb(arena, keys, at, arena.len()) {
            Some(k) => match position_of_key(keys, k) {
                Some(i) => i as int,
                None => keys.len() - 1,
            },
            None => keys.len() - 1,
        }
    }
}

pub(crate) fn flags(n: usize) -> (r: Vec<bool>)
    ensures
        r@ == Seq::new(n as nat, |i: int| false),
{
    let mut r: Vec<bool> = Vec::new();
    let mut i: usize = 0;
    while i < n
        invariant
            i <= n,
            r@ =~= Seq::new(i as nat, |i: int| false),
        decreases n - i,
    {
        r.push(false);
        i = i + 1;
    }
    r
}

/// For each node, whether its subtree holds the entry in use.
fn mark_active(arena: &Vec<ArenaNode>, leaf: Option<usize>) -> (r: Vec<bool>)
    requires
        arena_wf(arena@),
    ensures
        r@.len() == arena@.len(),
        forall|i: int| 0 <= i < r@.len() ==> #[trigger] r@[i] == holds_leaf(arena@, leaf, i),
{
    let n: usize = arena.len();
    let mut r = flags(n);
    let mut i: usize = n;
    while i > 0
        invariant
            i <= n,
            n == arena@.len(),
            r@.len() == n,
            arena_wf(arena@),
            forall|j: int| i <= j < n ==> #[trigger] r@[j] == holds_leaf(arena@, leaf, j),
        decreases i,
    {
        i = i - 1;
        let mut has = leaf == Some(arena[i].key);
        let children = &arena[i].children;
        let mut k: usize = 0;
        while k < children.len()
            invariant
                k <= children.len(),
                i < n,
                n == arena@.len(),
                r@.len() == n,
                arena_wf(arena@),
                *children == arena@[i as int].children,
                forall|j: int| i < j < n ==> #[trigger] r@[j] == holds_leaf(arena@, leaf, j),
                has == (leaf == Some(arena@[i as int].key) || exists|m: int|
                    0 <= m < k && i < (#[trigger] arena@[i as int].children@[m]) < arena@.len()
                        && holds_leaf(arena@, leaf, arena@[i as int].children@[m] as int)),
            decreases children.len() - k,
        {
            let child: usize = children[k];
            assert(child == arena@[i as int].children@[k as int]);
            assert(r@[child as int] == holds_leaf(arena@, leaf, child as int));
            if r[child] {
                has = true;
            }
            k = k + 1;
        }
        r.set(i, has);
    }
    r
}

fn order_active_first(
    arena: &Vec<ArenaNode>,
    leaf: Option<usize>,
    active: &Vec<bool>,
    nodes: &Vec<usize>,
) -> (r: Vec<usize>)
    requires
        active@.len() == arena@.len(),
        forall|i: int| 0 <= i < active@.len() ==> #[trigger] active@[i] == holds_leaf(arena@, leaf, i),
        forall|k: int| 0 <= k < nodes@.len() ==> #[trigger] nodes@[k] < arena@.len(),
    ensures
        r@ == active_first(arena@, leaf, nodes@),
{
    let mut first: Vec<usize> = Vec::new();
    let mut rest: Vec<usize> = Vec::new();
    let mut k: usize = 0;
    while k < nodes.len()
        invariant
            k <= nodes.len(),
            active@.len() == arena@.len(),
            forall|i: int|
                0 <= i < active@.len() ==> #[trigger] active@[i] == holds_leaf(arena@, leaf, i),
            forall|k: int| 0 <= k < nodes@.len() ==> #[trigger] nodes@[k] < arena@.len(),
            first@ == nodes_holding(arena@, leaf, nodes@.take(k as int), true),
            rest@ == nodes_holding(arena@, leaf, nodes@.take(k as int), false),
        decreases nodes.len() - k,
    {
        assert(nodes@.take(k as int + 1).drop_last() =~= nodes@.take(k as int));
        let node: usize = nodes[k];
        assert(active@[node as int] == holds_leaf(arena@, leaf, node as int));
        if active[node] {
            first.push(node);
        } else {
            rest.push(node);
        }
        k = k + 1;
    }
    assert(nodes@.take(k as int) =~= nodes@);
    first.append(&mut rest);
    first
}

/// Appends the tool calls of an entry.
fn push_calls(entry: &SessionEntry, calls: &mut Vec<ToolCallInfo>)
    ensures
        call_views(final(calls)@) == call_views(old(calls)@) + entry_calls(entry.kind),
{
    if let EntryKind::Message(message) = &entry.kind {
        if str_eq(message.role.as_str(), "assistant") {
            if let Content::Blocks(blocks) = &message.content {
                let mut i: usize = 0;
                while i < blocks.len()
                    invariant
                        i <= blocks.len(),
                        call_views(calls@) =~= call_views(old(calls)@) + block_calls(
                            blocks@.take(i as int),
                        ),
                    decreases blocks.len() - i,
                {
                    assert(blocks@.take(i as int + 1).drop_last() =~= blocks@.take(i as int));
                    let ghost before = calls@;
                    if let Block::ToolCall { id, name, arguments } = &blocks[i] {
                        calls.push(
                            ToolCallInfo {
                                id: id.clone(),
                                name: name.clone(),
                                arguments: arguments.clone(),
                            },
                        );
                        assert(call_views(calls@) =~= call_views(before).push(
                            (id@, name@, arguments@),
                        ));
                    }
                    i = i + 1;
                }
                assert(blocks@.take(i as int) =~= blocks@);
                return;
            }
        }
    }
    assert(call_views(calls@) =~= call_views(calls@) + entry_calls(entry.kind));
}

/// The tree in display order, with the tool calls of its entries.
pub(crate) fn flatten_tree(arena: &Vec<ArenaNode>, roots: &Vec<usize>, leaf: Option<usize>) -> (r: (
    Vec<FlatNode>,
    Vec<ToolCallInfo>,
))
    requires
        arena_wf(arena@),
        forall|k: int| 0 <= k < roots@.len() ==> #[trigger] roots@[k] < arena@.len(),
    ensures
        flat_visits(r.0@) == laid_out_roots(
            active_table(arena@, leaf),
            active_first(arena@, leaf, roots@),
            arena@.len(),
            0,
        ),
        call_views(r.1@) == node_calls(arena@, flat_nodes_of(r.0@)),
        forall|f: int| 0 <= f < r.0@.len() ==> (#[trigger] r.0@[f]).arena_idx < arena@.len(),
{
    let active = mark_active(arena, leaf);
    let ordered_roots = order_active_first(arena, leaf, &active, roots);
    let n: usize = arena.len();
    let mut table: Vec<Vec<usize>> = Vec::new();
    let mut i: usize = 0;
    while i < n
        invariant
            i <= n,
            n == arena@.len(),
            arena_wf(arena@),
            active@.len() == arena@.len(),
            forall|i: int|
                0 <= i < active@.len() ==> #[trigger] active@[i] == holds_leaf(arena@, leaf, i),
            table_view(table@) =~= active_table(arena@, leaf).take(i as int),
        decreases n - i,
    {
        let ghost before = table@;
        let ordered = order_active_first(arena, leaf, &active, &arena[i].children);
        table.push(ordered);
        assert(table_view(table@) =~= table_view(before).push(ordered@));
        i = i + 1;
    }
    assert(table_view(table@) =~= active_table(arena@, leaf));
    let visits = lay_out(&table, &ordered_roots, n);
    proof {
        lemma_visits_in_range(arena@, leaf, roots@);
    }
    let ghost views = visit_views(visits@);
    let mut flat: Vec<FlatNode> = Vec::new();
    let mut calls: Vec<ToolCallInfo> = Vec::new();
    i = 0;
    while i < visits.len()
        invariant
            i <= visits.len(),
            n == arena@.len(),
            views == visit_views(visits@),
            nodes_below(views, n as nat),
            flat_visits(flat@) =~= views.take(i as int),
            call_views(calls@) == node_calls(arena@, flat_nodes_of(flat@)),
            forall|f: int| 0 <= f < flat@.len() ==> (#[trigger] flat@[f]).arena_idx < arena@.len(),
        decreases visits.len() - i,
    {
        let ghost before = flat@;
        let node: usize = visits[i].node;
        assert(views[i as int] == visits@[i as int]@);
        push_calls(&arena[node].entry, &mut calls);
        flat.push(FlatNode { arena_idx: node, visual: visits[i].visual.clone() });
        proof {
            assert(flat_visits(flat@) =~= flat_visits(before).push(views[i as int]));
            assert(flat_nodes_of(flat@).drop_last() =~= flat_nodes_of(before));
            assert(flat_nodes_of(flat@).last() == node);
        }
        i = i + 1;
    }
    assert(views.take(i as int) =~= views);
    (flat, calls)
}

proof fn lemma_nodes_holding_in_range(
    arena: Seq<ArenaNode>,
    leaf: Option<usize>,
    nodes: Seq<usize>,
    holding: bool,
    n: nat,
)
    requires
        forall|k: int| 0 <= k < nodes.len() ==> #[trigger] nodes[k] < n,
    ensures
        forall|k: int|
            0 <= k < nodes_holding(arena, leaf, nodes, holding).len() ==> #[trigger] nodes_holding(
                arena,
                leaf,
                nodes,
                holding,
            )[k] < n,
    decreases nodes.len(),
{
    if nodes.len() > 0 {
        let rest = nodes.drop_last();
        assert forall|k: int| 0 <= k < rest.len() implies #[trigger] rest[k] < n by {
            assert(rest[k] == nodes[k]);
        }
        lemma_nodes_holding_in_range(arena, leaf, rest, holding, n);
        assert(nodes.last() == nodes[nodes.len() - 1]);
        let before = nodes_holding(arena, leaf, rest, holding);
        let all = nodes_holding(arena, leaf, nodes, holding);
        assert forall|k: int| 0 <= k < all.len() implies #[trigger] all[k] < n by {
            if k < before.len() {
                assert(all[k] == before[k]);
            }
        }
    }
}

proof fn lemma_visits_in_range(arena: Seq<ArenaNode>, leaf: Option<usize>, roots: Seq<usize>)
    requires
        arena_wf(arena),
        forall|k: int| 0 <= k < roots.len() ==> #[trigger] roots[k] < arena.len(),
    ensures
        nodes_below(
            laid_out_roots(
                active_table(arena, leaf),
                active_first(arena, leaf, roots),
                arena.len(),
                0,
            ),
            arena.len(),
        ),
{
    let table = active_table(arena, leaf);
    assert forall|i: int, k: int|
        #![trigger table[i][k]]
        0 <= i < table.len() && 0 <= k < table[i].len() implies table[i][k] < arena.len() by {
        let under = arena[i].children@;
        assert forall|m: int| 0 <= m < under.len() implies #[trigger] under[m] < arena.len() by {
            assert(arena[i].children@[m] < arena.len());
        }
        lemma_nodes_holding_in_range(arena, leaf, under, true, arena.len());
        lemma_nodes_holding_in_range(arena, leaf, under, false, arena.len());
    }
    let ordered = active_first(arena, leaf, roots);
    lemma_nodes_holding_in_range(arena, leaf, roots, true, arena.len());
    lemma_nodes_holding_in_range(arena, leaf, roots, false, arena.len());
    assert forall|k: int| 0 <= k < ordered.len() implies #[trigger] ordered[k] < arena.len() by {}
    crate::tree_layout::lemma_laid_out_roots_in_range(table, ordered, arena.len(), 0, arena.len());
}

/// For each node, whether it is on the path up from the entry in use.
pub(crate) fn build_active_path(arena: &Vec<ArenaNode>, leaf: Option<usize>) -> (r: Vec<bool>)
    requires
        arena_wf(arena@),
        leaf matches Some(k) ==> k < arena@.len(),
    ensures
        r@.len() == arena@.len(),
        forall|k: usize|
            k < arena@.len() ==> #[trigger] r@[k as int] == on_path(
                arena@,
                leaf,
                k,
                arena@.len(),
            ),
{
    let n: usize = arena.len();
    let mut r = flags(n);
    let mut at: Option<usize> = leaf;
    let mut steps: usize = n;
    let mut going = true;
    while going
        invariant
            n == arena@.len(),
            arena_wf(arena@),
            r@.len() == n,
            at matches Some(k) ==> k < n,
            forall|k: usize|
                k < n ==> on_path(arena@, leaf, k, n as nat) == (#[trigger] r@[k as int] || (going
                    && on_path(arena@, at, k, steps as nat))),
        decreases
            if going {
                steps + 1
            } else {
                0
            },
    {
        let ghost before = r@;
        let ghost from = at;
        let ghost had = steps;
        match at {
            Some(node) => {
                r.set(node, true);
                if steps > 0 {
                    steps = steps - 1;
                    at = arena[node].parent;
                    proof {
                        assert forall|k: usize| k < n implies on_path(arena@, leaf, k, n as nat) == (
                        #[trigger] r@[k as int] || on_path(arena@, at, k, steps as nat)) by {
                            assert(on_path(arena@, leaf, k, n as nat) == (before[k as int]
                                || on_path(arena@, from, k, had as nat)));
                        }
                    }
                } else {
                    going = false;
                    proof {
                        assert forall|k: usize| k < n implies on_path(arena@, leaf, k, n as nat)
                            == #[trigger] r@[k as int] by {
                            assert(on_path(arena@, leaf, k, n as nat) == (before[k as int]
                                || on_path(arena@, from, k, had as nat)));
                        }
                    }
                }
            },
            None => {
                going = false;
            },
        }
    }
    r
}

/// Whether the entry is an assistant message that only called tools.
fn check_silent(entry: &SessionEntry) -> (r: bool)
    ensures
        r == is_silent(entry.kind),
{
    match &entry.kind {
        EntryKind::Message(message) => {
            let badly = match &message.stop_reason {
                Some(reason) => !reason.as_str().is_empty() && !str_eq(reason.as_str(), "stop")
                    && !str_eq(reason.as_str(), "toolUse"),
                None => false,
            };
            str_eq(message.role.as_str(), "assistant") && !has_text_content(&message.content)
                && !badly
        },
        _ => false,
    }
}

fn check_role(entry: &SessionEntry, role: &str) -> (r: bool)
    ensures
        r == has_role(entry.kind, role@),
{
    match &entry.kind {
        EntryKind::Message(message) => str_eq(message.role.as_str(), role),
        _ => false,
    }
}

fn check_mode(entry: &SessionEntry, labeled: bool, mode: FilterMode) -> (r: bool)
    ensures
        r == passes_mode(entry.kind, labeled, mode),
{
    let settings = match &entry.kind {
        EntryKind::Label { .. } => true,
        EntryKind::Custom { .. } => true,
        EntryKind::ModelChange { .. } => true,
        EntryKind::ThinkingLevelChange { .. } => true,
        EntryKind::SessionInfo { .. } => true,
        _ => false,
    };
    match mode {
        FilterMode::UserOnly => check_role(entry, "user"),
        FilterMode::NoTools => !settings && !check_role(entry, "toolResult"),
        FilterMode::LabeledOnly => labeled,
        FilterMode::All => true,
        FilterMode::Default => !settings,
    }
}

/// Whether each of the tokens occurs in the text, both in lowercase.
pub fn check_tokens(text: &Vec<char>, tokens: &Vec<Vec<char>>) -> (r: bool)
    ensures
        r == has_tokens(text@, char_texts(tokens@)),
{
    let mut i: usize = 0;
    while i < tokens.len()
        invariant
            i <= tokens.len(),
            forall|j: int| 0 <= j < i ==> find(text@, #[trigger] char_texts(tokens@)[j]) is Some,
        decreases tokens.len() - i,
    {
        assert(char_texts(tokens@)[i as int] == tokens@[i as int]@);
        if find_chars(text.as_slice(), tokens[i].as_slice()).is_none() {
            return false;
        }
        i = i + 1;
    }
    true
}

fn check_search(node: &ArenaNode, tokens: &Vec<Vec<char>>, query: &str) -> (r: bool)
    requires
        char_texts(tokens@) == search_tokens(query@),
    ensures
        r == search_finds(*node, query@),
{
    assert(tokens@.len() == char_texts(tokens@).len());
    if tokens.len() == 0 {
        return true;
    }
    let text = get_searchable_text(&node.entry, &node.label);
    let lower = to_lowercase(text.as_str());
    let chars = chars_of(lower.as_str());
    check_tokens(&chars, tokens)
}

/// For each node, whether it is below a folded one.
fn mark_folded_away(arena: &Vec<ArenaNode>, flat: &Vec<FlatNode>, folded: &Vec<bool>) -> (r: Vec<
    bool,
>)
    requires
        arena_wf(arena@),
        folded@.len() == arena@.len(),
        forall|f: int| 0 <= f < flat@.len() ==> (#[trigger] flat@[f]).arena_idx < arena@.len(),
    ensures
        r@.len() == arena@.len(),
        forall|k: usize|
            k < arena@.len() ==> #[trigger] r@[k as int] == folded_away(
                arena@,
                flat_nodes_of(flat@),
                folded@,
                flat@.len(),
            ).contains(k),
{
    let n: usize = arena.len();
    let mut r = flags(n);
    let mut i: usize = 0;
    while i < flat.len()
        invariant
            i <= flat.len(),
            n == arena@.len(),
            r@.len() == n,
            arena_wf(arena@),
            folded@.len() == n,
            forall|f: int| 0 <= f < flat@.len() ==> (#[trigger] flat@[f]).arena_idx < arena@.len(),
            forall|k: usize|
                k < n ==> #[trigger] r@[k as int] == folded_away(
                    arena@,
                    flat_nodes_of(flat@),
                    folded@,
                    i as nat,
                ).contains(k),
        decreases flat.len() - i,
    {
        assert(flat@[i as int].arena_idx < arena@.len());
        let node = &arena[flat[i].arena_idx];
        assert(flat_nodes_of(flat@)[i as int] == flat@[i as int].arena_idx);
        assert(arena@[flat@[i as int].arena_idx as int] == *node);
        if let Some(p) = node.parent {
            if folded[p] || r[p] {
                r.set(node.key, true);
            }
        }
        i = i + 1;
    }
    r
}

impl TreeList {
    /// The nodes in display order.
    pub open spec fn flat(&self) -> Seq<usize> {
        flat_nodes_of(self.flat_nodes@)
    }

    /// The nodes below folded ones.
    pub open spec fn away(&self) -> Set<usize> {
        folded_away(self.arena@, self.flat(), self.folded_nodes@, self.flat().len())
    }

    /// The flat nodes that are to be shown.
    pub open spec fn to_show(&self) -> Seq<usize> {
        shown_nodes(
            self.arena@,
            self.flat(),
            self.current_leaf,
            self.filter_mode,
            self.search_query@,
            self.away(),
            self.flat().len(),
        )
    }

    /// The keys of the shown nodes.
    pub open spec fn keys(&self) -> Seq<usize> {
        shown_keys(self.arena@, self.flat(), self.filtered_nodes@)
    }

    /// Whether the nodes, the flat nodes, the shown nodes and the flags fit together.
    pub open spec fn is_consistent(&self) -> bool {
        &&& arena_wf(self.arena@)
        &&& forall|f: int|
            0 <= f < self.flat_nodes@.len() ==> (#[trigger] self.flat_nodes@[f]).arena_idx
                < self.arena@.len()
        &&& forall|i: int|
            0 <= i < self.filtered_nodes@.len() ==> #[trigger] self.filtered_nodes@[i]
                < self.flat_nodes@.len()
        &&& self.folded_nodes@.len() == self.arena@.len()
        &&& self.active_path@.len() == self.arena@.len()
        &&& self.current_leaf matches Some(k) ==> k < self.arena@.len()
        &&& self.last_selected matches Some(k) ==> k < self.arena@.len()
    }

    /// Whether the connections between the shown nodes are up to date.
    pub open spec fn is_connected(&self) -> bool {
        &&& self.visible_parent@.len() == self.arena@.len()
        &&& forall|i: int|
            0 <= i < self.keys().len() ==> self.visible_parent@[(#[trigger] self.keys()[i]) as int]
                == shown_parent(self.arena@, self.keys(), self.keys()[i])
        &&& self.visible_children@.len() == self.arena@.len()
        &&& table_view(self.visible_children@) == shown_table(self.arena@, self.keys())
    }

    /// Whether the list is well formed: consistent, connected as far as there is something to show,
    /// and with a valid selection.
    pub open spec fn wf(&self) -> bool {
        &&& self.is_consistent()
        &&& self.filtered_nodes@.len() > 0 ==> self.is_connected()
        &&& valid_selection(self.selected_index as int, self.filtered_nodes@.len() as int)
    }

    /// The key of the selected node.
    pub open spec fn selected_key(&self) -> Option<usize> {
        if self.selected_index < self.filtered_nodes@.len() {
            Some(self.keys()[self.selected_index as int])
        } else {
            None
        }
    }

    /// The flat nodes that are to be shown.
    fn list_shown(&self) -> (r: Vec<usize>)
        requires
            self.is_consistent(),
        ensures
            r@ == self.to_show(),
            forall|i: int| 0 <= i < r@.len() ==> #[trigger] r@[i] < self.flat_nodes@.len(),
    {
        let lower = to_lowercase(self.search_query.as_str());
        let chars = chars_of(lower.as_str());
        let tokens = words_of(chars.as_slice());
        let away = mark_folded_away(&self.arena, &self.flat_nodes, &self.folded_nodes);
        let mut r: Vec<usize> = Vec::new();
        let mut i: usize = 0;
        while i < self.flat_nodes.len()
            invariant
                i <= self.flat_nodes.len(),
                self.is_consistent(),
                char_texts(tokens@) == search_tokens(self.search_query@),
                away@.len() == self.arena@.len(),
                forall|k: usize|
                    k < self.arena@.len() ==> #[trigger] away@[k as int] == self.away().contains(k),
                forall|j: int| 0 <= j < r@.len() ==> #[trigger] r@[j] < self.flat_nodes@.len(),
                r@ == shown_nodes(
                    self.arena@,
                    self.flat(),
                    self.current_leaf,
                    self.filter_mode,
                    self.search_query@,
                    self.away(),
                    i as nat,
                ),
            decreases self.flat_nodes.len() - i,
        {
            assert(self.flat_nodes@[i as int].arena_idx < self.arena@.len());
            let node = &self.arena[self.flat_nodes[i].arena_idx];
            assert(self.flat()[i as int] == self.flat_nodes@[i as int].arena_idx);
            assert(self.arena@[self.flat()[i as int] as int] == *node);
            assert(away@[node.key as int] == self.away().contains(node.key));
            let is_leaf = self.current_leaf == Some(node.key);
            let audible = !check_silent(&node.entry) || is_leaf;
            if audible && check_mode(&node.entry, node.label.is_some(), self.filter_mode)
                && check_search(node, &tokens, self.search_query.as_str()) && !away[node.key] {
                r.push(i);
            }
            i = i + 1;
        }
        r
    }

    /// The keys of the given flat nodes.
    pub(crate) fn keys_of(&self, filtered: &Vec<usize>) -> (r: Vec<usize>)
        requires
            arena_wf(self.arena@),
            forall|f: int|
                0 <= f < self.flat_nodes@.len() ==> (#[trigger] self.flat_nodes@[f]).arena_idx
                    < self.arena@.len(),
            forall|i: int|
                0 <= i < filtered@.len() ==> #[trigger] filtered@[i] < self.flat_nodes@.len(),
        ensures
            r@ == shown_keys(self.arena@, self.flat(), filtered@),
            forall|i: int| 0 <= i < r@.len() ==> #[trigger] r@[i] < self.arena@.len(),
    {
        let mut r: Vec<usize> = Vec::new();
        let mut i: usize = 0;
        while i < filtered.len()
            invariant
                i <= filtered.len(),
                arena_wf(self.arena@),
                forall|f: int|
                    0 <= f < self.flat_nodes@.len() ==> (#[trigger] self.flat_nodes@[f]).arena_idx
                        < self.arena@.len(),
                forall|i: int|
                    0 <= i < filtered@.len() ==> #[trigger] filtered@[i] < self.flat_nodes@.len(),
                r@ =~= shown_keys(self.arena@, self.flat(), filtered@).take(i as int),
                forall|j: int| 0 <= j < r@.len() ==> #[trigger] r@[j] < self.arena@.len(),
            decreases filtered.len() - i,
        {
            let f: usize = filtered[i];
            assert(self.flat_nodes@[f as int].arena_idx < self.arena@.len());
            assert(self.flat()[f as int] == self.flat_nodes@[f as int].arena_idx);
            r.push(self.arena[self.flat_nodes[f].arena_idx].key);
            i = i + 1;
        }
        r
    }
}

/// For each node, the position of its key among the shown ones.
pub(crate) fn positions_of(keys: &Vec<usize>, n: usize) -> (r: Vec<Option<usize>>)
    requires
        forall|i: int| 0 <= i < keys@.len() ==> #[trigger] keys@[i] < n,
    ensures
        r@.len() == n,
        forall|k: usize| k < n ==> #[trigger] r@[k as int] == position_of_key(keys@, k),
        forall|k: usize| k < n ==> (#[trigger] r@[k as int] is Some) == keys@.contains(k),
        forall|k: usize|
            k < n ==> (#[trigger] r@[k as int] matches Some(i) ==> i < keys@.len()),
{
    let mut r: Vec<Option<usize>> = Vec::new();
    let mut i: usize = 0;
    while i < n
        invariant
            i <= n,
            r@ =~= Seq::new(i as nat, |k: int| None::<usize>),
        decreases n - i,
    {
        r.push(None);
        i = i + 1;
    }
    i = 0;
    while i < keys.len()
        invariant
            i <= keys.len(),
            r@.len() == n,
            forall|i: int| 0 <= i < keys@.len() ==> #[trigger] keys@[i] < n,
            forall|k: usize| k < n ==> #[trigger] r@[k as int] == last_position(keys@, k, i as nat),
        decreases keys.len() - i,
    {
        r.set(keys[i], Some(i));
        i = i + 1;
    }
    proof {
        assert forall|k: usize| k < n implies (#[trigger] r@[k as int] is Some) == keys@.contains(k)
            && (r@[k as int] matches Some(i) ==> i < keys@.len()) by {
            lemma_last_position(keys@, k, keys@.len());
        }
    }
    r
}

proof fn lemma_last_position(keys: Seq<usize>, k: usize, n: nat)
    requires
        n <= keys.len() <= usize::MAX,
    ensures
        last_position(keys, k, n) matches Some(i) ==> i < n && keys[i as int] == k,
        last_position(keys, k, n) is Some == keys.take(n as int).contains(k),
        n == keys.len() ==> (last_position(keys, k, n) is Some == keys.contains(k)),
    decreases n,
{
    if n > 0 {
        lemma_last_position(keys, k, (n - 1) as nat);
        let before = keys.take(n - 1);
        let all = keys.take(n as int);
        if before.contains(k) {
            let i = before.index_of(k);
            assert(all[i] == k);
        }
        if keys[n - 1] == k {
            assert(all[n - 1] == k);
        }
        if all.contains(k) && keys[n - 1] != k {
            let i = all.index_of(k);
            assert(before[i] == k);
        }
    }
    if n == keys.len() {
        assert(keys.take(n as int) =~= keys);
    }
}

/// The first shown node on the way up from `from`. `positions` tells where the keys stand.
pub(crate) fn climb_to_shown(
    arena: &Vec<ArenaNode>,
    keys: &Vec<usize>,
    positions: &Vec<Option<usize>>,
    from: Option<usize>,
) -> (r: Option<usize>)
    requires
        arena_wf(arena@),
        positions@.len() == arena@.len(),
        from matches Some(k) ==> k < arena@.len(),
        forall|k: usize|
            k < arena@.len() ==> (#[trigger] positions@[k as int] is Some) == keys@.contains(k),
    ensures
        r == climb(arena@, keys@, from, arena@.len()),
        r matches Some(k) ==> k < arena@.len() && keys@.contains(k),
{
    let mut at: Option<usize> = from;
    let mut steps: usize = arena.len();
    loop
        invariant
            at matches Some(k) ==> k < arena@.len(),
            climb(arena@, keys@, from, arena@.len()) == climb(arena@, keys@, at, steps as nat),
            arena_wf(arena@),
            positions@.len() == arena@.len(),
            forall|k: usize|
                k < arena@.len() ==> (#[trigger] positions@[k as int] is Some) == keys@.contains(k),
        decreases steps,
    {
        match at {
            Some(k) => {
                if positions[k].is_some() {
                    return Some(k);
                }
                if steps == 0 {
                    return None;
                }
                steps = steps - 1;
                at = arena[k].parent;
            },
            None => {
                return None;
            },
        }
    }
}

/// The nearest shown node above each shown node, and the shown nodes right under each node and at
/// the top.
struct ShownTree {
    parent: Vec<Option<usize>>,
    children: Vec<Vec<usize>>,
    roots: Vec<usize>,
}

fn connect_shown(arena: &Vec<ArenaNode>, keys: &Vec<usize>, positions: &Vec<Option<usize>>) -> (r:
    ShownTree)
    requires
        arena_wf(arena@),
        positions@.len() == arena@.len(),
        forall|i: int| 0 <= i < keys@.len() ==> #[trigger] keys@[i] < arena@.len(),
        forall|k: usize|
            k < arena@.len() ==> (#[trigger] positions@[k as int] is Some) == keys@.contains(k),
    ensures
        r.parent@.len() == arena@.len(),
        forall|i: int|
            0 <= i < keys@.len() ==> r.parent@[(#[trigger] keys@[i]) as int] == shown_parent(
                arena@,
                keys@,
                keys@[i],
            ),
        r.children@.len() == arena@.len(),
        table_view(r.children@) == shown_table(arena@, keys@),
        r.roots@ == shown_under(arena@, keys@, None, keys@.len()),
{
    let n: usize = arena.len();
    let mut parent: Vec<Option<usize>> = Vec::new();
    let mut children: Vec<Vec<usize>> = Vec::new();
    let mut roots: Vec<usize> = Vec::new();
    let mut i: usize = 0;
    while i < n
        invariant
            i <= n,
            parent@.len() == i,
            children@.len() == i,
            forall|k: int| 0 <= k < i ==> (#[trigger] children@[k])@ == Seq::<usize>::empty(),
        decreases n - i,
    {
        parent.push(None);
        children.push(Vec::new());
        i = i + 1;
    }
    i = 0;
    while i < keys.len()
        invariant
            i <= keys.len(),
            n == arena@.len(),
            arena_wf(arena@),
            positions@.len() == n,
            parent@.len() == n,
            children@.len() == n,
            forall|i: int| 0 <= i < keys@.len() ==> #[trigger] keys@[i] < n,
            forall|k: usize|
                k < n ==> (#[trigger] positions@[k as int] is Some) == keys@.contains(k),
            forall|j: int|
                0 <= j < i ==> parent@[(#[trigger] keys@[j]) as int] == shown_parent(
                    arena@,
                    keys@,
                    keys@[j],
                ),
            forall|k: int|
                0 <= k < n ==> (#[trigger] children@[k])@ == shown_under(
                    arena@,
                    keys@,
                    Some(k as usize),
                    i as nat,
                ),
            roots@ == shown_under(arena@, keys@, None, i as nat),
        decreases keys.len() - i,
    {
        let key: usize = keys[i];
        let above = climb_to_shown(arena, keys, positions, arena[key].parent);
        let ghost old_children = children@;
        parent.set(key, above);
        match above {
            Some(p) => {
                let mut list: Vec<usize> = Vec::new();
                std::mem::swap(&mut list, &mut children[p]);
                list.push(key);
                children.set(p, list);
            },
            None => {
                roots.push(key);
            },
        }
        proof {
            assert forall|k: int| 0 <= k < n implies (#[trigger] children@[k])@ == shown_under(
                arena@,
                keys@,
                Some(k as usize),
                (i + 1) as nat,
            ) by {
                assert(old_children[k]@ == shown_under(
                    arena@,
                    keys@,
                    Some(k as usize),
                    i as nat,
                ));
            }
        }
        i = i + 1;
    }
    assert(table_view(children@) =~= shown_table(arena@, keys@));
    ShownTree { parent, children, roots }
}

/// Whether `after` is `before` with the shown nodes, their drawing and connections, and the
/// selection brought up to date. With nothing to show the connections stay. The selection stays on the same node, or goes to the nearest shown
/// one above it.
#[verifier::opaque]
pub open spec fn refiltered(before: TreeList, after: TreeList) -> bool {
    let keys = after.keys();
    let last = if before.filtered_nodes@.len() > 0 {
        before.selected_key()
    } else {
        before.last_selected
    };
    &&& after.filtered_nodes@ == before.to_show()
    &&& after.flat() == before.flat()
    &&& flat_visuals(after.flat_nodes@) == redrawn(
        flat_visuals(before.flat_nodes@),
        laid_out_roots(
            shown_table(before.arena@, keys),
            shown_under(before.arena@, keys, None, keys.len()),
            before.arena@.len(),
            0,
        ),
        keys,
        after.filtered_nodes@,
    )
    &&& if keys.len() > 0 {
        &&& after.multiple_roots == (shown_under(before.arena@, keys, None, keys.len()).len() > 1)
        &&& after.is_connected()
    } else {
        &&& after.multiple_roots == before.multiple_roots
        &&& after.visible_parent == before.visible_parent
        &&& after.visible_children == before.visible_children
    }
    &&& after.selected_index == match last {
        Some(k) => nearest_position(before.arena@, keys, Some(k)),
        None => clamped(before.selected_index as int, keys.len() as int),
    }
    &&& after.last_selected == if keys.len() > 0 {
        Some(keys[after.selected_index as int])
    } else {
        last
    }
    &&& after == TreeList {
        flat_nodes: after.flat_nodes,
        filtered_nodes: after.filtered_nodes,
        selected_index: after.selected_index,
        multiple_roots: after.multiple_roots,
        visible_parent: after.visible_parent,
        visible_children: after.visible_children,
        last_selected: after.last_selected,
        ..before
    }
}

impl TreeList {
    /// Brings the drawing and the connections of the shown nodes up to date.
    fn recalculate_visual_structure(
        &mut self,
        keys: &Vec<usize>,
        positions: &Vec<Option<usize>>,
    )
        requires
            old(self).is_consistent(),
            keys@ == old(self).keys(),
            positions@.len() == old(self).arena@.len(),
            forall|i: int| 0 <= i < keys@.len() ==> #[trigger] keys@[i] < old(self).arena@.len(),
            forall|k: usize|
                k < old(self).arena@.len() ==> #[trigger] positions@[k as int] == position_of_key(
                    keys@,
                    k,
                ),
            forall|k: usize|
                k < old(self).arena@.len() ==> (#[trigger] positions@[k as int] is Some)
                    == keys@.contains(k),
            forall|k: usize|
                k < old(self).arena@.len() ==> (#[trigger] positions@[k as int] matches Some(i)
                    ==> i < keys@.len()),
        ensures
            final(self).is_consistent(),
            final(self).keys() == old(self).keys(),
            final(self).flat() == old(self).flat(),
            flat_visuals(final(self).flat_nodes@) == redrawn(
                flat_visuals(old(self).flat_nodes@),
                laid_out_roots(
                    shown_table(old(self).arena@, keys@),
                    shown_under(old(self).arena@, keys@, None, keys@.len()),
                    old(self).arena@.len(),
                    0,
                ),
                keys@,
                old(self).filtered_nodes@,
            ),
            if keys@.len() > 0 {
                &&& final(self).multiple_roots == (shown_under(
                    old(self).arena@,
                    keys@,
                    None,
                    keys@.len(),
                ).len() > 1)
                &&& final(self).is_connected()
            } else {
                *final(self) == *old(self)
            },
            *final(self) == (TreeList {
                flat_nodes: final(self).flat_nodes,
                multiple_roots: final(self).multiple_roots,
                visible_parent: final(self).visible_parent,
                visible_children: final(self).visible_children,
                ..*old(self)
            }),
    {
        if keys.len() == 0 {
            proof {
                let none = laid_out_roots(
                    shown_table(self.arena@, keys@),
                    shown_under(self.arena@, keys@, None, 0),
                    self.arena@.len(),
                    0,
                );
                assert(none.len() == 0);
            }
            return;
        }
        let tree = connect_shown(&self.arena, keys, positions);
        let n: usize = self.arena.len();
        let visits = lay_out(&tree.children, &tree.roots, n);
        let ghost views = visit_views(visits@);
        let ghost start = flat_visuals(self.flat_nodes@);
        let ghost arena = self.arena@;
        let mut i: usize = 0;
        assert(views.take(0) =~= Seq::empty());
        while i < visits.len()
            invariant
                i <= visits.len(),
                n == positions@.len(),
                n == old(self).arena@.len(),
                keys@ == old(self).keys(),
                keys@.len() == old(self).filtered_nodes@.len(),
                forall|k: usize|
                    k < n ==> #[trigger] positions@[k as int] == position_of_key(keys@, k),
                forall|k: usize|
                    k < n ==> (#[trigger] positions@[k as int] matches Some(i) ==> i < keys@.len()),
                forall|i: int|
                    0 <= i < keys@.len() ==> #[trigger] keys@[i] < n,
                views == visit_views(visits@),
                old(self).is_consistent(),
                self.flat() == old(self).flat(),
                self.flat_nodes@.len() == old(self).flat_nodes@.len(),
                start == flat_visuals(old(self).flat_nodes@),
                flat_visuals(self.flat_nodes@) == redrawn(
                    start,
                    views.take(i as int),
                    keys@,
                    old(self).filtered_nodes@,
                ),
                *self == (TreeList { flat_nodes: self.flat_nodes, ..*old(self) }),
            decreases visits.len() - i,
        {
            let node: usize = visits[i].node;
            let ghost before = self.flat_nodes@;
            proof {
                assert(views.take(i as int + 1).drop_last() =~= views.take(i as int));
                assert(views.take(i as int + 1).last() == visits@[i as int]@);
            }
            if node < n {
                if let Some(at) = positions[node] {
                    let f: usize = self.filtered_nodes[at];
                    assert(f < self.flat_nodes@.len());
                    let arena_idx: usize = self.flat_nodes[f].arena_idx;
                    let visual = visits[i].visual.clone();
                    assert(old(self).flat()[f as int] == arena_idx) by {
                        assert(self.flat()[f as int] == arena_idx);
                    }
                    self.flat_nodes.set(f, FlatNode { arena_idx, visual });
                    assert(flat_visuals(self.flat_nodes@) =~= flat_visuals(before).update(
                        f as int,
                        visual@,
                    ));
                    assert(flat_nodes_of(self.flat_nodes@) =~= flat_nodes_of(before));
                }
            } else {
                proof {
                    assert(keys@.len() == keys.len());
                    lemma_last_position(keys@, node, keys@.len());
                    if keys@.contains(node) {
                        let j = keys@.index_of(node);
                        assert(keys@[j] < n);
                    }
                }
            }
            i = i + 1;
        }
        assert(views.take(i as int) =~= views);
        self.multiple_roots = tree.roots.len() > 1;
        self.visible_parent = tree.parent;
        self.visible_children = tree.children;
        proof {
            assert forall|f: int| 0 <= f < self.flat_nodes@.len() implies (
            #[trigger] self.flat_nodes@[f]).arena_idx < self.arena@.len() by {
                assert(self.flat()[f] == old(self).flat()[f]);
                assert(old(self).flat_nodes@[f].arena_idx < self.arena@.len());
            }
        }
    }

    /// Brings the list up to date with its filter mode, query and folded nodes.
    pub fn apply_filter(&mut self)
        requires
            old(self).is_consistent(),
            valid_selection(
                old(self).selected_index as int,
                old(self).filtered_nodes@.len() as int,
            ),
        ensures
            refiltered(*old(self), *final(self)),
            final(self).wf(),
    {
        proof {
            reveal(refiltered);
        }
        if self.filtered_nodes.len() > 0 {
            let f: usize = self.filtered_nodes[self.selected_index];
            assert(self.flat_nodes@[f as int].arena_idx < self.arena@.len());
            assert(self.flat()[f as int] == self.flat_nodes@[f as int].arena_idx);
            let key: usize = self.arena[self.flat_nodes[f].arena_idx].key;
            assert(Some(key) == old(self).selected_key());
            self.last_selected = Some(key);
        }
        let ghost last = self.last_selected;
        let filtered = self.list_shown();
        let keys = self.keys_of(&filtered);
        let positions = positions_of(&keys, self.arena.len());
        self.filtered_nodes = filtered;
        assert(self.is_consistent());
        self.recalculate_visual_structure(&keys, &positions);
        match self.last_selected {
            Some(k) => {
                let found = climb_to_shown(&self.arena, &keys, &positions, Some(k));
                self.selected_index = if keys.len() == 0 {
                    0
                } else {
                    match found {
                        Some(shown) => match positions[shown] {
                            Some(at) => at,
                            None => keys.len() - 1,
                        },
                        None => keys.len() - 1,
                    }
                };
            },
            None => {
                self.selected_index = clamp_selection(self.selected_index, keys.len());
            },
        }
        if keys.len() > 0 {
            self.last_selected = Some(keys[self.selected_index]);
        }
    }
}

} // verus!
