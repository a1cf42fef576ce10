//! What the keys of the session tree do, and which entries its views show.

use crate::entries::{copy_text, searchable_text, Block, Content, EntryKind};
use crate::keybinding_hints::KeyMatches;
use crate::text::{is_blank, lemma_find_from, lowercase, occurs_at};
use crate::tree_arena::ArenaNode;
use crate::tree_input::{none_folded, reacted, TreeRequest};
use crate::tree_laws::list_shows_what_matches;
use crate::tree_selector::{folded_away, refiltered, search_tokens, FilterMode, TreeList};
use vstd::prelude::*;

verus! {

/// The node at an index of the flat list.
pub open spec fn node_at(list: TreeList, f: usize) -> ArenaNode {
    list.arena@[list.flat()[f as int] as int]
}

/// Whether the entry is a message with the role.
pub open spec fn is_message_of(kind: EntryKind, role: Seq<char>) -> bool {
    kind matches EntryKind::Message(message) && message.role@ == role
}

/// Every view shows, of what the view of all entries shows, just what it is named after: the default
/// one leaves out labels, custom entries, changes of the model or the thinking level, and session
/// information; the one without tools leaves out the results of tools as well; the others show the
/// user's messages, or the labeled entries.
pub proof fn views_show_what_they_are_named_after(
    list: TreeList,
    all: TreeList,
    mode: FilterMode,
    shown: TreeList,
    f: usize,
)
    requires
        refiltered(TreeList { filter_mode: FilterMode::All, ..list }, all),
        refiltered(TreeList { filter_mode: mode, ..list }, shown),
        f < list.flat_nodes@.len(),
    ensures
        ({
            let node = node_at(list, f);
            let kind = node.entry.kind;
            let bookkeeping = kind is Label || kind is Custom || kind is ModelChange
                || kind is ThinkingLevelChange || kind is SessionInfo;
            shown.filtered_nodes@.contains(f) <==> all.filtered_nodes@.contains(f) && match mode {
                FilterMode::Default => !bookkeeping,
                FilterMode::NoTools => !bookkeeping && !is_message_of(kind, "toolResult"@),
                FilterMode::UserOnly => is_message_of(kind, "user"@),
                FilterMode::LabeledOnly => node.label is Some,
                FilterMode::All => true,
            }
        }),
{
    reveal(refiltered);
    let in_all = TreeList { filter_mode: FilterMode::All, ..list };
    let in_mode = TreeList { filter_mode: mode, ..list };
    list_shows_what_matches(in_all, f);
    list_shows_what_matches(in_mode, f);
    assert(in_all.flat() == list.flat() && in_mode.flat() == list.flat());
    assert(in_all.away() == in_mode.away());
    assert(list.flat().len() == list.flat_nodes@.len());
}

/// Whether the content holds text other than spaces.
pub open spec fn says_something(content: Content) -> bool {
    match content {
        Content::Text(text) => !is_blank(text@),
        Content::Blocks(blocks) => exists|i: int|
            0 <= i < blocks@.len() && (#[trigger] blocks@[i] matches Block::Text(text) && !is_blank(
                text@,
            )),
        _ => false,
    }
}

proof fn lemma_nothing_folded(arena: Seq<ArenaNode>, flat: Seq<usize>, folded: Seq<bool>, n: nat)
    requires
        n <= flat.len(),
        none_folded(folded),
        forall|f: int|
            0 <= f < flat.len() ==> ((#[trigger] arena[flat[f] as int]).parent matches Some(p) ==> p
                < folded.len()),
    ensures
        folded_away(arena, flat, folded, n) == Set::<usize>::empty(),
    decreases n,
{
    if n > 0 {
        lemma_nothing_folded(arena, flat, folded, (n - 1) as nat);
        if let Some(p) = arena[flat[n - 1] as int].parent {
            assert(!folded[p as int]);
        }
    }
}

/// With nothing folded and nothing searched for, the view of all entries shows each of them, but for
/// assistant messages that say nothing, unless they ended badly or are the entry in use.
pub proof fn only_silent_messages_are_left_out(list: TreeList, shown: TreeList, f: usize)
    requires
        list.wf(),
        list.filter_mode == FilterMode::All,
        search_tokens(list.search_query@).len() == 0,
        none_folded(list.folded_nodes@),
        refiltered(list, shown),
        f < list.flat_nodes@.len(),
    ensures
        ({
            let node = node_at(list, f);
            shown.filtered_nodes@.contains(f) <==> list.current_leaf == Some(node.key)
                || match node.entry.kind {
                EntryKind::Message(message) => message.role@ != "assistant"@ || says_something(
                    message.content,
                ) || (message.stop_reason matches Some(reason) && reason@.len() > 0 && reason@
                    != "stop"@ && reason@ != "toolUse"@),
                _ => true,
            }
        }),
{
    reveal(refiltered);
    list_shows_what_matches(list, f);
    assert(list.flat().len() == list.flat_nodes@.len());
    assert forall|g: int| 0 <= g < list.flat().len() implies ((
    #[trigger] list.arena@[list.flat()[g] as int]).parent matches Some(p) ==> p
        < list.folded_nodes@.len()) by {
        assert(list.flat_nodes@[g].arena_idx < list.arena@.len());
    }
    lemma_nothing_folded(list.arena@, list.flat(), list.folded_nodes@, list.flat().len());
    if let EntryKind::Message(message) = node_at(list, f).entry.kind {
        if let Content::Blocks(blocks) = message.content {
            assert forall|i: int| 0 <= i < blocks@.len() implies crate::entries::is_written(
                #[trigger] blocks@[i],
            ) == (blocks@[i] matches Block::Text(text) && !is_blank(text@)) by {}
            if crate::entries::has_text(message.content) {
                let i = choose|i: int|
                    0 <= i < blocks@.len() && crate::entries::is_written(#[trigger] blocks@[i]);
                assert(blocks@[i] is Text);
            }
            if says_something(message.content) {
                let i = choose|i: int|
                    0 <= i < blocks@.len() && (#[trigger] blocks@[i] matches Block::Text(text)
                        && !is_blank(text@));
                assert(crate::entries::is_written(blocks@[i]));
            }
        }
    }
}

proof fn lemma_folded_away_grows(
    arena: Seq<ArenaNode>,
    flat: Seq<usize>,
    folded: Seq<bool>,
    n: nat,
    m: nat,
)
    requires
        n <= m,
    ensures
        folded_away(arena, flat, folded, n).subset_of(folded_away(arena, flat, folded, m)),
    decreases m,
{
    if n < m {
        lemma_folded_away_grows(arena, flat, folded, n, (m - 1) as nat);
    }
}

/// Nothing right below a folded node is shown.
pub proof fn folded_nodes_hide_what_is_below(list: TreeList, shown: TreeList, f: usize)
    requires
        refiltered(list, shown),
        f < list.flat_nodes@.len(),
        node_at(list, f).parent matches Some(p) && list.folded_nodes@[p as int],
    ensures
        !shown.filtered_nodes@.contains(f),
{
    reveal(refiltered);
    list_shows_what_matches(list, f);
    assert(list.flat().len() == list.flat_nodes@.len());
    let n = (f + 1) as nat;
    assert(folded_away(list.arena@, list.flat(), list.folded_nodes@, n).contains(
        node_at(list, f).key,
    ));
    lemma_folded_away_grows(
        list.arena@,
        list.flat(),
        list.folded_nodes@,
        n,
        list.flat().len(),
    );
}

/// Whether the word stands somewhere in the text.
pub open spec fn holds_word(text: Seq<char>, word: Seq<char>) -> bool {
    exists|k: int| 0 <= k <= text.len() - word.len() && #[trigger] occurs_at(text, word, k)
}

/// A search shows, of what shows without one, the entries whose text holds every word of the query, in
/// any case of letters.
pub proof fn searches_show_what_holds_every_word(
    list: TreeList,
    unsearched: TreeList,
    without: TreeList,
    shown: TreeList,
    f: usize,
)
    requires
        refiltered(list, shown),
        unsearched == (TreeList { search_query: unsearched.search_query, ..list }),
        search_tokens(unsearched.search_query@).len() == 0,
        refiltered(unsearched, without),
        f < list.flat_nodes@.len(),
    ensures
        ({
            let node = node_at(list, f);
            let text = lowercase(searchable_text(node.entry.kind, node.label));
            let words = search_tokens(list.search_query@);
            shown.filtered_nodes@.contains(f) <==> without.filtered_nodes@.contains(f) && forall|
                w: int,
            |
                0 <= w < words.len() ==> holds_word(text, #[trigger] words[w])
        }),
{
    reveal(refiltered);
    list_shows_what_matches(list, f);
    list_shows_what_matches(unsearched, f);
    assert(unsearched.flat() == list.flat());
    assert(unsearched.away() == list.away());
    assert(list.flat().len() == list.flat_nodes@.len());
    let node = node_at(list, f);
    let text = lowercase(searchable_text(node.entry.kind, node.label));
    let words = search_tokens(list.search_query@);
    assert forall|w: int| 0 <= w < words.len() implies (crate::text::find(
        text,
        #[trigger] words[w],
    ) is Some) == holds_word(text, words[w]) by {
        lemma_find_from(text, words[w], 0);
    }
}

/// The label of an entry is searched along with the rest of it.
pub proof fn labels_are_searched(kind: EntryKind, label: String)
    ensures
        label@.is_prefix_of(searchable_text(kind, Some(label))),
{
    let parts = seq![label@] + crate::entries::searched_parts(kind);
    assert(parts[0] == label@);
    lemma_join_starts(parts, seq![' ']);
}

proof fn lemma_join_starts(parts: Seq<Seq<char>>, sep: Seq<char>)
    requires
        parts.len() > 0,
    ensures
        parts[0].is_prefix_of(crate::text::join(parts, sep)),
    decreases parts.len(),
{
    if parts.len() > 1 {
        lemma_join_starts(parts.drop_last(), sep);
        assert(parts.drop_last()[0] == parts[0]);
    }
}

/// Whether the key press matches the keybinding and no other.
pub open spec fn is_only(key: KeyMatches, id: Seq<char>) -> bool {
    forall|other: Seq<char>| #[trigger] key.has(other) <==> other == id
}

/// How the keybindings of the tree differ from each other.
proof fn lemma_tree_keys_differ()
    ensures
        "tui.select.up"@.len() == 13,
        "tui.select.up"@[0] == 't',
        "tui.select.down"@.len() == 15,
        "tui.select.down"@[0] == 't',
        "app.tree.foldOrUp"@.len() == 17,
        "app.tree.foldOrUp"@[0] == 'a',
        "app.tree.foldOrUp"@[16] == 'p',
        "app.tree.unfoldOrDown"@.len() == 21,
        "app.tree.unfoldOrDown"@[0] == 'a',
        "app.tree.unfoldOrDown"@[16] == 'r',
        "tui.editor.cursorLeft"@.len() == 21,
        "tui.editor.cursorLeft"@[0] == 't',
        "tui.editor.cursorLeft"@[16] == 'r',
        "tui.select.pageUp"@.len() == 17,
        "tui.select.pageUp"@[0] == 't',
        "tui.select.pageUp"@[16] == 'p',
        "tui.editor.cursorRight"@.len() == 22,
        "tui.editor.cursorRight"@[0] == 't',
        "tui.editor.cursorRight"@[16] == 'r',
        "tui.select.pageDown"@.len() == 19,
        "tui.select.pageDown"@[0] == 't',
        "tui.select.pageDown"@[16] == 'o',
        "tui.select.confirm"@.len() == 18,
        "tui.select.confirm"@[0] == 't',
        "tui.select.confirm"@[16] == 'r',
        "app.message.copy"@.len() == 16,
        "app.message.copy"@[0] == 'a',
        "tui.select.cancel"@.len() == 17,
        "tui.select.cancel"@[0] == 't',
        "tui.select.cancel"@[16] == 'l',
        "app.tree.filter.default"@.len() == 23,
        "app.tree.filter.default"@[0] == 'a',
        "app.tree.filter.default"@[16] == 'd',
        "app.tree.filter.noTools"@.len() == 23,
        "app.tree.filter.noTools"@[0] == 'a',
        "app.tree.filter.noTools"@[16] == 'n',
        "app.tree.filter.userOnly"@.len() == 24,
        "app.tree.filter.userOnly"@[0] == 'a',
        "app.tree.filter.userOnly"@[16] == 'u',
        "app.tree.filter.labeledOnly"@.len() == 27,
        "app.tree.filter.labeledOnly"@[0] == 'a',
        "app.tree.filter.labeledOnly"@[16] == 'l',
        "app.tree.filter.all"@.len() == 19,
        "app.tree.filter.all"@[0] == 'a',
        "app.tree.filter.all"@[16] == 'a',
        "app.tree.filter.cycleBackward"@.len() == 29,
        "app.tree.filter.cycleBackward"@[0] == 'a',
        "app.tree.filter.cycleBackward"@[16] == 'c',
        "app.tree.filter.cycleForward"@.len() == 28,
        "app.tree.filter.cycleForward"@[0] == 'a',
        "app.tree.filter.cycleForward"@[16] == 'c',
        "tui.editor.deleteCharBackward"@.len() == 29,
        "tui.editor.deleteCharBackward"@[0] == 't',
        "tui.editor.deleteCharBackward"@[16] == 'e',
        "app.tree.editLabel"@.len() == 18,
        "app.tree.editLabel"@[0] == 'a',
        "app.tree.editLabel"@[16] == 'e',
        "app.tree.toggleLabelTimestamp"@.len() == 29,
        "app.tree.toggleLabelTimestamp"@[0] == 'a',
        "app.tree.toggleLabelTimestamp"@[16] == 'a',
{
    reveal_strlit("tui.select.up");
    reveal_strlit("tui.select.down");
    reveal_strlit("app.tree.foldOrUp");
    reveal_strlit("app.tree.unfoldOrDown");
    reveal_strlit("tui.editor.cursorLeft");
    reveal_strlit("tui.select.pageUp");
    reveal_strlit("tui.editor.cursorRight");
    reveal_strlit("tui.select.pageDown");
    reveal_strlit("tui.select.confirm");
    reveal_strlit("app.message.copy");
    reveal_strlit("tui.select.cancel");
    reveal_strlit("app.tree.filter.default");
    reveal_strlit("app.tree.filter.noTools");
    reveal_strlit("app.tree.filter.userOnly");
    reveal_strlit("app.tree.filter.labeledOnly");
    reveal_strlit("app.tree.filter.all");
    reveal_strlit("app.tree.filter.cycleBackward");
    reveal_strlit("app.tree.filter.cycleForward");
    reveal_strlit("tui.editor.deleteCharBackward");
    reveal_strlit("app.tree.editLabel");
    reveal_strlit("app.tree.toggleLabelTimestamp");
}

/// In the tree the arrows select the neighbouring entries, around the ends, and the page keys move by
/// as many entries as are in view, up to the ends. The view stays as it is.
pub proof fn tree_arrows_select_neighbours(
    before: TreeList,
    after: TreeList,
    key: KeyMatches,
    data: Seq<char>,
)
    requires
        before.selected_index < before.filtered_nodes@.len(),
        reacted(before, after, key, data),
        is_only(key, "tui.select.up"@) || is_only(key, "tui.select.down"@) || is_only(
            key,
            "tui.select.pageUp"@,
        ) || is_only(key, "tui.select.pageDown"@) || is_only(key, "tui.editor.cursorLeft"@) || is_only(
            key,
            "tui.editor.cursorRight"@,
        ),
    ensures
        after == (TreeList { selected_index: after.selected_index, ..before }),
        ({
            let from = before.selected_index as int;
            let to = after.selected_index as int;
            let len = before.filtered_nodes@.len() as int;
            let page = before.max_visible_lines as int;
            if is_only(key, "tui.select.up"@) {
                to == if from > 0 {
                    from - 1
                } else {
                    len - 1
                }
            } else if is_only(key, "tui.select.down"@) {
                to == if from + 1 < len {
                    from + 1
                } else {
                    0
                }
            } else if is_only(key, "tui.select.pageUp"@) || is_only(key, "tui.editor.cursorLeft"@) {
                to == if from >= page {
                    from - page
                } else {
                    0
                }
            } else {
                to == if from + page < len {
                    from + page
                } else {
                    len - 1
                }
            }
        }),
{
    lemma_tree_keys_differ();
}

/// Each key of a view shows that view, and a second press goes back to the default one; the cycle keys
/// go through all views. Changing the view unfolds everything and keeps the search.
pub proof fn view_keys_show_their_views(
    before: TreeList,
    after: TreeList,
    key: KeyMatches,
    data: Seq<char>,
    mode: FilterMode,
)
    requires
        reacted(before, after, key, data),
        is_only(
            key,
            match mode {
                FilterMode::Default => "app.tree.filter.default"@,
                FilterMode::NoTools => "app.tree.filter.noTools"@,
                FilterMode::UserOnly => "app.tree.filter.userOnly"@,
                FilterMode::LabeledOnly => "app.tree.filter.labeledOnly"@,
                FilterMode::All => "app.tree.filter.all"@,
            },
        ),
    ensures
        before.filter_mode != mode ==> after.filter_mode == mode,
        before.filter_mode == mode ==> after.filter_mode == FilterMode::Default,
        none_folded(after.folded_nodes@),
        after.search_query@ == before.search_query@,
        refiltered(
            TreeList {
                search_query: after.search_query,
                folded_nodes: after.folded_nodes,
                filter_mode: after.filter_mode,
                ..before
            },
            after,
        ),
{
    lemma_tree_keys_differ();
    reveal(refiltered);
}

/// Cycling forward goes from the default view on to the one without tools, the user's messages, the
/// labeled entries and all of them; cycling backward goes the other way.
pub proof fn cycle_keys_go_through_the_views(
    before: TreeList,
    after: TreeList,
    key: KeyMatches,
    data: Seq<char>,
)
    requires
        reacted(before, after, key, data),
        is_only(key, "app.tree.filter.cycleForward"@) || is_only(
            key,
            "app.tree.filter.cycleBackward"@,
        ),
    ensures
        ({
            let (from, to) = if is_only(key, "app.tree.filter.cycleForward"@) {
                (before.filter_mode, after.filter_mode)
            } else {
                (after.filter_mode, before.filter_mode)
            };
            &&& from == FilterMode::Default <==> to == FilterMode::NoTools
            &&& from == FilterMode::NoTools <==> to == FilterMode::UserOnly
            &&& from == FilterMode::UserOnly <==> to == FilterMode::LabeledOnly
            &&& from == FilterMode::LabeledOnly <==> to == FilterMode::All
        }),
{
    lemma_tree_keys_differ();
    reveal(refiltered);
}

/// Typing adds to the search, deleting takes its last character away, and cancelling clears it; each
/// brings the list up to date with everything unfolded. Without a search, cancelling changes nothing.
pub proof fn typing_changes_the_search(
    before: TreeList,
    after: TreeList,
    key: KeyMatches,
    data: Seq<char>,
)
    requires
        reacted(before, after, key, data),
        (forall|id: Seq<char>| !(#[trigger] key.has(id))) || is_only(
            key,
            "tui.editor.deleteCharBackward"@,
        ) || is_only(key, "tui.select.cancel"@),
        data.len() > 0,
        forall|i: int| 0 <= i < data.len() ==> ' ' <= #[trigger] data[i] <= '~',
    ensures
        ({
            let query = before.search_query@;
            let changed = if is_only(key, "tui.select.cancel"@) {
                Seq::empty()
            } else if is_only(key, "tui.editor.deleteCharBackward"@) {
                query.take(
                    if query.len() > 0 {
                        query.len() - 1
                    } else {
                        0
                    },
                )
            } else {
                query + data
            };
            &&& after.search_query@ == changed
            &&& after.filter_mode == before.filter_mode
            &&& changed != query ==> none_folded(after.folded_nodes@)
            &&& changed == query && !(forall|id: Seq<char>| !(#[trigger] key.has(id))) ==> after
                == before
        }),
{
    lemma_tree_keys_differ();
    reveal(refiltered);
    let query = before.search_query@;
    if query.len() > 0 {
        assert(query.take(query.len() - 1) =~= query.drop_last());
    } else {
        assert(query.take(0) =~= query);
        assert(query =~= Seq::empty());
    }
}

/// Confirming asks for the entry at the selection, copying for its text, and the label key for its
/// label; cancelling leaves only where there is no search. No other key asks for anything.
pub proof fn tree_keys_ask_for_the_selection(
    before: TreeList,
    key: KeyMatches,
    data: Seq<char>,
    request: TreeRequest,
)
    requires
        before.asks(before.action_for(key, data), request),
        before.selected_node() is Some,
    ensures
        is_only(key, "tui.select.confirm"@) ==> request == TreeRequest::Select(
            before.selected_node()->0.entry.id,
        ),
        is_only(key, "app.tree.editLabel"@) ==> request == (TreeRequest::EditLabel {
            id: before.selected_node()->0.entry.id,
            label: before.selected_node()->0.label,
        }),
        is_only(key, "app.message.copy"@) ==> request is Copy,
        request matches TreeRequest::Copy(Some(text)) ==> copy_text(
            before.selected_node()->0.entry.kind,
        ) == Some(text@),
        is_only(key, "tui.select.cancel"@) ==> (request is Cancel) == (before.search_query@.len()
            == 0),
        request is Select ==> key.has("tui.select.confirm"@),
        request is Copy ==> key.has("app.message.copy"@),
        request is Cancel ==> key.has("tui.select.cancel"@) && before.search_query@.len() == 0,
        request is EditLabel ==> key.has("app.tree.editLabel"@),
{
    lemma_tree_keys_differ();
}

} // verus!
