//! Where lists open and what they are searched by: which row is selected first, what a model and a
//! provider are found under, and what switching models on leaves off.

use crate::armin::{cell_char, drawn, pixel_set};
use crate::config_list::room_for;
use crate::config_selector::{first_item, next_item, FlatEntry};
use crate::entries::{content_preview, searchable_text, searched_parts, EntryKind};
use crate::extension_ui::{size_of_value, OverlayNumber, OverlayValue, SizeView};
use crate::keybinding_hints::KeyMatches;
use crate::model_scope::{all_on, appended};
use crate::model_selector::{current_position, is_first_current, renewed};
use crate::models::{same_model, ModelView};
use crate::oauth_selector::{mixed_types, provider_words, OAuthProvider};
use crate::scoped_models_selector::ScopedView;
use crate::text::{decimal, join, occurs_at, trim};
use crate::tree_arena::ArenaNode;
use crate::tree_input::reacted;
use crate::tree_layout::VisualView;
use crate::tree_navigation::is_foldable;
use crate::tree_rows::{call_with_id, prefix_cells, rounded_thousands, widest, RowExtent};
use crate::tree_selector::{
    climb, last_position, nearest_position, on_path, shown_parent, shown_under, TreeList,
};
use crate::trust_selector::{is_first_saved, trust_choices, ProjectTrustStoreEntry};
use crate::user_message_selector::{
    is_first_with_id, is_initial_selection, one_line, UserMessageItem,
};
use vstd::prelude::*;
use vstd::string::*;

verus! {

broadcast use vstd::string::group_string_axioms;

/// The list of resources takes the height of the terminal but for eight rows, and no fewer than five;
/// an unknown terminal is taken to have twenty-four.
pub proof fn lists_leave_room_for_the_rest(height: u16)
    ensures
        room_for(Some(height)) >= 5,
        height >= 13 ==> room_for(Some(height)) + 8 == height,
        height <= 13 ==> room_for(Some(height)) == 5,
        room_for(None) == 16,
{
}

/// A list of resources opens on its first resource, if it has one.
pub proof fn resources_open_on_the_first(lines: Seq<FlatEntry>, i: int)
    requires
        0 <= i < lines.len(),
        lines[i] is Item,
    ensures
        0 <= first_item(lines) <= i,
        lines[first_item(lines)] is Item,
{
    lemma_next(lines, 0, i);
}

proof fn lemma_next(lines: Seq<FlatEntry>, from: int, i: int)
    requires
        0 <= from <= i < lines.len(),
        lines[i] is Item,
    ensures
        from <= next_item(lines, from) <= i,
        lines[next_item(lines, from)] is Item,
    decreases i - from,
{
    if !(lines[from] is Item) {
        lemma_next(lines, from + 1, i);
    }
}

/// The trust chooser opens on what is saved: on trusting the project, on not trusting it, or on trusting
/// the folder above. Without anything saved it opens on trusting.
pub proof fn trust_opens_on_what_is_saved(
    path: Seq<char>,
    parent: Option<Seq<char>>,
    saved: ProjectTrustStoreEntry,
    i: int,
)
    requires
        is_first_saved(trust_choices(path, parent), Some(saved), i),
    ensures
        saved.path@ == path && saved.decision ==> i == 0,
        saved.path@ == path && !saved.decision ==> i == trust_choices(path, parent).len() - 1,
        Some(saved.path@) == parent && parent != Some(path) && saved.decision ==> i == 1,
        is_first_saved(trust_choices(path, parent), None, 0),
{
    let choices = trust_choices(path, parent);
    let last = choices.len() - 1;
    assert(choices[0].trusted && choices[0].saved_path == path);
    assert(!choices[last].trusted && choices[last].saved_path == path);
    if saved.path@ == path && saved.decision {
        assert(crate::trust_selector::is_saved(choices[0], Some(saved)));
    }
    if saved.path@ == path && !saved.decision {
        assert(crate::trust_selector::is_saved(choices[last], Some(saved)));
    }
    if Some(saved.path@) == parent && parent != Some(path) && saved.decision {
        assert(choices[1].saved_path == saved.path@);
        assert(crate::trust_selector::is_saved(choices[1], Some(saved)));
        assert(!crate::trust_selector::is_saved(choices[0], Some(saved)));
    }
}

/// The list of messages opens on the message that is asked for, and otherwise on the last.
pub proof fn messages_open_on_the_one_asked_for(
    messages: Seq<UserMessageItem>,
    k: int,
    id: Option<Seq<char>>,
    selected: int,
)
    requires
        is_initial_selection(messages, id, selected),
        messages.len() > 0,
        0 <= k < messages.len(),
        forall|i: int, j: int|
            0 <= i < j < messages.len() ==> (#[trigger] messages[i]).id@ != (
            #[trigger] messages[j]).id@,
    ensures
        id == Some(messages[k].id@) ==> selected == k,
        id is None ==> selected == messages.len() - 1,
        (forall|j: int| 0 <= j < messages.len() ==> id != Some((#[trigger] messages[j]).id@))
            ==> selected == messages.len() - 1,
{
    if id == Some(messages[k].id@) {
        assert(is_first_with_id(messages, id->0, k));
    }
}

/// A message is shown on one line.
pub proof fn messages_are_shown_on_one_line(text: Seq<char>)
    ensures
        !one_line(text).contains('\n'),
        one_line(text).len() <= text.len(),
{
    let flat = text.map_values(
        |c: char|
            if c == '\n' {
                ' '
            } else {
                c
            },
    );
    crate::text_laws::trimming_takes_the_space_around(flat);
    let (i, j) = choose|i: int, j: int|
        0 <= i <= j <= flat.len() && trim(flat) == #[trigger] flat.subrange(i, j)
            && crate::text::is_blank(flat.take(i)) && crate::text::is_blank(flat.skip(j));
    assert(one_line(text) == trim(flat));
    if one_line(text).contains('\n') {
        let k = choose|k: int| 0 <= k < one_line(text).len() && one_line(text)[k] == '\n';
        assert(flat[i + k] == '\n');
    }
}

/// A list of models opens on the current model, and on the first where it does not hold that one.
pub proof fn models_open_on_the_current_one(models: Seq<ModelView>, current: ModelView, k: int)
    requires
        0 <= k < models.len(),
    ensures
        models[k].id == current.id && models[k].provider == current.provider ==> {
            let at = current_position(models, Some(current));
            &&& 0 <= at <= k
            &&& models[at].id == current.id
            &&& models[at].provider == current.provider
        },
        (forall|j: int|
            0 <= j < models.len() ==> (#[trigger] models[j]).id != current.id || models[j].provider
                != current.provider) ==> current_position(models, Some(current)) == 0,
        current_position(models, None) == 0,
{
    if same_model(Some(current), models[k]) {
        lemma_first_current(models, Some(current), k);
        let at = current_position(models, Some(current));
        assert(is_first_current(models, Some(current), at));
    }
    if forall|j: int|
        0 <= j < models.len() ==> (#[trigger] models[j]).id != current.id || models[j].provider
            != current.provider {
        assert forall|i: int| !is_first_current(models, Some(current), i) by {}
    }
    assert forall|i: int| !is_first_current(models, None, i) by {}
}

proof fn lemma_first_current(models: Seq<ModelView>, current: Option<ModelView>, k: int)
    requires
        0 <= k < models.len(),
        same_model(current, models[k]),
    ensures
        exists|i: int| is_first_current(models, current, i),
    decreases k,
{
    if exists|j: int| 0 <= j < k && same_model(current, models[j]) {
        let j = choose|j: int| 0 <= j < k && same_model(current, models[j]);
        lemma_first_current(models, current, j);
    } else {
        assert(is_first_current(models, current, k));
    }
}

/// Whether a text holds another.
pub open spec fn has_text(text: Seq<char>, part: Seq<char>) -> bool {
    exists|k: int| #[trigger] occurs_at(text, part, k)
}

proof fn lemma_has_part(text: Seq<char>, before: Seq<char>, part: Seq<char>, behind: Seq<char>)
    requires
        text =~= before + part + behind,
    ensures
        has_text(text, part),
{
    let at = before.len() as int;
    assert(text.subrange(at, at + part.len()) =~= part);
    assert(occurs_at(text, part, at));
}

/// A model is found under its provider, its id, both together and its name.
pub proof fn models_are_found_under_all_their_names(m: ModelView)
    ensures
        has_text(crate::model_selector::search_text(m), m.provider + "/"@ + m.id),
        has_text(crate::model_selector::search_text(m), m.provider),
        has_text(crate::model_selector::search_text(m), m.id),
        has_text(crate::model_selector::search_text(m), m.name),
{
    let text = crate::model_selector::search_text(m);
    let full = m.provider + "/"@ + m.id;
    let space = " "@;
    let none = Seq::<char>::empty();
    let tail = space + m.provider + space + m.id + m.name_suffix();
    lemma_has_part(text, none, m.provider, space + full + tail);
    lemma_has_part(text, m.provider + space, full, tail);
    lemma_has_part(
        text,
        m.provider + space + full + space + m.provider + space,
        m.id,
        m.name_suffix(),
    );
    let head = m.provider + space + full + space + m.provider + space + m.id;
    if m.name.len() > 0 {
        lemma_has_part(text, head + space, m.name, none);
    } else {
        lemma_has_part(text, head, m.name, none);
    }
}

/// In the list of models to cycle through a model is found under the same names.
pub proof fn scoped_models_are_found_under_all_their_names(m: ModelView)
    ensures
        has_text(crate::scoped_models_selector::search_text(m), m.provider + "/"@ + m.id),
        has_text(crate::scoped_models_selector::search_text(m), m.provider),
        has_text(crate::scoped_models_selector::search_text(m), m.id),
        has_text(crate::scoped_models_selector::search_text(m), m.name),
{
    let text = crate::scoped_models_selector::search_text(m);
    let full = m.provider + "/"@ + m.id;
    let space = " "@;
    let none = Seq::<char>::empty();
    let tail = space + m.provider + space + m.id + m.name_suffix();
    lemma_has_part(text, none, m.id, space + m.provider + space + full + tail);
    lemma_has_part(text, m.id + space, m.provider, space + full + tail);
    lemma_has_part(text, m.id + space + m.provider + space, full, tail);
    let head = m.id + space + m.provider + space + full + space + m.provider + space + m.id;
    if m.name.len() > 0 {
        lemma_has_part(text, head + space, m.name, none);
    } else {
        lemma_has_part(text, head, m.name, none);
    }
}

proof fn lemma_join_holds(parts: Seq<Seq<char>>, sep: Seq<char>, i: int)
    requires
        0 <= i < parts.len(),
    ensures
        has_text(join(parts, sep), parts[i]),
    decreases parts.len(),
{
    let whole = join(parts, sep);
    if parts.len() == 1 {
        assert(whole.subrange(0, parts[0].len() as int) =~= parts[0]);
        assert(occurs_at(whole, parts[0], 0));
    } else if i == parts.len() - 1 {
        let at = whole.len() - parts[i].len();
        assert(whole.subrange(at, at + parts[i].len()) =~= parts[i]);
        assert(occurs_at(whole, parts[i], at));
    } else {
        let shorter = parts.drop_last();
        lemma_join_holds(shorter, sep, i);
        let before = join(shorter, sep);
        let k = choose|k: int| #[trigger] occurs_at(before, shorter[i], k);
        assert(whole.subrange(k, k + parts[i].len()) =~= before.subrange(k, k + parts[i].len()));
        assert(occurs_at(whole, parts[i], k));
    }
}

proof fn lemma_part_is_searched(kind: EntryKind, label: Option<String>, i: int)
    requires
        0 <= i < searched_parts(kind).len(),
    ensures
        has_text(searchable_text(kind, label), searched_parts(kind)[i]),
{
    match label {
        Some(text) => {
            let parts = seq![text@] + searched_parts(kind);
            assert(parts[i + 1] == searched_parts(kind)[i]);
            lemma_join_holds(parts, seq![' '], i + 1);
        },
        None => {
            lemma_join_holds(searched_parts(kind), seq![' '], i);
        },
    }
}

/// An entry of the tree is found under its role and what it says, the command that it ran, the model or
/// the level that it changed to, its summary, its name and its type.
pub proof fn entries_are_found_under_what_they_hold(kind: EntryKind, label: Option<String>)
    ensures
        kind matches EntryKind::Message(message) ==> {
            let text = searchable_text(kind, label);
            &&& has_text(text, message.role@)
            &&& !(message.content is Missing) && !(message.content is Null) ==> has_text(
                text,
                content_preview(message.content),
            )
            &&& message.role@ == "bashExecution"@ && message.command is Some ==> has_text(
                text,
                message.command->0@,
            )
        },
        kind matches EntryKind::ModelChange { model_id } ==> has_text(
            searchable_text(kind, label),
            model_id@,
        ),
        kind matches EntryKind::ThinkingLevelChange { thinking_level } ==> has_text(
            searchable_text(kind, label),
            thinking_level@,
        ),
        kind matches EntryKind::BranchSummary { summary } ==> has_text(
            searchable_text(kind, label),
            summary@,
        ),
        kind matches EntryKind::Custom { custom_type } ==> has_text(
            searchable_text(kind, label),
            custom_type@,
        ),
        kind matches EntryKind::SessionInfo { name } && name is Some ==> has_text(
            searchable_text(kind, label),
            kind->name->0@,
        ),
        kind matches EntryKind::Label { label: named } && named is Some ==> has_text(
            searchable_text(kind, label),
            kind->label->0@,
        ),
{
    let parts = searched_parts(kind);
    lemma_part_is_searched(kind, label, 0);
    if parts.len() > 1 {
        lemma_part_is_searched(kind, label, 1);
    }
    if parts.len() > 2 {
        lemma_part_is_searched(kind, label, 2);
    }
}

/// A branch can be folded where something is shown below it and it starts at the top or at a fork.
pub proof fn branches_are_folded_where_they_start(
    arena: Seq<ArenaNode>,
    keys: Seq<usize>,
    k: usize,
)
    ensures
        ({
            let below = shown_under(arena, keys, Some(k), keys.len()).len();
            let above = shown_parent(arena, keys, k);
            &&& below == 0 ==> !is_foldable(arena, keys, k)
            &&& below > 0 && above is None ==> is_foldable(arena, keys, k)
            &&& below > 0 && above is Some ==> is_foldable(arena, keys, k) == (shown_under(
                arena,
                keys,
                above,
                keys.len(),
            ).len() > 1)
        }),
{
}

/// The fold key folds the selected branch and no other, and the unfold key unfolds it; the search and the
/// view stay.
pub proof fn fold_keys_fold_the_selected_branch(
    before: TreeList,
    after: TreeList,
    key: KeyMatches,
    data: Seq<char>,
    k: usize,
    i: int,
)
    requires
        reacted(before, after, key, data),
        before.selected_key() == Some(k),
        k < before.folded_nodes@.len(),
        0 <= i < before.folded_nodes@.len(),
    ensures
        !key.has("tui.select.up"@) && !key.has("tui.select.down"@) && key.has("app.tree.foldOrUp"@)
            && before.folds_selection() ==> after.folded_nodes@[i] == (i == k
            || before.folded_nodes@[i]) && after.search_query@ == before.search_query@,
        !key.has("tui.select.up"@) && !key.has("tui.select.down"@) && !key.has(
            "app.tree.foldOrUp"@,
        ) && key.has("app.tree.unfoldOrDown"@) && before.folded_nodes@[k as int]
            ==> after.folded_nodes@[i] == (i != k && before.folded_nodes@[i])
            && after.search_query@ == before.search_query@,
{
}

/// A model that was looked up again takes the place of the old one, and one that was not found stays.
pub proof fn found_models_take_the_place_of_old_ones(
    scoped: Seq<ModelView>,
    found: Seq<Option<ModelView>>,
    i: int,
)
    requires
        0 <= i < scoped.len(),
        found.len() == scoped.len(),
    ensures
        renewed(scoped, found).len() == scoped.len(),
        found[i] matches Some(model) ==> renewed(scoped, found)[i] == model,
        found[i] is None ==> renewed(scoped, found)[i] == scoped[i],
{
}

/// A provider is found under its name and its id.
pub proof fn providers_are_found_under_their_names(provider: OAuthProvider)
    ensures
        has_text(provider_words(provider), provider.name@),
        has_text(provider_words(provider), provider.id@),
{
    let text = provider_words(provider);
    let n = provider.name@.len() as int;
    let at = n + " "@.len();
    assert(text.subrange(0, n) =~= provider.name@);
    assert(occurs_at(text, provider.name@, 0));
    assert(text.subrange(at, at + provider.id@.len()) =~= provider.id@);
    assert(occurs_at(text, provider.id@, at));
}

/// The kinds of login are told apart only where providers of different kinds are listed.
pub proof fn kinds_are_told_apart_where_they_differ(providers: Seq<OAuthProvider>, i: int, j: int)
    requires
        0 <= i < providers.len(),
        0 <= j < providers.len(),
    ensures
        providers[i].auth_type != providers[j].auth_type ==> mixed_types(providers),
        !mixed_types(providers) ==> providers[i].auth_type == providers[j].auth_type,
{
}

/// The number of models that are on is told with the number of all; where none is limited, all are.
pub proof fn counts_tell_how_many_are_on(v: ScopedView)
    ensures
        v.enabled matches Some(ids) ==> (decimal(ids.len()) + "/"@ + decimal(
            v.models.len(),
        )).is_prefix_of(v.count_text()),
        v.enabled is None ==> v.count_text() == "all enabled"@,
{
}

proof fn lemma_appended(ids: Seq<Seq<char>>, more: Seq<Seq<char>>)
    requires
        ids.no_duplicates(),
    ensures
        appended(ids, more).no_duplicates(),
        forall|x: Seq<char>| #[trigger]
            appended(ids, more).contains(x) <==> ids.contains(x) || more.contains(x),
    decreases more.len(),
{
    if more.len() > 0 {
        let shorter = more.drop_last();
        lemma_appended(ids, shorter);
        let before = appended(ids, shorter);
        let after = appended(ids, more);
        assert forall|x: Seq<char>| #[trigger] after.contains(x) <==> ids.contains(x) || more.contains(
            x,
        ) by {
            assert(before.contains(x) <==> ids.contains(x) || shorter.contains(x));
            if more.contains(x) {
                let k = choose|k: int| 0 <= k < more.len() && more[k] == x;
                if k < shorter.len() {
                    assert(shorter[k] == x);
                }
            }
            if shorter.contains(x) {
                let k = choose|k: int| 0 <= k < shorter.len() && shorter[k] == x;
                assert(more[k] == x);
            }
            assert(more[more.len() - 1] == more.last());
            if !before.contains(more.last()) {
                assert(after == before.push(more.last()));
                assert(after[before.len() as int] == more.last());
                if after.contains(x) {
                    let k = choose|k: int| 0 <= k < after.len() && after[k] == x;
                    if k < before.len() {
                        assert(before[k] == x);
                    }
                }
                if before.contains(x) {
                    let k = choose|k: int| 0 <= k < before.len() && before[k] == x;
                    assert(after[k] == x);
                }
            }
        }
    }
}

/// Switching models on leaves a model that is neither on nor meant switched off.
pub proof fn switching_on_leaves_others_off(
    ids: Seq<Seq<char>>,
    all: Seq<Seq<char>>,
    targets: Seq<Seq<char>>,
    other: Seq<char>,
)
    requires
        ids.no_duplicates(),
        all.no_duplicates(),
        forall|i: int| 0 <= i < ids.len() ==> all.contains(#[trigger] ids[i]),
        forall|i: int| 0 <= i < targets.len() ==> all.contains(#[trigger] targets[i]),
        all.contains(other),
        !ids.contains(other),
        !targets.contains(other),
    ensures
        all_on(Some(ids), all, Some(targets)) is Some,
        !all_on(Some(ids), all, Some(targets))->0.contains(other),
{
    lemma_appended(ids, targets);
    let on = appended(ids, targets);
    on.unique_seq_to_set();
    all.unique_seq_to_set();
    assert forall|x: Seq<char>| on.to_set().contains(x) implies all.to_set().remove(other).contains(x) by {
        assert(on.contains(x));
        if ids.contains(x) {
            let k = choose|k: int| 0 <= k < ids.len() && ids[k] == x;
            assert(all.contains(ids[k]));
        } else {
            let k = choose|k: int| 0 <= k < targets.len() && targets[k] == x;
            assert(all.contains(targets[k]));
        }
    }
    assert(on.to_set().subset_of(all.to_set().remove(other)));
    vstd::set_lib::lemma_len_subset(on.to_set(), all.to_set().remove(other));
    assert(all.to_set().contains(other));
    assert(on.len() < all.len());
    assert(!on.contains(other));
}

/// The tree opens on the entry that is asked for, where it is shown.
pub proof fn trees_open_on_the_one_asked_for(
    arena: Seq<ArenaNode>,
    keys: Seq<usize>,
    k: int,
)
    requires
        0 <= k < keys.len() <= usize::MAX,
        forall|i: int, j: int| 0 <= i < j < keys.len() ==> #[trigger] keys[i] != #[trigger] keys[j],
    ensures
        nearest_position(arena, keys, Some(keys[k])) == k,
        nearest_position(arena, keys, None) == keys.len() - 1,
{
    assert(keys.contains(keys[k]));
    lemma_position(keys, k, keys.len());
}

proof fn lemma_position(keys: Seq<usize>, k: int, n: nat)
    requires
        0 <= k < n <= keys.len() <= usize::MAX,
        forall|i: int, j: int| 0 <= i < j < keys.len() ==> #[trigger] keys[i] != #[trigger] keys[j],
    ensures
        last_position(keys, keys[k], n) == Some(k as usize),
    decreases n,
{
    if n - 1 > k {
        assert(keys[k] != keys[n - 1]);
        lemma_position(keys, k, (n - 1) as nat);
    }
}

/// An entry that is not shown stands for the nearest shown one above it, and an entry is on the path in
/// use where it is the current one or above it.
pub proof fn hidden_entries_stand_for_those_above(
    arena: Seq<ArenaNode>,
    keys: Seq<usize>,
    at: usize,
    k: usize,
    steps: nat,
)
    requires
        at < arena.len(),
        steps > 0,
    ensures
        keys.contains(at) ==> climb(arena, keys, Some(at), steps) == Some(at),
        !keys.contains(at) ==> climb(arena, keys, Some(at), steps) == climb(
            arena,
            keys,
            arena[at as int].parent,
            (steps - 1) as nat,
        ),
        on_path(arena, Some(at), at, steps),
        at != k ==> on_path(arena, Some(at), k, steps) == on_path(
            arena,
            arena[at as int].parent,
            k,
            (steps - 1) as nat,
        ),
        !on_path(arena, None, k, steps),
{
}

/// The result of a tool is shown with the last call of its id.
pub proof fn results_belong_to_the_last_call(
    calls: Seq<(Seq<char>, Seq<char>, Seq<char>)>,
    id: Seq<char>,
    name: Seq<char>,
    arguments: Seq<char>,
    other: Seq<char>,
)
    requires
        other != id,
    ensures
        call_with_id(calls.push((id, name, arguments)), id) == Some((name, arguments)),
        call_with_id(calls.push((id, name, arguments)), other) == call_with_id(calls, other),
        call_with_id(Seq::empty(), id) is None,
{
    let longer = calls.push((id, name, arguments));
    assert(longer.drop_last() =~= calls);
}

/// The lines before a row of the tree take three columns for each level.
pub proof fn levels_are_three_columns_wide(
    visual: VisualView,
    shown_at: nat,
    levels: nat,
    folded: bool,
    foldable: bool,
)
    ensures
        prefix_cells(visual, shown_at, levels, folded, foldable).len() == 3 * levels,
    decreases levels,
{
    if levels > 0 {
        levels_are_three_columns_wide(visual, shown_at, (levels - 1) as nat, folded, foldable);
        crate::display_laws::levels_draw_lines_and_connectors(
            visual,
            shown_at,
            levels - 1,
            folded,
            foldable,
        );
    }
}

/// The widest row is one of the rows, and no row is wider.
pub proof fn no_row_is_wider_than_the_widest(rows: Seq<RowExtent>, i: int)
    requires
        0 <= i < rows.len(),
    ensures
        rows[i].body_width <= widest(rows),
        exists|k: int| 0 <= k < rows.len() && (#[trigger] rows[k]).body_width == widest(rows)
            || widest(rows) == 0,
    decreases rows.len(),
{
    let shorter = rows.drop_last();
    assert(rows[rows.len() - 1] == rows.last());
    if shorter.len() > 0 {
        let j = if i < shorter.len() {
            i
        } else {
            0
        };
        no_row_is_wider_than_the_widest(shorter, j);
        assert(shorter[j] == rows[j]);
        if widest(shorter) > 0 {
            let k = choose|k: int|
                0 <= k < shorter.len() && (#[trigger] shorter[k]).body_width == widest(shorter)
                    || widest(shorter) == 0;
            assert(rows[k] == shorter[k]);
        }
    }
}

/// Thousands of tokens are told to the nearest.
pub proof fn thousands_are_told_to_the_nearest(tokens: nat)
    ensures
        1000 * rounded_thousands(tokens) <= tokens + 500,
        tokens < 1000 * rounded_thousands(tokens) + 500,
{
}

/// A number is a size in cells; a text is one in percent where it ends with the sign, without the space
/// around the number.
pub proof fn sizes_are_cells_or_percent(n: OverlayNumber, text: String, percent: Seq<char>)
    requires
        text@ == percent.push('%'),
        percent.len() > 0,
        !crate::text::is_whitespace(percent[0]),
        !crate::text::is_whitespace(percent.last()),
    ensures
        size_of_value(Some(OverlayValue::Number(n))) == Some(SizeView::Abs(n.whole)),
        size_of_value(Some(OverlayValue::Text(text))) == Some(SizeView::Percent(percent)),
        size_of_value(None) is None,
{
    assert(text@[0] == percent[0]);
    assert(trim(text@) == text@);
    assert(text@.drop_last() =~= percent);
    assert(trim(percent) == percent);
}

/// A cell of the picture is two pixels high: its character fills the halves whose pixels are set.
pub proof fn cells_show_two_pixels(x: int, r: int)
    ensures
        (cell_char(x, r) == '█' || cell_char(x, r) == '▀') == pixel_set(x, 2 * r),
        (cell_char(x, r) == '█' || cell_char(x, r) == '▄') == pixel_set(x, 2 * r + 1),
        cell_char(x, r) == ' ' <==> !pixel_set(x, 2 * r) && !pixel_set(x, 2 * r + 1),
{
}

/// A draw is below its limit and moves the seed on.
pub proof fn draws_are_below_their_limit(seed: u64, n: nat)
    requires
        n > 0,
    ensures
        drawn(seed, n).1 < n,
        drawn(seed, n).0 as nat % n == drawn(seed, n).1,
{
}

} // verus!
