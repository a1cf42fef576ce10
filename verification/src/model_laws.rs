//! What the keys of the model lists do: which models they switch, where they move one, and in which
//! order models are listed.

use crate::keybinding_hints::KeyMatches;
use crate::model_scope::{
    first_index, lemma_first_index_found, listed, switching_off_takes_effect,
    switching_on_takes_effect, toggling_changes_one_model, without,
};
use crate::model_selector::{by_provider, provider_keys, ProviderKey};
use crate::models::ModelView;
use crate::order::{
    comes_before, is_stable_order, lemma_covers, lemma_stable_order_exists, stable_order,
};
use crate::scoped_models_selector::{
    full_ids, ids_of_provider, model_with_id, models_with_ids, ScopedModelsAction, ScopedView,
};
use crate::text::text_at_most;
use vstd::prelude::*;

verus! {

/// A text comes before another if it has the smaller character where they first differ, or if the
/// other goes on where it ends.
pub proof fn texts_are_ordered_by_their_first_difference(a: Seq<char>, b: Seq<char>, k: int)
    requires
        0 <= k <= a.len(),
        k < b.len(),
        a.take(k) == b.take(k),
        k < a.len() ==> (a[k] as u32) < (b[k] as u32),
    ensures
        text_at_most(a, b),
        !text_at_most(b, a),
    decreases k,
{
    if k > 0 {
        assert(a.take(k)[0] == a[0] && b.take(k)[0] == b[0]);
        assert(a.skip(1).take(k - 1) =~= a.take(k).skip(1));
        assert(b.skip(1).take(k - 1) =~= b.take(k).skip(1));
        texts_are_ordered_by_their_first_difference(a.skip(1), b.skip(1), k - 1);
    }
}

/// Models are listed each once, the current one first and the others by provider.
pub proof fn models_are_listed_by_provider(
    models: Seq<ModelView>,
    current: Option<ModelView>,
    p: int,
    q: int,
)
    requires
        models.len() <= usize::MAX,
        0 <= p < q < models.len(),
    ensures
        by_provider(models, current).len() == models.len(),
        by_provider(models, current).to_multiset() =~= models.to_multiset(),
        ({
            let first = by_provider(models, current)[p];
            let second = by_provider(models, current)[q];
            let is_current = |m: ModelView|
                current is Some && current->0.id == m.id && current->0.provider == m.provider;
            &&& is_current(second) ==> is_current(first)
            &&& is_current(first) == is_current(second) ==> text_at_most(
                first.provider,
                second.provider,
            )
        }),
{
    let keys = provider_keys(models, current);
    lemma_stable_order_exists::<ProviderKey>(keys);
    let order = stable_order::<ProviderKey>(keys);
    assert(is_stable_order::<ProviderKey>(order, keys));
    assert(comes_before::<ProviderKey>(keys, order[p] as int, order[q] as int));
    assert(keys[order[p] as int] == (
        crate::models::same_model(current, models[order[p] as int]),
        models[order[p] as int].provider,
    ));
    assert(keys[order[q] as int] == (
        crate::models::same_model(current, models[order[q] as int]),
        models[order[q] as int].provider,
    ));
    lemma_reordered(models, order);
}

proof fn lemma_reordered(models: Seq<ModelView>, order: Seq<usize>)
    requires
        models.len() <= usize::MAX,
        order.len() == models.len(),
        order.no_duplicates(),
        forall|p: int| 0 <= p < order.len() ==> 0 <= #[trigger] order[p] < models.len(),
    ensures
        order.map_values(|i: usize| models[i as int]).to_multiset() =~= models.to_multiset(),
    decreases models.len(),
{
    let list = order.map_values(|i: usize| models[i as int]);
    if models.len() == 0 {
        assert(list =~= models);
    } else {
        let last = (models.len() - 1) as usize;
        lemma_covers(order, models.len());
        assert(order.contains(last));
        let k = order.index_of(last);
        let rest = order.remove(k);
        let fewer = models.drop_last();
        assert forall|p: int| 0 <= p < rest.len() implies 0 <= #[trigger] rest[p] < fewer.len() by {
            let from = if p < k {
                p
            } else {
                p + 1
            };
            assert(rest[p] == order[from]);
            assert(order[from] != order[k]);
        }
        assert(rest.no_duplicates()) by {
            assert forall|x: int, y: int| 0 <= x < rest.len() && 0 <= y < rest.len() && x
                != y implies rest[x] != rest[y] by {
                let a = if x < k {
                    x
                } else {
                    x + 1
                };
                let b = if y < k {
                    y
                } else {
                    y + 1
                };
                assert(rest[x] == order[a] && rest[y] == order[b]);
            }
        }
        lemma_reordered(fewer, rest);
        let shorter = rest.map_values(|i: usize| fewer[i as int]);
        assert(shorter =~= list.remove(k));
        list.to_multiset_ensures();
        models.to_multiset_ensures();
        assert(models.remove(models.len() - 1) =~= fewer);
        assert(list[k] == models[models.len() - 1]);
        assert(list.remove(k).to_multiset() =~= list.to_multiset().remove(list[k]));
        assert(fewer.to_multiset() =~= models.to_multiset().remove(models[models.len() - 1]));
        assert(list.to_multiset() =~= list.to_multiset().remove(list[k]).insert(list[k])) by {
            assert(list.contains(list[k]));
        }
        assert(models.to_multiset() =~= models.to_multiset().remove(
            models[models.len() - 1],
        ).insert(models[models.len() - 1])) by {
            assert(models.contains(models[models.len() - 1]));
        }
    }
}

/// In the list of models to cycle through, the arrows select the neighbours, around the ends, and
/// change nothing else.
pub proof fn arrows_select_the_next_scoped_model(v: ScopedView, keys: KeyMatches)
    requires
        0 <= v.selected < v.filtered.len(),
        keys.has("tui.select.up"@) || keys.has("tui.select.down"@),
    ensures
        ({
            let (after, action) = v.pressed(keys);
            let len = v.filtered.len() as int;
            &&& action == ScopedModelsAction::Nothing
            &&& after == (ScopedView { selected: after.selected, ..v })
            &&& after.selected == if keys.has("tui.select.up"@) {
                if v.selected > 0 {
                    v.selected - 1
                } else {
                    len - 1
                }
            } else if v.selected + 1 < len {
                v.selected + 1
            } else {
                0
            }
        }),
{
}

/// Whether the model is cycled through: with no list every model is, otherwise those in the list.
pub open spec fn is_cycled(enabled: Option<Seq<Seq<char>>>, id: Seq<char>) -> bool {
    match enabled {
        Some(ids) => ids.contains(id),
        None => true,
    }
}

/// Whether the press is none of the keys that move the selection or a model.
pub open spec fn moves_nothing(keys: KeyMatches) -> bool {
    &&& !keys.has("tui.select.up"@)
    &&& !keys.has("tui.select.down"@)
    &&& !keys.has("app.models.reorderUp"@)
    &&& !keys.has("app.models.reorderDown"@)
}

/// Confirming switches the selected model alone; where every model was on, it becomes the only one.
pub proof fn confirming_switches_the_selected_model(v: ScopedView, keys: KeyMatches, id: Seq<char>)
    requires
        0 <= v.selected < v.filtered.len(),
        moves_nothing(keys),
        keys.has("tui.select.confirm"@),
        v.enabled matches Some(ids) ==> ids.no_duplicates(),
    ensures
        ({
            let (after, action) = v.pressed(keys);
            let chosen = v.models[v.filtered[v.selected] as int].full_id();
            &&& action == ScopedModelsAction::Change
            &&& after.dirty
            &&& after.models == v.models
            &&& after.query == v.query
            &&& v.enabled is Some ==> is_cycled(after.enabled, id) == if id == chosen {
                !is_cycled(v.enabled, id)
            } else {
                is_cycled(v.enabled, id)
            }
            &&& v.enabled is None ==> is_cycled(after.enabled, id) == (id == chosen)
        }),
{
    let chosen = v.models[v.filtered[v.selected] as int].full_id();
    match v.enabled {
        Some(ids) => {
            toggling_changes_one_model(ids, chosen, id);
            toggling_changes_one_model(ids, chosen, chosen);
        },
        None => {
            assert(seq![chosen].contains(chosen)) by {
                assert(seq![chosen][0] == chosen);
            }
        },
    }
}

/// Enabling all switches every model on, or with a search every one that it lists, and switches none
/// off; clearing all switches them off, and with a search leaves the others as they are.
pub proof fn all_keys_switch_what_is_listed(v: ScopedView, keys: KeyMatches, i: int)
    requires
        moves_nothing(keys),
        !keys.has("tui.select.confirm"@),
        keys.has("app.models.enableAll"@) || keys.has("app.models.clearAll"@),
        0 <= i < v.models.len(),
    ensures
        ({
            let (after, action) = v.pressed(keys);
            let id = v.models[i].full_id();
            let is_listed = exists|k: int|
                0 <= k < v.filtered.len() && v.models[#[trigger] v.filtered[k] as int].full_id() == id;
            &&& action == ScopedModelsAction::Change
            &&& after.dirty
            &&& keys.has("app.models.enableAll"@) ==> {
                &&& v.query.len() == 0 || is_listed ==> is_cycled(after.enabled, id)
                &&& is_cycled(v.enabled, id) ==> is_cycled(after.enabled, id)
            }
            &&& !keys.has("app.models.enableAll"@) ==> {
                &&& v.query.len() == 0 || is_listed ==> !is_cycled(after.enabled, id)
                &&& v.query.len() > 0 && !is_listed ==> is_cycled(after.enabled, id) == is_cycled(
                    v.enabled,
                    id,
                )
            }
        }),
{
    let all = full_ids(v.models);
    let id = v.models[i].full_id();
    assert(all[i] == id);
    assert(all.contains(id));
    let targets = v.listed_ids();
    switching_on_takes_effect(v.enabled, all, targets, id);
    switching_off_takes_effect(v.enabled, all, targets, id);
    let is_listed = exists|k: int|
        0 <= k < v.filtered.len() && v.models[#[trigger] v.filtered[k] as int].full_id() == id;
    if is_listed {
        let k = choose|k: int|
            0 <= k < v.filtered.len() && v.models[#[trigger] v.filtered[k] as int].full_id() == id;
        assert(targets[k] == id);
    }
    if targets.contains(id) {
        let k = targets.index_of(id);
        assert(v.models[v.filtered[k] as int].full_id() == id);
    }
}

proof fn lemma_model_with_id(models: Seq<ModelView>, i: int)
    requires
        0 <= i < models.len() <= usize::MAX,
        full_ids(models).no_duplicates(),
    ensures
        model_with_id(models, models[i].full_id()) == Some(i as usize),
    decreases models.len(),
{
    let ids = full_ids(models);
    assert(ids[i] == models[i].full_id());
    if i < models.len() - 1 {
        assert(ids[models.len() - 1] == models.last().full_id());
        assert(ids[i] != ids[models.len() - 1]);
        let rest = models.drop_last();
        assert(full_ids(rest) =~= ids.drop_last());
        lemma_model_with_id(rest, i);
    }
}

proof fn lemma_ids_of_provider(models: Seq<ModelView>, n: nat, provider: Seq<char>, i: int)
    requires
        0 <= i < models.len() <= usize::MAX,
        n <= models.len(),
        full_ids(models).no_duplicates(),
    ensures
        ids_of_provider(models, full_ids(models).take(n as int), provider).contains(
            models[i].full_id(),
        ) <==> i < n && models[i].provider == provider,
    decreases n,
{
    let all = full_ids(models);
    let ids = all.take(n as int);
    if n > 0 {
        lemma_ids_of_provider(models, (n - 1) as nat, provider, i);
        assert(ids.drop_last() =~= all.take(n - 1));
        assert(ids.last() == models[n - 1].full_id());
        lemma_model_with_id(models, n - 1);
        let before = ids_of_provider(models, all.take(n - 1), provider);
        let list = ids_of_provider(models, ids, provider);
        let id = models[i].full_id();
        assert(all[i] == id && all[n - 1] == ids.last());
        if models[n - 1].provider == provider {
            assert(list == before.push(ids.last()));
            assert(list[before.len() as int] == ids.last());
            if before.contains(id) {
                assert(list[before.index_of(id)] == id);
            }
            if list.contains(id) {
                let k = list.index_of(id);
                if k < before.len() {
                    assert(before[k] == id);
                } else {
                    assert(i == n - 1);
                }
            }
        }
    }
}

/// The provider key switches all models of the selected model's provider: off if all of them were on,
/// otherwise on. Switched off, it leaves the models of other providers as they are.
pub proof fn provider_key_switches_one_provider(v: ScopedView, keys: KeyMatches, i: int)
    requires
        0 <= v.selected < v.filtered.len(),
        v.models.len() <= usize::MAX,
        full_ids(v.models).no_duplicates(),
        moves_nothing(keys),
        !keys.has("tui.select.confirm"@),
        !keys.has("app.models.enableAll"@),
        !keys.has("app.models.clearAll"@),
        keys.has("app.models.toggleProvider"@),
        0 <= i < v.models.len(),
    ensures
        ({
            let (after, action) = v.pressed(keys);
            let provider = v.models[v.filtered[v.selected] as int].provider;
            let all_were_on = forall|k: int|
                0 <= k < v.models.len() && (#[trigger] v.models[k]).provider == provider ==> is_cycled(
                    v.enabled,
                    v.models[k].full_id(),
                );
            let id = v.models[i].full_id();
            &&& action == ScopedModelsAction::Change
            &&& v.models[i].provider == provider ==> is_cycled(after.enabled, id) == !all_were_on
            &&& v.models[i].provider != provider && is_cycled(v.enabled, id) ==> is_cycled(
                after.enabled,
                id,
            )
            &&& v.models[i].provider != provider && all_were_on ==> is_cycled(after.enabled, id)
                == is_cycled(v.enabled, id)
        }),
{
    let all = full_ids(v.models);
    let provider = v.models[v.filtered[v.selected] as int].provider;
    let ids = ids_of_provider(v.models, all, provider);
    let id = v.models[i].full_id();
    let n = v.models.len();
    assert(all.take(n as int) =~= all);
    assert(all[i] == id);
    assert(all.contains(id));
    lemma_ids_of_provider(v.models, n, provider, i);
    switching_on_takes_effect(v.enabled, all, ids, id);
    switching_off_takes_effect(v.enabled, all, ids, id);
    let all_were_on = forall|k: int|
        0 <= k < v.models.len() && (#[trigger] v.models[k]).provider == provider ==> is_cycled(
            v.enabled,
            v.models[k].full_id(),
        );
    let ids_on = forall|k: int|
        0 <= k < ids.len() ==> crate::model_scope::is_on(v.enabled, #[trigger] ids[k]);
    if all_were_on && !ids_on {
        let k = choose|k: int|
            0 <= k < ids.len() && !crate::model_scope::is_on(v.enabled, #[trigger] ids[k]);
        lemma_provider_ids_are_ids(v.models, all, provider, k);
        let m = all.index_of(ids[k]);
        assert(v.models[m].full_id() == ids[k]);
        lemma_ids_of_provider(v.models, n, provider, m);
        assert(ids.contains(ids[k]));
    }
    if ids_on && !all_were_on {
        let k = choose|k: int|
            0 <= k < v.models.len() && (#[trigger] v.models[k]).provider == provider && !is_cycled(
                v.enabled,
                v.models[k].full_id(),
            );
        lemma_ids_of_provider(v.models, n, provider, k);
        let m = ids.index_of(v.models[k].full_id());
        assert(crate::model_scope::is_on(v.enabled, ids[m]));
    }
}

proof fn lemma_provider_ids_are_ids(
    models: Seq<ModelView>,
    ids: Seq<Seq<char>>,
    provider: Seq<char>,
    k: int,
)
    requires
        0 <= k < ids_of_provider(models, ids, provider).len(),
    ensures
        ids.contains(ids_of_provider(models, ids, provider)[k]),
    decreases ids.len(),
{
    if ids.len() > 0 {
        let before = ids_of_provider(models, ids.drop_last(), provider);
        if k < before.len() {
            lemma_provider_ids_are_ids(models, ids.drop_last(), provider, k);
            let j = ids.drop_last().index_of(before[k]);
            assert(ids[j] == before[k]);
        } else {
            assert(ids[ids.len() - 1] == ids.last());
        }
    }
}

proof fn lemma_models_with_ids(models: Seq<ModelView>, ids: Seq<Seq<char>>)
    requires
        models.len() <= usize::MAX,
        full_ids(models).no_duplicates(),
        forall|j: int| 0 <= j < ids.len() ==> full_ids(models).contains(#[trigger] ids[j]),
    ensures
        models_with_ids(models, ids).len() == ids.len(),
        forall|j: int|
            0 <= j < ids.len() ==> (#[trigger] models_with_ids(models, ids)[j]) < models.len()
                && models[models_with_ids(models, ids)[j] as int].full_id() == ids[j],
    decreases ids.len(),
{
    if ids.len() > 0 {
        let rest = ids.drop_last();
        assert forall|j: int| 0 <= j < rest.len() implies full_ids(models).contains(
            #[trigger] rest[j],
        ) by {
            assert(rest[j] == ids[j]);
        }
        lemma_models_with_ids(models, rest);
        let all = full_ids(models);
        let m = all.index_of(ids[ids.len() - 1]);
        assert(all.contains(ids[ids.len() - 1]));
        assert(models[m].full_id() == ids.last());
        lemma_model_with_id(models, m);
    }
}

proof fn lemma_without_are_ids(all: Seq<Seq<char>>, ids: Seq<Seq<char>>, j: int)
    requires
        0 <= j < without(all, ids).len(),
    ensures
        all.contains(without(all, ids)[j]),
    decreases all.len(),
{
    if all.len() > 0 {
        let before = without(all.drop_last(), ids);
        if j < before.len() {
            lemma_without_are_ids(all.drop_last(), ids, j);
            let k = all.drop_last().index_of(before[j]);
            assert(all[k] == before[j]);
        } else {
            assert(all[all.len() - 1] == all.last());
        }
    }
}

proof fn lemma_listed_models(v: ScopedView, enabled: Seq<Seq<char>>)
    requires
        v.models.len() <= usize::MAX,
        full_ids(v.models).no_duplicates(),
        forall|j: int| 0 <= j < enabled.len() ==> full_ids(v.models).contains(#[trigger] enabled[j]),
    ensures
        ({
            let order = listed(Some(enabled), full_ids(v.models));
            let shown = models_with_ids(v.models, order);
            &&& shown.len() == order.len()
            &&& order.len() >= enabled.len()
            &&& forall|j: int|
                0 <= j < order.len() ==> (#[trigger] shown[j]) < v.models.len()
                    && v.models[shown[j] as int].full_id() == order[j]
            &&& forall|j: int| 0 <= j < enabled.len() ==> #[trigger] order[j] == enabled[j]
        }),
{
    let all = full_ids(v.models);
    let order = listed(Some(enabled), all);
    assert forall|j: int| 0 <= j < order.len() implies all.contains(#[trigger] order[j]) by {
        if j < enabled.len() {
            assert(order[j] == enabled[j]);
        } else {
            let rest = without(all, enabled);
            assert(order[j] == rest[j - enabled.len()]);
            lemma_without_are_ids(all, enabled, j - enabled.len());
        }
    }
    lemma_models_with_ids(v.models, order);
}

/// Without a search, the reorder keys swap the selected model with its neighbour among the enabled
/// ones, and the selection stays on it. At the ends nothing changes.
pub proof fn reordering_moves_the_selected_model(v: ScopedView, keys: KeyMatches, i: int)
    requires
        v.query.len() == 0,
        v.filtered == v.shown(),
        v.models.len() <= usize::MAX,
        full_ids(v.models).no_duplicates(),
        v.enabled is Some,
        v.enabled->0.no_duplicates(),
        forall|j: int|
            0 <= j < v.enabled->0.len() ==> full_ids(v.models).contains(#[trigger] v.enabled->0[j]),
        0 <= i < v.enabled->0.len(),
        v.selected == i,
        !keys.has("tui.select.up"@),
        !keys.has("tui.select.down"@),
        keys.has("app.models.reorderUp"@) || keys.has("app.models.reorderDown"@),
    ensures
        ({
            let (after, action) = v.pressed(keys);
            let ids = v.enabled->0;
            let to = if keys.has("app.models.reorderUp"@) {
                i - 1
            } else {
                i + 1
            };
            if 0 <= to < ids.len() {
                &&& action == ScopedModelsAction::Change
                &&& after.dirty
                &&& after.enabled == Some(ids.update(i, ids[to]).update(to, ids[i]))
                &&& after.selected == to
                &&& after.models[after.filtered[after.selected] as int].full_id() == ids[i]
            } else {
                action == ScopedModelsAction::Nothing && after == v
            }
        }),
{
    let ids = v.enabled->0;
    lemma_listed_models(v, ids);
    let shown = models_with_ids(v.models, listed(v.enabled, full_ids(v.models)));
    assert(v.filtered == shown);
    let order = listed(Some(ids), full_ids(v.models));
    assert(shown[i] < v.models.len() && v.models[shown[i] as int].full_id() == order[i]);
    assert(order[i] == ids[i]);
    let id = v.selected_model().full_id();
    assert(id == ids[i]);
    assert(ids.contains(id));
    lemma_first_index_found(ids, id);
    assert(first_index(ids, id) == i);
    let to = if keys.has("app.models.reorderUp"@) {
        i - 1
    } else {
        i + 1
    };
    if 0 <= to < ids.len() {
        let swapped = ids.update(i, ids[to]).update(to, ids[i]);
        assert forall|j: int| 0 <= j < swapped.len() implies full_ids(v.models).contains(
            #[trigger] swapped[j],
        ) by {
            if j == to {
                assert(swapped[j] == ids[i]);
            } else if j == i {
                assert(swapped[j] == ids[to]);
            } else {
                assert(swapped[j] == ids[j]);
            }
        }
        lemma_listed_models(v, swapped);
        let later = listed(Some(swapped), full_ids(v.models));
        let rows = models_with_ids(v.models, later);
        assert(later[to] == swapped[to]);
        assert(v.models[rows[to] as int].full_id() == later[to]);
    }
}

/// Saving asks for the enabled models to be kept and changes none; escape gives up; without a search
/// so does ctrl+c, which otherwise clears the search. What else is pressed goes to the search.
pub proof fn scoped_keys_ask_for_what_they_are_for(v: ScopedView, keys: KeyMatches)
    requires
        moves_nothing(keys),
        !keys.has("tui.select.confirm"@),
        !keys.has("app.models.enableAll"@),
        !keys.has("app.models.clearAll"@),
        !keys.has("app.models.toggleProvider"@),
    ensures
        ({
            let (after, action) = v.pressed(keys);
            let save = keys.has("app.models.save"@);
            let stop = keys.has("ctrl+c"@);
            let escape = keys.has("escape"@);
            &&& after.enabled == v.enabled
            &&& after.models == v.models
            &&& (action == ScopedModelsAction::Persist) == save
            &&& save ==> !after.dirty
            &&& (action == ScopedModelsAction::Cancel) == (!save && ((stop && v.query.len() == 0) || (
            !stop && escape)))
            &&& !save && stop ==> after.query.len() == 0
            &&& (action == ScopedModelsAction::Search) == (!save && !stop && !escape)
            &&& !save ==> after.dirty == v.dirty
        }),
{
}

} // verus!
