//! Which models are enabled for cycling, and in which order.

use crate::text::{copy_texts, push_text, str_eq, texts};
use vstd::prelude::*;

verus! {

broadcast use vstd::string::group_string_axioms;

/// Which models are enabled, by id: with no list every model is, otherwise those in the list, in
/// its order.
pub type EnabledModelIds = Option<Vec<String>>;

/// The enabled ids as text.
pub open spec fn enabled_texts(enabled: EnabledModelIds) -> Option<Seq<Seq<char>>> {
    match enabled {
        Some(ids) => Some(texts(ids@)),
        None => None,
    }
}

/// Whether the model is enabled.
pub open spec fn is_on(enabled: Option<Seq<Seq<char>>>, id: Seq<char>) -> bool {
    enabled matches Some(ids) ==> ids.contains(id)
}

/// The enabled models after the model is switched on or off. Where all models were enabled, it is
/// the only one left.
pub open spec fn toggled(enabled: Option<Seq<Seq<char>>>, id: Seq<char>) -> Option<Seq<Seq<char>>> {
    match enabled {
        None => Some(seq![id]),
        Some(ids) => if ids.contains(id) {
            Some(ids.remove(first_index(ids, id)))
        } else {
            Some(ids.push(id))
        },
    }
}

/// The index of the first occurrence.
pub open spec fn first_index(ids: Seq<Seq<char>>, id: Seq<char>) -> int
    decreases ids.len(),
{
    if ids.len() == 0 || ids[0] == id {
        0
    } else {
        1 + first_index(ids.skip(1), id)
    }
}

proof fn lemma_first_index(ids: Seq<Seq<char>>, id: Seq<char>, k: int)
    requires
        0 <= k <= ids.len(),
        forall|j: int| 0 <= j < k ==> ids[j] != id,
        k < ids.len() ==> ids[k] == id,
    ensures
        first_index(ids, id) == k,
    decreases k,
{
    if k > 0 {
        assert forall|j: int| 0 <= j < k - 1 implies ids.skip(1)[j] != id by {
            assert(ids.skip(1)[j] == ids[j + 1]);
        }
        lemma_first_index(ids.skip(1), id, k - 1);
    }
}

/// The index of the first occurrence is one, if the id occurs.
pub proof fn lemma_first_index_found(ids: Seq<Seq<char>>, id: Seq<char>)
    ensures
        0 <= first_index(ids, id) <= ids.len(),
        ids.contains(id) ==> first_index(ids, id) < ids.len() && ids[first_index(ids, id)] == id,
        forall|j: int| 0 <= j < first_index(ids, id) ==> ids[j] != id,
    decreases ids.len(),
{
    if ids.len() > 0 && ids[0] != id {
        let rest = ids.skip(1);
        lemma_first_index_found(rest, id);
        if ids.contains(id) {
            let j = choose|j: int| 0 <= j < ids.len() && ids[j] == id;
            assert(rest[j - 1] == id);
        }
        assert forall|j: int| 0 <= j < first_index(ids, id) implies ids[j] != id by {
            if j > 0 {
                assert(rest[j - 1] == ids[j]);
            }
        }
    }
}

/// The ids with those of `more` that are missing added at the end.
pub open spec fn appended(ids: Seq<Seq<char>>, more: Seq<Seq<char>>) -> Seq<Seq<char>>
    decreases more.len(),
{
    if more.len() == 0 {
        ids
    } else {
        let r = appended(ids, more.drop_last());
        if r.contains(more.last()) {
            r
        } else {
            r.push(more.last())
        }
    }
}

/// The ids that are not among `others`, in order.
pub open spec fn without(ids: Seq<Seq<char>>, others: Seq<Seq<char>>) -> Seq<Seq<char>>
    decreases ids.len(),
{
    if ids.len() == 0 {
        Seq::empty()
    } else {
        let r = without(ids.drop_last(), others);
        if others.contains(ids.last()) {
            r
        } else {
            r.push(ids.last())
        }
    }
}

/// The enabled models after the targets, or all models, are switched on. Once the list is as long
/// as that of all models, it is dropped.
pub open spec fn all_on(
    enabled: Option<Seq<Seq<char>>>,
    all: Seq<Seq<char>>,
    targets: Option<Seq<Seq<char>>>,
) -> Option<Seq<Seq<char>>> {
    match enabled {
        None => None,
        Some(ids) => {
            let r = appended(
                ids,
                match targets {
                    Some(t) => t,
                    None => all,
                },
            );
            if r.len() == all.len() {
                None
            } else {
                Some(r)
            }
        },
    }
}

/// The enabled models after the targets, or all models, are switched off.
pub open spec fn all_off(
    enabled: Option<Seq<Seq<char>>>,
    all: Seq<Seq<char>>,
    targets: Option<Seq<Seq<char>>>,
) -> Option<Seq<Seq<char>>> {
    let ids = match enabled {
        Some(ids) => ids,
        None => all,
    };
    match targets {
        Some(t) => Some(without(ids, t)),
        None => Some(Seq::empty()),
    }
}

/// The enabled models after one of them swaps places with the one `delta` places after it, if there
/// is one.
pub open spec fn moved(enabled: Option<Seq<Seq<char>>>, id: Seq<char>, delta: int) -> Option<
    Seq<Seq<char>>,
> {
    match enabled {
        None => None,
        Some(ids) => {
            let from = first_index(ids, id);
            let to = from + delta;
            if ids.contains(id) && 0 <= to < ids.len() {
                Some(ids.update(from, ids[to]).update(to, ids[from]))
            } else {
                Some(ids)
            }
        },
    }
}

/// All models in the order in which they are listed: the enabled ones in their order, then the
/// others.
pub open spec fn listed(enabled: Option<Seq<Seq<char>>>, all: Seq<Seq<char>>) -> Seq<Seq<char>> {
    match enabled {
        None => all,
        Some(ids) => ids + without(all, ids),
    }
}

proof fn lemma_appended_holds(ids: Seq<Seq<char>>, more: Seq<Seq<char>>)
    ensures
        forall|id: Seq<char>| #[trigger]
            appended(ids, more).contains(id) <==> ids.contains(id) || more.contains(id),
    decreases more.len(),
{
    if more.len() > 0 {
        let before = appended(ids, more.drop_last());
        let after = appended(ids, more);
        lemma_appended_holds(ids, more.drop_last());
        assert forall|id: Seq<char>| #[trigger] after.contains(id) <==> ids.contains(id)
            || more.contains(id) by {
            lemma_push_holds(before, more.last(), id);
            lemma_push_holds(more.drop_last(), more.last(), id);
            assert(more.drop_last().push(more.last()) =~= more);
            assert(before.contains(id) <==> ids.contains(id) || more.drop_last().contains(id));
        }
    }
}

proof fn lemma_push_holds(ids: Seq<Seq<char>>, last: Seq<char>, id: Seq<char>)
    ensures
        ids.push(last).contains(id) <==> ids.contains(id) || id == last,
{
    let longer = ids.push(last);
    if ids.contains(id) {
        let i = choose|i: int| 0 <= i < ids.len() && ids[i] == id;
        assert(longer[i] == id);
    }
    if id == last {
        assert(longer[ids.len() as int] == id);
    }
    if longer.contains(id) {
        let i = choose|i: int| 0 <= i < longer.len() && longer[i] == id;
        if i < ids.len() {
            assert(ids[i] == id);
        }
    }
}

proof fn lemma_without_holds(ids: Seq<Seq<char>>, others: Seq<Seq<char>>)
    ensures
        forall|id: Seq<char>| #[trigger]
            without(ids, others).contains(id) <==> ids.contains(id) && !others.contains(id),
    decreases ids.len(),
{
    if ids.len() > 0 {
        lemma_without_holds(ids.drop_last(), others);
        let before = without(ids.drop_last(), others);
        let after = without(ids, others);
        assert forall|id: Seq<char>| #[trigger] after.contains(id) <==> ids.contains(id)
            && !others.contains(id) by {
            lemma_push_holds(before, ids.last(), id);
            lemma_push_holds(ids.drop_last(), ids.last(), id);
            assert(ids.drop_last().push(ids.last()) =~= ids);
            assert(before.contains(id) <==> ids.drop_last().contains(id) && !others.contains(id));
        }
    }
}

/// Switching a model on or off changes that model alone, where models are listed once.
pub proof fn toggling_changes_one_model(ids: Seq<Seq<char>>, id: Seq<char>, other: Seq<char>)
    requires
        ids.no_duplicates(),
    ensures
        is_on(toggled(Some(ids), id), id) == !is_on(Some(ids), id),
        other != id ==> is_on(toggled(Some(ids), id), other) == is_on(Some(ids), other),
        toggled(Some(ids), id)->0.no_duplicates(),
{
    lemma_first_index_found(ids, id);
    if ids.contains(id) {
        let k = first_index(ids, id);
        let left = ids.remove(k);
        assert forall|j: int| 0 <= j < left.len() implies left[j] == ids[if j < k {
            j
        } else {
            j + 1
        }] by {}
        if left.contains(id) {
            let j = choose|j: int| 0 <= j < left.len() && left[j] == id;
            assert(ids[if j < k {
                j
            } else {
                j + 1
            }] == ids[k]);
        }
        if other != id {
            if ids.contains(other) {
                let j = choose|j: int| 0 <= j < ids.len() && ids[j] == other;
                assert(left[if j < k {
                    j
                } else {
                    j - 1
                }] == other);
            }
            if left.contains(other) {
                let j = choose|j: int| 0 <= j < left.len() && left[j] == other;
                assert(ids[if j < k {
                    j
                } else {
                    j + 1
                }] == other);
            }
        }
    } else {
        lemma_push_holds(ids, id, id);
        lemma_push_holds(ids, id, other);
        assert forall|i: int, j: int| 0 <= i < j < ids.push(id).len() implies ids.push(id)[i]
            != ids.push(id)[j] by {
            if j == ids.len() {
                assert(ids.contains(ids[i]));
            }
        }
    }
}

/// Switching a model that is off on and off again restores the list.
pub proof fn toggling_back_restores(ids: Seq<Seq<char>>, id: Seq<char>)
    requires
        !ids.contains(id),
    ensures
        toggled(toggled(Some(ids), id), id) == Some(ids),
{
    let longer = ids.push(id);
    assert(longer[ids.len() as int] == id);
    assert forall|j: int| 0 <= j < ids.len() implies longer[j] != id by {
        assert(ids.contains(ids[j]));
    }
    lemma_first_index(longer, id, ids.len() as int);
    assert(longer.remove(ids.len() as int) =~= ids);
}

/// Switching targets on leaves every target on, and no model that was on is switched off.
pub proof fn switching_on_takes_effect(
    enabled: Option<Seq<Seq<char>>>,
    all: Seq<Seq<char>>,
    targets: Seq<Seq<char>>,
    id: Seq<char>,
)
    ensures
        targets.contains(id) ==> is_on(all_on(enabled, all, Some(targets)), id),
        all.contains(id) ==> is_on(all_on(enabled, all, None), id),
        is_on(enabled, id) ==> is_on(all_on(enabled, all, Some(targets)), id),
        is_on(enabled, id) ==> is_on(all_on(enabled, all, None), id),
{
    if let Some(ids) = enabled {
        lemma_appended_holds(ids, targets);
        lemma_appended_holds(ids, all);
        assert(appended(ids, targets).contains(id) <==> ids.contains(id) || targets.contains(id));
        assert(appended(ids, all).contains(id) <==> ids.contains(id) || all.contains(id));
    }
}

/// Switching targets off leaves every target off and all other models as they were; without
/// targets every model is off.
pub proof fn switching_off_takes_effect(
    enabled: Option<Seq<Seq<char>>>,
    all: Seq<Seq<char>>,
    targets: Seq<Seq<char>>,
    id: Seq<char>,
)
    requires
        all.contains(id),
    ensures
        targets.contains(id) ==> !is_on(all_off(enabled, all, Some(targets)), id),
        !targets.contains(id) ==> (is_on(all_off(enabled, all, Some(targets)), id) == is_on(
            enabled,
            id,
        )),
        !is_on(all_off(enabled, all, None), id),
{
    match enabled {
        Some(ids) => {
            lemma_without_holds(ids, targets);
            assert(without(ids, targets).contains(id) <==> ids.contains(id) && !targets.contains(
                id,
            ));
        },
        None => {
            lemma_without_holds(all, targets);
            assert(without(all, targets).contains(id) <==> all.contains(id) && !targets.contains(
                id,
            ));
        },
    }
}

/// Moving a model by any step changes only the order, and moving it back restores it, where models
/// are listed once. A step out of the list moves nothing.
pub proof fn moving_back_restores(ids: Seq<Seq<char>>, id: Seq<char>, i: int, delta: int)
    requires
        ids.no_duplicates(),
        0 <= i < ids.len(),
        ids[i] == id,
    ensures
        moved(Some(ids), id, delta) is Some,
        if 0 <= i + delta < ids.len() {
            &&& moved(Some(ids), id, delta)->0 == ids.update(i, ids[i + delta]).update(i + delta, id)
            &&& moved(moved(Some(ids), id, delta), id, -delta) == Some(ids)
        } else {
            moved(Some(ids), id, delta) == Some(ids)
        },
        moved(Some(ids), id, delta)->0.to_multiset() =~= ids.to_multiset(),
{
    assert(ids.contains(id));
    lemma_first_index_found(ids, id);
    let from = first_index(ids, id);
    assert(from == i);
    let to = from + delta;
    if 0 <= to < ids.len() {
        let swapped = ids.update(from, ids[to]).update(to, ids[from]);
        assert(swapped[to] == id);
        assert forall|j: int| 0 <= j < to implies swapped[j] != id by {
            if j == from {
                assert(swapped[j] == ids[to]);
            } else {
                assert(swapped[j] == ids[j]);
            }
        }
        lemma_first_index(swapped, id, to);
        assert(swapped.contains(id));
        assert(swapped.update(to, swapped[from]).update(from, swapped[to]) =~= ids);
        vstd::seq_lib::to_multiset_update(ids, from, ids[to]);
        vstd::seq_lib::to_multiset_update(ids.update(from, ids[to]), to, ids[from]);
        assert(ids.update(from, ids[to])[to] == ids[to]);
        ids.to_multiset_ensures();
        assert(ids.to_multiset().contains(ids[from]));
        assert(swapped.to_multiset() =~= ids.to_multiset());
    }
}

/// Every model is listed, and the enabled ones come first.
pub proof fn enabled_models_come_first(enabled: Option<Seq<Seq<char>>>, all: Seq<Seq<char>>, id: Seq<
    char,
>)
    ensures
        all.contains(id) ==> listed(enabled, all).contains(id),
        enabled matches Some(ids) ==> listed(enabled, all).take(ids.len() as int) == ids,
        enabled matches Some(ids) ==> forall|j: int|
            ids.len() <= j < listed(enabled, all).len() ==> !ids.contains(
                #[trigger] listed(enabled, all)[j],
            ),
{
    if let Some(ids) = enabled {
        lemma_without_holds(all, ids);
        let rest = without(all, ids);
        let list = ids + rest;
        assert(list.take(ids.len() as int) =~= ids);
        if all.contains(id) {
            if ids.contains(id) {
                let j = choose|j: int| 0 <= j < ids.len() && ids[j] == id;
                assert(list[j] == id);
            } else {
                assert(rest.contains(id));
                let j = choose|j: int| 0 <= j < rest.len() && rest[j] == id;
                assert(list[ids.len() + j] == id);
            }
        }
        assert forall|j: int| ids.len() <= j < list.len() implies !ids.contains(
            #[trigger] list[j],
        ) by {
            assert(list[j] == rest[j - ids.len()]);
            assert(rest.contains(rest[j - ids.len()]));
        }
    }
}

/// A copy of the enabled ids.
pub fn copy_enabled(enabled: &EnabledModelIds) -> (r: EnabledModelIds)
    ensures
        enabled_texts(r) == enabled_texts(*enabled),
{
    match enabled {
        Some(ids) => Some(copy_texts(ids)),
        None => None,
    }
}

/// The index of the first occurrence, or the length of the list.
pub fn position_of_id(ids: &Vec<String>, id: &str) -> (r: usize)
    ensures
        r == first_index(texts(ids@), id@),
        r <= ids.len(),
        r < ids.len() <==> texts(ids@).contains(id@),
{
    let ghost list = texts(ids@);
    let mut i: usize = 0;
    while i < ids.len()
        invariant
            i <= ids.len(),
            list == texts(ids@),
            forall|j: int| 0 <= j < i ==> list[j] != id@,
        decreases ids.len() - i,
    {
        assert(list[i as int] == ids[i as int]@);
        if str_eq(ids[i].as_str(), id) {
            proof {
                lemma_first_index(list, id@, i as int);
                assert(list.contains(list[i as int]));
            }
            return i;
        }
        i = i + 1;
    }
    proof {
        lemma_first_index(list, id@, i as int);
    }
    i
}

/// Whether the model is enabled.
pub fn is_enabled(enabled: &EnabledModelIds, id: &str) -> (r: bool)
    ensures
        r == is_on(enabled_texts(*enabled), id@),
{
    match enabled {
        Some(ids) => position_of_id(ids, id) < ids.len(),
        None => true,
    }
}

/// The enabled models after the model is switched on or off.
pub fn toggle(enabled: &EnabledModelIds, id: &str) -> (r: EnabledModelIds)
    ensures
        enabled_texts(r) == toggled(enabled_texts(*enabled), id@),
{
    match enabled {
        Some(ids) => {
            let mut r = copy_texts(ids);
            let k = position_of_id(ids, id);
            let ghost before = r@;
            if k < ids.len() {
                r.remove(k);
                assert(texts(r@) =~= texts(before).remove(k as int));
            } else {
                push_text(&mut r, id.to_owned());
            }
            Some(r)
        },
        None => {
            let mut r: Vec<String> = Vec::new();
            push_text(&mut r, id.to_owned());
            assert(texts(r@) =~= seq![id@]);
            Some(r)
        },
    }
}

fn append_missing(ids: &mut Vec<String>, more: &Vec<String>)
    ensures
        texts(final(ids)@) == appended(texts(old(ids)@), texts(more@)),
{
    let ghost before = texts(ids@);
    let mut i: usize = 0;
    while i < more.len()
        invariant
            i <= more.len(),
            texts(ids@) == appended(before, texts(more@).take(i as int)),
        decreases more.len() - i,
    {
        proof {
            let longer = texts(more@).take(i + 1);
            assert(longer.drop_last() =~= texts(more@).take(i as int));
            assert(longer.last() == more[i as int]@);
        }
        if position_of_id(ids, more[i].as_str()) == ids.len() {
            push_text(ids, more[i].clone());
        }
        i = i + 1;
    }
    assert(texts(more@).take(i as int) =~= texts(more@));
}

fn leave_out(ids: &Vec<String>, others: &Vec<String>) -> (r: Vec<String>)
    ensures
        texts(r@) == without(texts(ids@), texts(others@)),
{
    let mut r: Vec<String> = Vec::new();
    let mut i: usize = 0;
    assert(texts(r@) =~= without(texts(ids@).take(0), texts(others@)));
    while i < ids.len()
        invariant
            i <= ids.len(),
            texts(r@) == without(texts(ids@).take(i as int), texts(others@)),
        decreases ids.len() - i,
    {
        proof {
            let longer = texts(ids@).take(i + 1);
            assert(longer.drop_last() =~= texts(ids@).take(i as int));
            assert(longer.last() == ids[i as int]@);
        }
        if position_of_id(others, ids[i].as_str()) == others.len() {
            push_text(&mut r, ids[i].clone());
        }
        i = i + 1;
    }
    assert(texts(ids@).take(i as int) =~= texts(ids@));
    r
}

/// The enabled models after the targets, or all models, are switched on.
pub fn enable_all(enabled: &EnabledModelIds, all: &Vec<String>, targets: &EnabledModelIds) -> (r:
    EnabledModelIds)
    ensures
        enabled_texts(r) == all_on(
            enabled_texts(*enabled),
            texts(all@),
            enabled_texts(*targets),
        ),
{
    match enabled {
        None => None,
        Some(ids) => {
            let mut r = copy_texts(ids);
            match targets {
                Some(t) => append_missing(&mut r, t),
                None => append_missing(&mut r, all),
            }
            assert(texts(r@).len() == r.len() && texts(all@).len() == all.len());
            if r.len() == all.len() {
                None
            } else {
                Some(r)
            }
        },
    }
}

/// The enabled models after the targets, or all models, are switched off.
pub fn clear_all(enabled: &EnabledModelIds, all: &Vec<String>, targets: &EnabledModelIds) -> (r:
    EnabledModelIds)
    ensures
        enabled_texts(r) == all_off(
            enabled_texts(*enabled),
            texts(all@),
            enabled_texts(*targets),
        ),
{
    match targets {
        Some(t) => match enabled {
            Some(ids) => Some(leave_out(ids, t)),
            None => Some(leave_out(all, t)),
        },
        None => {
            let r: Vec<String> = Vec::new();
            assert(texts(r@) =~= Seq::empty());
            Some(r)
        },
    }
}

/// The enabled models after one of them swaps places with the one `delta` places after it, if there
/// is one.
pub fn move_enabled(enabled: &EnabledModelIds, id: &str, delta: isize) -> (r: EnabledModelIds)
    ensures
        enabled_texts(r) == moved(enabled_texts(*enabled), id@, delta as int),
{
    match enabled {
        None => None,
        Some(ids) => {
            let mut r = copy_texts(ids);
            let from = position_of_id(ids, id);
            let target: i128 = from as i128 + delta as i128;
            if from < ids.len() && 0 <= target && target < ids.len() as i128 {
                let to: usize = target as usize;
                let ghost list = texts(ids@);
                let a = r[from].clone();
                let b = r[to].clone();
                assert(list[from as int] == texts(r@)[from as int]);
                assert(list[to as int] == texts(r@)[to as int]);
                r.set(from, b);
                r.set(to, a);
                assert(texts(r@) =~= list.update(from as int, list[to as int]).update(
                    to as int,
                    list[from as int],
                ));
            }
            Some(r)
        },
    }
}

/// All models in the order in which they are listed.
pub fn sorted_ids(enabled: &EnabledModelIds, all: &Vec<String>) -> (r: Vec<String>)
    ensures
        texts(r@) == listed(enabled_texts(*enabled), texts(all@)),
{
    match enabled {
        None => copy_texts(all),
        Some(ids) => {
            let mut r = copy_texts(ids);
            let mut rest = leave_out(all, ids);
            let ghost before = r@;
            let ghost tail = rest@;
            r.append(&mut rest);
            assert(texts(r@) =~= texts(before) + texts(tail));
            r
        },
    }
}

} // verus!
