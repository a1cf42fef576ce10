//! Lists narrowed by a fuzzy search: which items match, best matches first.

use crate::order::{is_stable_order, ranks, sort_indices, stable_order, Ranked};
use vstd::prelude::*;

verus! {

/// The score of a match; a lower one is a better match.
pub struct ScoreKey {
    pub score: i64,
}

impl Ranked for ScoreKey {
    type Rank = i64;

    open spec fn rank(&self) -> i64 {
        self.score
    }

    open spec fn at_most(a: i64, b: i64) -> bool {
        a <= b
    }

    proof fn total(a: i64, b: i64) {
    }

    proof fn transitive(a: i64, b: i64, c: i64) {
    }

    fn is_at_most(&self, other: &Self) -> bool {
        self.score <= other.score
    }
}

/// The score of item `i`, if it matches; an item without a score does not.
pub open spec fn score_at(scores: Seq<Option<i64>>, i: int) -> Option<i64> {
    if 0 <= i < scores.len() {
        scores[i]
    } else {
        None
    }
}

/// The items that match, in order.
pub open spec fn matching(items: Seq<usize>, scores: Seq<Option<i64>>) -> Seq<usize>
    decreases items.len(),
{
    if items.len() == 0 {
        Seq::empty()
    } else {
        let r = matching(items.drop_last(), scores);
        if score_at(scores, items.last() as int) is Some {
            r.push(items.last())
        } else {
            r
        }
    }
}

/// The scores of items that match.
pub open spec fn scores_of(items: Seq<usize>, scores: Seq<Option<i64>>) -> Seq<i64> {
    items.map_values(|i: usize| score_at(scores, i as int)->0)
}

/// The items that match, best matches first and equal ones in order.
pub open spec fn best_first(items: Seq<usize>, scores: Seq<Option<i64>>) -> Seq<usize> {
    let found = matching(items, scores);
    stable_order::<ScoreKey>(scores_of(found, scores)).map_values(|p: usize| found[p as int])
}

/// The items as they are listed: all of them without a search, otherwise the best matches first.
pub open spec fn narrowed(
    items: Seq<usize>,
    query: Seq<char>,
    scores: Seq<Option<i64>>,
) -> Seq<usize> {
    if query.len() == 0 {
        items
    } else {
        best_first(items, scores)
    }
}

proof fn lemma_matching(items: Seq<usize>, scores: Seq<Option<i64>>)
    ensures
        forall|i: usize| #[trigger]
            matching(items, scores).contains(i) <==> items.contains(i) && score_at(
                scores,
                i as int,
            ) is Some,
        matching(items, scores).len() <= items.len(),
    decreases items.len(),
{
    let found = matching(items, scores);
    if items.len() > 0 {
        lemma_matching(items.drop_last(), scores);
        let before = matching(items.drop_last(), scores);
        let last = items.last();
        assert(items.drop_last().push(last) =~= items);
        assert forall|i: usize| #[trigger] found.contains(i) <==> items.contains(i) && score_at(
            scores,
            i as int,
        ) is Some by {
            lemma_push_holds(before, last, i);
            lemma_push_holds(items.drop_last(), last, i);
            assert(before.contains(i) <==> items.drop_last().contains(i) && score_at(
                scores,
                i as int,
            ) is Some);
        }
    }
}

proof fn lemma_push_holds(items: Seq<usize>, last: usize, i: usize)
    ensures
        items.push(last).contains(i) <==> items.contains(i) || i == last,
{
    let longer = items.push(last);
    if items.contains(i) {
        let k = choose|k: int| 0 <= k < items.len() && items[k] == i;
        assert(longer[k] == i);
    }
    if i == last {
        assert(longer[items.len() as int] == i);
    }
    if longer.contains(i) {
        let k = choose|k: int| 0 <= k < longer.len() && longer[k] == i;
        if k < items.len() {
            assert(items[k] == i);
        }
    }
}

/// A search lists exactly the items that match, and no item before a better one.
pub proof fn search_lists_best_matches_first(items: Seq<usize>, scores: Seq<Option<i64>>)
    requires
        items.len() <= usize::MAX,
    ensures
        forall|i: usize| #[trigger]
            best_first(items, scores).contains(i) <==> items.contains(i) && score_at(
                scores,
                i as int,
            ) is Some,
        best_first(items, scores).len() <= items.len(),
        forall|p: int, q: int|
            0 <= p < q < best_first(items, scores).len() ==> score_at(
                scores,
                #[trigger] best_first(items, scores)[p] as int,
            )->0 <= score_at(scores, #[trigger] best_first(items, scores)[q] as int)->0,
{
    lemma_matching(items, scores);
    let found = matching(items, scores);
    let keys = scores_of(found, scores);
    crate::order::lemma_stable_order_exists::<ScoreKey>(keys);
    let order = stable_order::<ScoreKey>(keys);
    assert(is_stable_order::<ScoreKey>(order, keys));
    crate::order::lemma_covers(order, keys.len());
    let best = best_first(items, scores);
    assert forall|i: usize| #[trigger] best.contains(i) <==> items.contains(i) && score_at(
        scores,
        i as int,
    ) is Some by {
        if best.contains(i) {
            let p = choose|p: int| 0 <= p < best.len() && best[p] == i;
            assert(found[order[p] as int] == i);
            assert(found.contains(i));
        }
        if found.contains(i) {
            let k = choose|k: int| 0 <= k < found.len() && found[k] == i;
            assert(order.contains(k as usize));
            let p = choose|p: int| 0 <= p < order.len() && order[p] == k as usize;
            assert(best[p] == i);
        }
        assert(found.contains(i) <==> items.contains(i) && score_at(scores, i as int) is Some);
    }
    assert forall|p: int, q: int| 0 <= p < q < best.len() implies score_at(
        scores,
        #[trigger] best[p] as int,
    )->0 <= score_at(scores, #[trigger] best[q] as int)->0 by {
        assert(crate::order::comes_before::<ScoreKey>(keys, order[p] as int, order[q] as int));
        assert(keys[order[p] as int] == score_at(scores, best[p] as int)->0);
        assert(keys[order[q] as int] == score_at(scores, best[q] as int)->0);
    }
}

/// The items as they are listed: all of them without a search, otherwise the best matches first.
pub fn narrow(items: Vec<usize>, query: &str, scores: &Vec<Option<i64>>) -> (r: Vec<usize>)
    ensures
        r@ == narrowed(items@, query@, scores@),
        forall|p: int| 0 <= p < r.len() ==> items@.contains(#[trigger] r[p]),
{
    if query.is_empty() {
        return items;
    }
    let mut found: Vec<usize> = Vec::new();
    let mut keys: Vec<ScoreKey> = Vec::new();
    let mut i: usize = 0;
    assert(found@ =~= matching(items@.take(0), scores@));
    while i < items.len()
        invariant
            i <= items.len(),
            found@ == matching(items@.take(i as int), scores@),
            ranks(keys@) =~= scores_of(found@, scores@),
        decreases items.len() - i,
    {
        proof {
            let longer = items@.take(i + 1);
            assert(longer.drop_last() =~= items@.take(i as int));
            assert(longer.last() == items@[i as int]);
        }
        let item: usize = items[i];
        if item < scores.len() {
            if let Some(score) = scores[item] {
                let ghost before = (found@, keys@);
                found.push(item);
                keys.push(ScoreKey { score });
                proof {
                    assert(ranks(keys@) =~= ranks(before.1).push(score));
                    assert(scores_of(found@, scores@) =~= scores_of(before.0, scores@).push(score));
                }
            }
        }
        i = i + 1;
    }
    assert(items@.take(i as int) =~= items@);
    assert(ranks(keys@) == scores_of(found@, scores@));
    let order = sort_indices(&keys);
    assert(order@.len() == found@.len());
    let mut r: Vec<usize> = Vec::new();
    let mut p: usize = 0;
    while p < order.len()
        invariant
            p <= order.len(),
            is_stable_order::<ScoreKey>(order@, scores_of(found@, scores@)),
            r@ =~= order@.map_values(|p: usize| found@[p as int]).take(p as int),
        decreases order.len() - p,
    {
        let at: usize = order[p];
        assert(at < scores_of(found@, scores@).len());
        r.push(found[at]);
        p = p + 1;
    }
    assert(r@ =~= best_first(items@, scores@));
    proof {
        search_lists_best_matches_first(items@, scores@);
        assert forall|p: int| 0 <= p < r.len() implies items@.contains(#[trigger] r[p]) by {
            assert(r@.contains(r[p]));
        }
    }
    r
}

} // verus!
