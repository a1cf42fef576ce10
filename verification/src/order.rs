//! Stable ordering of items by a rank.

use vstd::prelude::*;

verus! {

/// A type whose values are ranked by a total preorder.
pub trait Ranked: Sized {
    /// What the values are ranked by.
    type Rank;

    /// The rank of a value.
    spec fn rank(&self) -> Self::Rank;

    /// Whether the rank `a` comes no later than the rank `b`.
    spec fn at_most(a: Self::Rank, b: Self::Rank) -> bool;

    /// Any two ranks are comparable.
    proof fn total(a: Self::Rank, b: Self::Rank)
        ensures
            Self::at_most(a, b) || Self::at_most(b, a),
    ;

    /// Ranks are transitive.
    proof fn transitive(a: Self::Rank, b: Self::Rank, c: Self::Rank)
        requires
            Self::at_most(a, b),
            Self::at_most(b, c),
        ensures
            Self::at_most(a, c),
    ;

    /// Whether the value ranks no later than `other`.
    fn is_at_most(&self, other: &Self) -> (r: bool)
        ensures
            r == Self::at_most(self.rank(), other.rank()),
    ;
}

/// The ranks of a list of values.
pub open spec fn ranks<T: Ranked>(values: Seq<T>) -> Seq<T::Rank> {
    values.map_values(|v: T| v.rank())
}

/// Whether the item at index `i` comes before the one at index `j`: by rank, and by index among
/// items of equal rank.
pub open spec fn comes_before<T: Ranked>(keys: Seq<T::Rank>, i: int, j: int) -> bool {
    T::at_most(keys[i], keys[j]) && (T::at_most(keys[j], keys[i]) ==> i < j)
}

/// Whether `order` lists every index of `keys` once, by rank and stably.
pub open spec fn is_stable_order<T: Ranked>(order: Seq<usize>, keys: Seq<T::Rank>) -> bool {
    &&& order.len() == keys.len()
    &&& order.no_duplicates()
    &&& forall|p: int| 0 <= p < order.len() ==> 0 <= #[trigger] order[p] < keys.len()
    &&& forall|p: int, q: int|
        0 <= p < q < order.len() ==> comes_before::<T>(keys, #[trigger] order[p] as int, #[trigger] order[q] as int)
}

/// The stable order of `keys`.
pub open spec fn stable_order<T: Ranked>(keys: Seq<T::Rank>) -> Seq<usize> {
    choose|order: Seq<usize>| is_stable_order::<T>(order, keys)
}

proof fn lemma_strict_transitive<T: Ranked>(keys: Seq<T::Rank>, a: int, b: int, c: int)
    requires
        comes_before::<T>(keys, a, b),
        comes_before::<T>(keys, b, c),
    ensures
        comes_before::<T>(keys, a, c),
{
    T::transitive(keys[a], keys[b], keys[c]);
    if T::at_most(keys[c], keys[a]) {
        T::transitive(keys[b], keys[c], keys[a]);
        T::transitive(keys[c], keys[a], keys[b]);
    }
}

/// There is only one stable order: every order that is by rank and stable is `stable_order`.
pub proof fn lemma_stable_order_unique<T: Ranked>(order: Seq<usize>, keys: Seq<T::Rank>)
    requires
        is_stable_order::<T>(order, keys),
    ensures
        order == stable_order::<T>(keys),
{
    let other = stable_order::<T>(keys);
    assert(is_stable_order::<T>(other, keys));
    lemma_orders_agree::<T>(order, other, keys, 0);
    assert(order =~= other);
}

/// Two stable orders agree from position `p` on when they agree before it.
proof fn lemma_orders_agree<T: Ranked>(a: Seq<usize>, b: Seq<usize>, keys: Seq<T::Rank>, p: int)
    requires
        is_stable_order::<T>(a, keys),
        is_stable_order::<T>(b, keys),
        0 <= p <= a.len(),
        forall|q: int| 0 <= q < p ==> a[q] == b[q],
    ensures
        forall|q: int| 0 <= q < a.len() ==> a[q] == b[q],
    decreases a.len() - p,
{
    if p < a.len() {
        if a[p] != b[p] {
            lemma_covers(a, keys.len());
            lemma_covers(b, keys.len());
            let i = a.index_of(b[p]);
            let j = b.index_of(a[p]);
            assert(a.contains(b[p]) && b.contains(a[p]));
            assert(a[i] == b[p] && b[j] == a[p]);
            if i < p {
                assert(b[i] == b[p]);
            }
            if j < p {
                assert(a[j] == a[p]);
            }
            assert(comes_before::<T>(keys, a[p] as int, a[i] as int));
            assert(comes_before::<T>(keys, b[p] as int, b[j] as int));
            lemma_strict_transitive::<T>(keys, a[p] as int, b[p] as int, a[p] as int);
        }
        lemma_orders_agree::<T>(a, b, keys, p + 1);
    }
}

/// A duplicate-free list of `n` indices below `n` holds each of them.
pub proof fn lemma_covers(a: Seq<usize>, n: nat)
    requires
        a.len() == n,
        a.no_duplicates(),
        forall|p: int| 0 <= p < a.len() ==> 0 <= #[trigger] a[p] < n,
    ensures
        forall|i: usize| i < n ==> #[trigger] a.contains(i),
{
    assert forall|i: usize| i < n implies #[trigger] a.contains(i) by {
        let ints = a.map_values(|u: usize| u as int);
        let dom = vstd::set_lib::set_int_range(0, n as int);
        vstd::set_lib::lemma_int_range(0, n as int);
        assert(ints.no_duplicates()) by {
            assert forall|x: int, y: int| 0 <= x < ints.len() && 0 <= y < ints.len() && x
                != y implies ints[x] != ints[y] by {
                assert(a[x] != a[y]);
            }
        }
        ints.unique_seq_to_set();
        assert(ints.to_set().subset_of(dom)) by {
            assert forall|x: int| ints.to_set().contains(x) implies dom.contains(x) by {
                let k = ints.index_of(x);
                assert(ints.contains(x));
                assert(ints[k] == x);
                assert(a[k] as int == x);
            }
        }
        vstd::seq_lib::seq_to_set_is_finite(ints);
        vstd::set_lib::lemma_subset_equality(ints.to_set(), dom);
        assert(dom.contains(i as int));
        assert(ints.contains(i as int));
        let k = ints.index_of(i as int);
        assert(a[k] == i);
    }
}

/// Every list of keys has a stable order.
pub proof fn lemma_stable_order_exists<T: Ranked>(keys: Seq<T::Rank>)
    requires
        keys.len() <= usize::MAX,
    ensures
        is_stable_order::<T>(stable_order::<T>(keys), keys),
{
    let order = lemma_order_prefix::<T>(keys, keys.len());
    assert(is_stable_order::<T>(order, keys));
}

/// A stable order of the first `n` keys.
proof fn lemma_order_prefix<T: Ranked>(keys: Seq<T::Rank>, n: nat) -> (order: Seq<usize>)
    requires
        n <= keys.len() <= usize::MAX,
    ensures
        order.len() == n,
        order.no_duplicates(),
        forall|p: int| 0 <= p < order.len() ==> 0 <= #[trigger] order[p] < n,
        forall|p: int, q: int|
            0 <= p < q < order.len() ==> comes_before::<T>(
                keys,
                #[trigger] order[p] as int,
                #[trigger] order[q] as int,
            ),
    decreases n,
{
    if n == 0 {
        Seq::empty()
    } else {
        let last = (n - 1) as int;
        let before = lemma_order_prefix::<T>(keys, (n - 1) as nat);
        let at = lemma_insert_position::<T>(keys, before, last, before.len());
        before.insert_ensures(at as int, last as usize);
        lemma_insert_sorted::<T>(keys, before, at as int, last as usize);
        before.insert(at as int, last as usize)
    }
}

/// Where the key at index `i` goes: after the keys that rank no later, scanning down from `at`.
proof fn lemma_insert_position<T: Ranked>(
    keys: Seq<T::Rank>,
    order: Seq<usize>,
    i: int,
    at: nat,
) -> (r: nat)
    requires
        at <= order.len(),
        forall|p: int|
            at <= p < order.len() ==> !T::at_most(keys[#[trigger] order[p] as int], keys[i]),
    ensures
        r <= order.len(),
        forall|p: int| r <= p < order.len() ==> !T::at_most(keys[#[trigger] order[p] as int], keys[i]),
        r > 0 ==> T::at_most(keys[order[r - 1] as int], keys[i]),
    decreases at,
{
    if at == 0 || T::at_most(keys[order[at - 1] as int], keys[i]) {
        at
    } else {
        lemma_insert_position::<T>(keys, order, i, (at - 1) as nat)
    }
}

/// Inserting a later index after the keys that rank no later keeps the order stable.
proof fn lemma_insert_sorted<T: Ranked>(keys: Seq<T::Rank>, before: Seq<usize>, at: int, n: usize)
    requires
        0 <= at <= before.len(),
        before.no_duplicates(),
        forall|p: int| 0 <= p < before.len() ==> 0 <= #[trigger] before[p] < n,
        forall|p: int, q: int|
            0 <= p < q < before.len() ==> comes_before::<T>(
                keys,
                #[trigger] before[p] as int,
                #[trigger] before[q] as int,
            ),
        forall|p: int|
            at <= p < before.len() ==> !T::at_most(keys[#[trigger] before[p] as int], keys[n as int]),
        at > 0 ==> T::at_most(keys[before[at - 1] as int], keys[n as int]),
    ensures
        before.insert(at, n).no_duplicates(),
        forall|p: int, q: int|
            0 <= p < q < before.insert(at, n).len() ==> comes_before::<T>(
                keys,
                #[trigger] before.insert(at, n)[p] as int,
                #[trigger] before.insert(at, n)[q] as int,
            ),
{
    let order = before.insert(at, n);
    assert forall|p: int, q: int| 0 <= p < q < order.len() implies comes_before::<T>(
        keys,
        #[trigger] order[p] as int,
        #[trigger] order[q] as int,
    ) by {
        let p0 = if p < at { p } else { p - 1 };
        let q0 = if q < at { q } else { q - 1 };
        if p == at {
            assert(order[q] == before[q0]);
            T::total(keys[n as int], keys[before[q0] as int]);
        } else if q == at {
            assert(order[p] == before[p0]);
            assert(comes_before::<T>(keys, before[p0] as int, before[at - 1] as int) || p0 == at - 1);
            if p0 != at - 1 {
                T::transitive(
                    keys[before[p0] as int],
                    keys[before[at - 1] as int],
                    keys[n as int],
                );
            }
        } else {
            assert(order[p] == before[p0] && order[q] == before[q0]);
        }
    }
    assert forall|p: int, q: int|
        0 <= p < order.len() && 0 <= q < order.len() && p != q implies order[p] != order[q] by {
        let p0 = if p < at { p } else { p - 1 };
        let q0 = if q < at { q } else { q - 1 };
        if p != at {
            assert(order[p] == before[p0]);
        }
        if q != at {
            assert(order[q] == before[q0]);
        }
    }
}

/// The indices of the values by rank, equal ranks in index order.
pub fn sort_indices<T: Ranked>(values: &Vec<T>) -> (order: Vec<usize>)
    ensures
        order@ == stable_order::<T>(ranks(values@)),
        is_stable_order::<T>(order@, ranks(values@)),
{
    let ghost keys = ranks(values@);
    let mut order: Vec<usize> = Vec::new();
    let mut n: usize = 0;
    while n < values.len()
        invariant
            n <= values.len(),
            keys == ranks(values@),
            order.len() == n,
            order@.no_duplicates(),
            forall|p: int| 0 <= p < order.len() ==> 0 <= #[trigger] order[p] < n,
            forall|p: int, q: int|
                0 <= p < q < order.len() ==> comes_before::<T>(
                    keys,
                    #[trigger] order[p] as int,
                    #[trigger] order[q] as int,
                ),
        decreases values.len() - n,
    {
        let mut at: usize = n;
        while at > 0 && !values[order[at - 1]].is_at_most(&values[n])
            invariant
                at <= n < values.len(),
                keys == ranks(values@),
                order.len() == n,
                forall|p: int| 0 <= p < order.len() ==> 0 <= #[trigger] order[p] < n,
                forall|p: int|
                    at <= p < n ==> !T::at_most(keys[#[trigger] order[p] as int], keys[n as int]),
            decreases at,
        {
            at = at - 1;
        }
        proof {
            lemma_insert_sorted::<T>(keys, order@, at as int, n);
        }
        order.insert(at, n);
        n = n + 1;
    }
    proof {
        lemma_stable_order_unique::<T>(order@, keys);
    }
    order
}

} // verus!
