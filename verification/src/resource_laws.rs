//! How resources are grouped: each is listed where it belongs, and the groups stand in order.

use crate::order::{
    comes_before, is_stable_order, lemma_covers, lemma_stable_order_exists, stable_order,
};
use crate::resources::{
    all_items, by_name, found_groups, group_firsts, group_of, has_group, listed_items, members,
    sorted_groups, subgroup_of, type_label, GroupKey, GroupRank, GroupView, ItemView, NameKey,
    PackageScope, ResolvedPaths, ResolvedResource, ResourceOrigin, ResourceType, SubgroupView,
};
use crate::text::text_at_most;
use vstd::prelude::*;

verus! {

/// Whether the resource is listed as one of the type: by its path, on or off as it was found, and with
/// where it comes from.
pub open spec fn lists(items: Seq<ItemView>, resource: ResolvedResource, kind: ResourceType) -> bool {
    exists|i: int|
        0 <= i < items.len() && (#[trigger] items[i]).path == resource.path@ && items[i].enabled
            == resource.enabled && items[i].metadata == resource.metadata && items[i].resource_type
            == kind
}

/// Every extension, skill, prompt and theme that was found is listed as what it is.
pub proof fn every_resource_is_listed_as_what_it_is(resolved: ResolvedPaths, i: int)
    ensures
        0 <= i < resolved.extensions@.len() ==> lists(
            all_items(resolved),
            resolved.extensions@[i],
            ResourceType::Extensions,
        ),
        0 <= i < resolved.skills@.len() ==> lists(
            all_items(resolved),
            resolved.skills@[i],
            ResourceType::Skills,
        ),
        0 <= i < resolved.prompts@.len() ==> lists(
            all_items(resolved),
            resolved.prompts@[i],
            ResourceType::Prompts,
        ),
        0 <= i < resolved.themes@.len() ==> lists(
            all_items(resolved),
            resolved.themes@[i],
            ResourceType::Themes,
        ),
        all_items(resolved).len() == resolved.extensions@.len() + resolved.skills@.len()
            + resolved.prompts@.len() + resolved.themes@.len(),
{
    let all = all_items(resolved);
    let extensions = listed_items(resolved.extensions@, ResourceType::Extensions);
    let skills = listed_items(resolved.skills@, ResourceType::Skills);
    let prompts = listed_items(resolved.prompts@, ResourceType::Prompts);
    let themes = listed_items(resolved.themes@, ResourceType::Themes);
    let a = extensions.len() as int;
    let b = a + skills.len();
    let c = b + prompts.len();
    if 0 <= i < extensions.len() {
        assert(all[i] == extensions[i]);
    }
    if 0 <= i < skills.len() {
        assert(all[a + i] == skills[i]);
    }
    if 0 <= i < prompts.len() {
        assert(all[b + i] == prompts[i]);
    }
    if 0 <= i < themes.len() {
        assert(all[c + i] == themes[i]);
    }
}

proof fn lemma_members(items: Seq<ItemView>, key: Seq<char>, kind: ResourceType, item: ItemView)
    ensures
        members(items, key, kind).contains(item) <==> items.contains(item) && item.group_key == key
            && item.resource_type == kind,
        members(items, key, kind).len() <= items.len(),
    decreases items.len(),
{
    if items.len() > 0 {
        let rest = items.drop_last();
        let last = items.last();
        lemma_members(rest, key, kind, item);
        let before = members(rest, key, kind);
        let all = members(items, key, kind);
        assert(items[items.len() - 1] == last);
        if items.contains(item) && item != last {
            assert(rest[items.index_of(item)] == item);
        }
        if rest.contains(item) {
            assert(items[rest.index_of(item)] == item);
        }
        if last.group_key == key && last.resource_type == kind {
            assert(all == before.push(last));
            assert(all[before.len() as int] == last);
            if before.contains(item) {
                assert(all[before.index_of(item)] == item);
            }
            if all.contains(item) {
                let k = all.index_of(item);
                if k < before.len() {
                    assert(before[k] == item);
                }
            }
        }
    }
}

proof fn lemma_by_name(items: Seq<ItemView>)
    requires
        items.len() <= usize::MAX,
    ensures
        by_name(items).len() == items.len(),
        forall|item: ItemView| #[trigger] by_name(items).contains(item) <==> items.contains(item),
        forall|p: int, q: int|
            0 <= p < q < items.len() ==> text_at_most(
                (#[trigger] by_name(items)[p]).display_name,
                (#[trigger] by_name(items)[q]).display_name,
            ),
{
    let keys = items.map_values(|i: ItemView| i.display_name);
    lemma_stable_order_exists::<NameKey>(keys);
    let order = stable_order::<NameKey>(keys);
    assert(is_stable_order::<NameKey>(order, keys));
    lemma_covers(order, items.len());
    let sorted = by_name(items);
    assert forall|item: ItemView| #[trigger] sorted.contains(item) <==> items.contains(item) by {
        if sorted.contains(item) {
            let k = sorted.index_of(item);
            assert(items[order[k] as int] == item);
        }
        if items.contains(item) {
            let k = items.index_of(item);
            assert(order.contains(k as usize));
            let p = order.index_of(k as usize);
            assert(sorted[p] == item);
        }
    }
    assert forall|p: int, q: int| 0 <= p < q < items.len() implies text_at_most(
        (#[trigger] sorted[p]).display_name,
        (#[trigger] sorted[q]).display_name,
    ) by {
        assert(comes_before::<NameKey>(keys, order[p] as int, order[q] as int));
        assert(keys[order[p] as int] == sorted[p].display_name);
        assert(keys[order[q] as int] == sorted[q].display_name);
    }
}

proof fn lemma_sorted_groups(groups: Seq<GroupView>)
    requires
        groups.len() <= usize::MAX,
    ensures
        sorted_groups(groups).len() == groups.len(),
        forall|group: GroupView| #[trigger]
            sorted_groups(groups).contains(group) <==> groups.contains(group),
{
    let keys = groups.map_values(
        |g: GroupView| GroupRank { origin: g.origin, scope: g.scope, source: g.source },
    );
    lemma_stable_order_exists::<GroupKey>(keys);
    let order = stable_order::<GroupKey>(keys);
    assert(is_stable_order::<GroupKey>(order, keys));
    lemma_covers(order, groups.len());
    let sorted = sorted_groups(groups);
    assert forall|group: GroupView| #[trigger] sorted.contains(group) <==> groups.contains(group) by {
        if sorted.contains(group) {
            let k = sorted.index_of(group);
            assert(groups[order[k] as int] == group);
        }
        if groups.contains(group) {
            let k = groups.index_of(group);
            assert(order.contains(k as usize));
            let p = order.index_of(k as usize);
            assert(sorted[p] == group);
        }
    }
}

/// Groups of packages stand before groups of single resources; the user's before the project's, and
/// those for this run last; otherwise they stand by source.
pub proof fn groups_stand_in_order(groups: Seq<GroupView>, p: int, q: int)
    requires
        groups.len() <= usize::MAX,
        0 <= p < q < groups.len(),
    ensures
        ({
            let a = sorted_groups(groups)[p];
            let b = sorted_groups(groups)[q];
            &&& b.origin == ResourceOrigin::Package ==> a.origin == ResourceOrigin::Package
            &&& a.origin == b.origin && b.scope == PackageScope::User ==> a.scope
                == PackageScope::User
            &&& a.origin == b.origin && a.scope == PackageScope::Temporary ==> b.scope
                == PackageScope::Temporary
            &&& a.origin == b.origin && a.scope == b.scope ==> text_at_most(a.source, b.source)
        }),
{
    let keys = groups.map_values(
        |g: GroupView| GroupRank { origin: g.origin, scope: g.scope, source: g.source },
    );
    lemma_stable_order_exists::<GroupKey>(keys);
    let order = stable_order::<GroupKey>(keys);
    assert(is_stable_order::<GroupKey>(order, keys));
    assert(comes_before::<GroupKey>(keys, order[p] as int, order[q] as int));
}

proof fn lemma_group_firsts(items: Seq<ItemView>, n: nat, i: int)
    requires
        0 <= i < n <= items.len(),
    ensures
        exists|k: int|
            0 <= k < group_firsts(items, n).len() && (#[trigger] group_firsts(items, n)[k]).group_key
                == items[i].group_key,
        group_firsts(items, n).len() <= n,
    decreases n,
{
    let all = group_firsts(items, n);
    let before = group_firsts(items, (n - 1) as nat);
    if n > 1 {
        lemma_group_firsts(items, (n - 1) as nat, 0);
    }
    if i < n - 1 {
        lemma_group_firsts(items, (n - 1) as nat, i);
        let k = choose|k: int|
            0 <= k < before.len() && (#[trigger] before[k]).group_key == items[i].group_key;
        assert(all[k] == before[k]);
    } else if has_group(items, items[i].group_key, i) {
        let j = choose|j: int| 0 <= j < i && (#[trigger] items[j]).group_key == items[i].group_key;
        lemma_group_firsts(items, (n - 1) as nat, j);
        let k = choose|k: int|
            0 <= k < before.len() && (#[trigger] before[k]).group_key == items[j].group_key;
        assert(all[k] == before[k]);
    } else {
        assert(all == before.push(items[i]));
        assert(all[before.len() as int] == items[i]);
    }
}

/// Whether the subgroup holds the item as one of its type, among items of that type alone.
pub open spec fn has_place(subgroup: SubgroupView, item: ItemView) -> bool {
    &&& subgroup.resource_type == item.resource_type
    &&& subgroup.label == type_label(item.resource_type)
    &&& subgroup.items.contains(item)
}

/// Whether the groups hold the item: in the group that it belongs to, among the items of its type.
pub open spec fn has_its_place(groups: Seq<GroupView>, item: ItemView) -> bool {
    exists|g: int, s: int|
        {
            &&& 0 <= g < groups.len()
            &&& groups[g].key == item.group_key
            &&& 0 <= s < groups[g].subgroups.len()
            &&& has_place(#[trigger] groups[g].subgroups[s], item)
        }
}

proof fn lemma_place_in_group(
    items: Seq<ItemView>,
    first: ItemView,
    agent_dir: Seq<char>,
    home: Seq<char>,
    item: ItemView,
)
    requires
        items.len() <= usize::MAX,
        items.contains(item),
        item.group_key == first.group_key,
    ensures
        exists|s: int|
            0 <= s < group_of(items, first, agent_dir, home).subgroups.len() && has_place(
                #[trigger] group_of(items, first, agent_dir, home).subgroups[s],
                item,
            ),
{
    let key = first.group_key;
    let kind = item.resource_type;
    lemma_members(items, key, kind, item);
    let inside = members(items, key, kind);
    lemma_by_name(inside);
    assert(by_name(inside).contains(item));
    let own = subgroup_of(items, key, kind);
    assert(inside.len() > 0);
    assert(has_place(own[0], item));
    let e = subgroup_of(items, key, ResourceType::Extensions);
    let s = subgroup_of(items, key, ResourceType::Skills);
    let p = subgroup_of(items, key, ResourceType::Prompts);
    let t = subgroup_of(items, key, ResourceType::Themes);
    let all = group_of(items, first, agent_dir, home).subgroups;
    assert(all =~= e + s + p + t);
    match kind {
        ResourceType::Extensions => {
            assert(all[0] == e[0]);
        },
        ResourceType::Skills => {
            assert(all[e.len() as int] == s[0]);
        },
        ResourceType::Prompts => {
            assert(all[(e.len() + s.len()) as int] == p[0]);
        },
        ResourceType::Themes => {
            assert(all[(e.len() + s.len() + p.len()) as int] == t[0]);
        },
    }
}

/// Every item is listed in the group that it belongs to, among the items of its type.
pub proof fn every_item_has_its_place(
    items: Seq<ItemView>,
    agent_dir: Seq<char>,
    home: Seq<char>,
    i: int,
)
    requires
        0 <= i < items.len() <= usize::MAX,
    ensures
        has_its_place(sorted_groups(found_groups(items, agent_dir, home)), items[i]),
{
    let item = items[i];
    let firsts = group_firsts(items, items.len());
    lemma_group_firsts(items, items.len(), i);
    let k = choose|k: int|
        0 <= k < firsts.len() && (#[trigger] firsts[k]).group_key == item.group_key;
    let found = found_groups(items, agent_dir, home);
    let group = group_of(items, firsts[k], agent_dir, home);
    assert(found[k] == group);
    lemma_sorted_groups(found);
    let groups = sorted_groups(found);
    assert(found.contains(group));
    assert(groups.contains(group));
    let g = groups.index_of(group);
    lemma_place_in_group(items, firsts[k], agent_dir, home, item);
    let s = choose|s: int|
        0 <= s < group.subgroups.len() && has_place(#[trigger] group.subgroups[s], item);
    assert(groups[g] == group);
    assert(has_place(groups[g].subgroups[s], item));
}

/// The items of a subgroup stand by name.
pub proof fn items_stand_by_name(
    items: Seq<ItemView>,
    key: Seq<char>,
    kind: ResourceType,
    p: int,
    q: int,
)
    requires
        items.len() <= usize::MAX,
        subgroup_of(items, key, kind).len() > 0,
        0 <= p < q < subgroup_of(items, key, kind)[0].items.len(),
    ensures
        text_at_most(
            subgroup_of(items, key, kind)[0].items[p].display_name,
            subgroup_of(items, key, kind)[0].items[q].display_name,
        ),
        subgroup_of(items, key, kind)[0].items[p].group_key == key,
        subgroup_of(items, key, kind)[0].items[p].resource_type == kind,
{
    let inside = members(items, key, kind);
    let shown = subgroup_of(items, key, kind)[0].items;
    lemma_members(items, key, kind, shown[p]);
    lemma_by_name(inside);
    assert(shown.contains(shown[p]));
    assert(inside.contains(shown[p]));
}

} // verus!
