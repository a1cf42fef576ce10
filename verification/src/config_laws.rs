//! What the keys of the resource list do: which line they select, what they ask for, and what
//! switching a resource changes.

use crate::config_list::{every_copy_is_updated, list_responded, research, ConfigRequest};
use crate::config_selector::{
    group_lines, is_line, item_lines, item_of, item_scope, kept_lines, next_item, previous_item,
    subgroup_lines, ConfigWriteScope, FlatEntry, ResourceList, SettingsWrite,
};
use crate::keybinding_hints::KeyMatches;
use crate::resource_settings::{
    entries_for_others, entries_state, entry_target, overridden_entries, override_kept,
    toggled_entries, toggling_takes_effect, ProjectOverrideState, SettingsScope,
};
use crate::resources::{type_key, GroupView, ItemView, ResourceOrigin, SubgroupView};
use crate::text::{is_blank, lemma_find_from, lowercase, occurs_at};
use vstd::prelude::*;

verus! {

/// Whether `to` is the item nearest above `from`, or `from` itself where no item is above it.
pub open spec fn is_item_above(lines: Seq<FlatEntry>, from: int, to: int) -> bool {
    if exists|j: int| 0 <= j < from && lines[j] is Item {
        &&& 0 <= to < from
        &&& lines[to] is Item
        &&& forall|j: int| to < j < from ==> !(#[trigger] lines[j] is Item)
    } else {
        to == from
    }
}

/// Whether `to` is the item nearest below `from`, or `from` itself where no item is below it.
pub open spec fn is_item_below(lines: Seq<FlatEntry>, from: int, to: int) -> bool {
    if exists|j: int| from < j < lines.len() && lines[j] is Item {
        &&& from < to < lines.len()
        &&& lines[to] is Item
        &&& forall|j: int| from < j < to ==> !(#[trigger] lines[j] is Item)
    } else {
        to == from
    }
}

proof fn lemma_previous_item(lines: Seq<FlatEntry>, from: int)
    requires
        -1 <= from < lines.len(),
    ensures
        -1 <= previous_item(lines, from) <= from,
        previous_item(lines, from) >= 0 ==> lines[previous_item(lines, from)] is Item,
        forall|j: int|
            previous_item(lines, from) < j <= from ==> !(#[trigger] lines[j] is Item),
    decreases from + 1,
{
    if from >= 0 && !(lines[from] is Item) {
        lemma_previous_item(lines, from - 1);
    }
}

proof fn lemma_next_item(lines: Seq<FlatEntry>, from: int)
    requires
        0 <= from <= lines.len(),
    ensures
        from <= next_item(lines, from) <= lines.len(),
        next_item(lines, from) < lines.len() ==> lines[next_item(lines, from)] is Item,
        forall|j: int| from <= j < next_item(lines, from) ==> !(#[trigger] lines[j] is Item),
    decreases lines.len() - from,
{
    if from < lines.len() && !(lines[from] is Item) {
        lemma_next_item(lines, from + 1);
    }
}

/// The up key selects the nearest item above the selection and the down key the nearest below it; at
/// the ends the selection stays. Neither changes anything else.
pub proof fn arrows_select_the_neighbouring_item(
    before: ResourceList,
    after: ResourceList,
    key: KeyMatches,
    data: Seq<char>,
    request: ConfigRequest,
)
    requires
        before.wf(),
        before.filtered_items@.len() > 0,
        list_responded(before, after, key, data, request),
        key.has("tui.select.up"@) || key.has("tui.select.down"@),
    ensures
        request == ConfigRequest::Nothing,
        after.filtered_items == before.filtered_items,
        after.groups() == before.groups(),
        after.global_settings == before.global_settings,
        after.project_settings == before.project_settings,
        key.has("tui.select.up"@) ==> is_item_above(
            before.filtered_items@,
            before.selected_index as int,
            after.selected_index as int,
        ),
        !key.has("tui.select.up"@) ==> is_item_below(
            before.filtered_items@,
            before.selected_index as int,
            after.selected_index as int,
        ),
{
    let lines = before.filtered_items@;
    let at = before.selected_index as int;
    lemma_previous_item(lines, at - 1);
    lemma_next_item(lines, at + 1);
}

/// The up key after a down key that moved the selection brings it back.
pub proof fn up_brings_back_what_down_left(
    a: ResourceList,
    b: ResourceList,
    c: ResourceList,
    down: KeyMatches,
    up: KeyMatches,
    down_data: Seq<char>,
    up_data: Seq<char>,
    first: ConfigRequest,
    second: ConfigRequest,
)
    requires
        a.wf(),
        b.wf(),
        a.selected_item() is Some,
        !down.has("tui.select.up"@),
        down.has("tui.select.down"@),
        up.has("tui.select.up"@),
        list_responded(a, b, down, down_data, first),
        list_responded(b, c, up, up_data, second),
        b.selected_index != a.selected_index,
    ensures
        c.selected_index == a.selected_index,
{
    arrows_select_the_neighbouring_item(a, b, down, down_data, first);
    arrows_select_the_neighbouring_item(b, c, up, up_data, second);
    let lines = a.filtered_items@;
    let at = a.selected_index as int;
    let below = b.selected_index as int;
    assert(lines[at] is Item);
    assert(0 <= at < below);
    if c.selected_index > at {
        assert(lines[c.selected_index as int] is Item);
    }
}

/// A page key selects the item nearest to the line that is a page away, on the near side of it; the
/// selection moves over no more than a page.
pub proof fn pages_move_over_a_page(
    before: ResourceList,
    after: ResourceList,
    key: KeyMatches,
    data: Seq<char>,
    request: ConfigRequest,
)
    requires
        before.wf(),
        before.selected_item() is Some,
        list_responded(before, after, key, data, request),
        !key.has("tui.select.up"@),
        !key.has("tui.select.down"@),
        key.has("tui.select.pageUp"@) || key.has("tui.select.pageDown"@),
    ensures
        request == ConfigRequest::Nothing,
        after.selected_item() is Some,
        ({
            let lines = before.filtered_items@;
            let from = before.selected_index as int;
            let to = after.selected_index as int;
            let page = before.max_visible as int;
            if key.has("tui.select.pageUp"@) {
                &&& to <= from
                &&& from - to <= page
                &&& forall|j: int|
                    0 <= j < to && from - page <= j ==> !(#[trigger] lines[j] is Item)
            } else {
                &&& from <= to
                &&& to - from <= page
                &&& forall|j: int|
                    to < j < lines.len() && j <= from + page ==> !(#[trigger] lines[j] is Item)
            }
        }),
{
    let lines = before.filtered_items@;
    let at = before.selected_index as int;
    let page = before.max_visible as int;
    let up = if at > page {
        at - page
    } else {
        0
    };
    let down = if at + page < lines.len() - 1 {
        at + page
    } else {
        lines.len() - 1
    };
    lemma_next_item(lines, up);
    lemma_previous_item(lines, down);
    assert(lines[at] is Item);
    assert(next_item(lines, up) <= at) by {
        if next_item(lines, up) > at {
            assert(!(lines[at] is Item));
        }
    }
    assert(previous_item(lines, down) >= at) by {
        if previous_item(lines, down) < at {
            assert(!(lines[at] is Item));
        }
    }
    assert(after.groups() == before.groups());
}

/// Keys that do not move the selection ask for what they are for, and leave the list as it is.
pub proof fn keys_ask_for_what_they_are_for(
    before: ResourceList,
    after: ResourceList,
    key: KeyMatches,
    data: Seq<char>,
    request: ConfigRequest,
)
    requires
        list_responded(before, after, key, data, request),
        !key.has("tui.select.up"@),
        !key.has("tui.select.down"@),
        !key.has("tui.select.pageUp"@),
        !key.has("tui.select.pageDown"@),
    ensures
        (request == ConfigRequest::Close) == key.has("tui.select.cancel"@),
        (request == ConfigRequest::Exit) == (key.has("ctrl+c"@) && !key.has("tui.select.cancel"@)),
        (request == ConfigRequest::SwitchMode) == (key.has("tui.input.tab"@) && !key.has(
            "tui.select.cancel"@,
        ) && !key.has("ctrl+c"@)),
        request is Toggled ==> data == " "@ || key.has("tui.select.confirm"@),
        request == ConfigRequest::Edit ==> data != " "@ && !key.has("tui.select.confirm"@),
        !(request is Toggled) ==> after.groups() == before.groups() && after.global_settings
            == before.global_settings && after.selected_index == before.selected_index,
{
}

/// In the global settings the space key turns the selected resource from on to off and from off to on,
/// wherever the list shows it, and leaves every other resource as it is. A project's own resources
/// cannot be switched there.
pub proof fn space_switches_the_selected_resource(
    before: ResourceList,
    after: ResourceList,
    key: KeyMatches,
    data: Seq<char>,
    request: ConfigRequest,
    g: usize,
    s: usize,
    i: usize,
)
    requires
        before.wf(),
        before.write_scope == ConfigWriteScope::Global,
        before.selected_item() is Some,
        list_responded(before, after, key, data, request),
        !key.has("tui.select.up"@),
        !key.has("tui.select.down"@),
        !key.has("tui.select.pageUp"@),
        !key.has("tui.select.pageDown"@),
        !key.has("tui.select.cancel"@),
        !key.has("ctrl+c"@),
        !key.has("tui.input.tab"@),
        data == " "@ || key.has("tui.select.confirm"@),
        is_line(before.groups(), FlatEntry::Item(g, s, i)),
    ensures
        ({
            let item = before.selected_item()->0;
            let was = item_of(before.groups(), g, s, i);
            let is = item_of(after.groups(), g, s, i);
            &&& after.project_settings@ == before.project_settings@
            &&& after.selected_index == before.selected_index
            &&& if item_scope(item) == SettingsScope::User {
                &&& request is Toggled
                &&& after.selected_item() == Some(ItemView { enabled: !item.enabled, ..item })
                &&& is == ItemView { enabled: is.enabled, ..was }
                &&& is.enabled == if was.path == item.path && was.resource_type
                    == item.resource_type {
                    !item.enabled
                } else {
                    was.enabled
                }
                &&& item.metadata.origin == ResourceOrigin::TopLevel ==> entries_state(
                    after.global_settings@.entries(item.resource_type),
                    seq![before.context().resource_pattern(item)],
                ) == if item.enabled {
                    ProjectOverrideState::Unload
                } else {
                    ProjectOverrideState::Load
                }
            } else {
                request == ConfigRequest::Nothing && is == was && after.global_settings
                    == before.global_settings
            }
        }),
{
    let item = before.selected_item()->0;
    if item_scope(item) == SettingsScope::User {
        every_copy_is_updated(
            before.groups(),
            item.path,
            item.resource_type,
            !item.enabled,
            g,
            s,
            i,
        );
        match before.filtered_items@[before.selected_index as int] {
            FlatEntry::Item(h, t, k) => {
                every_copy_is_updated(
                    before.groups(),
                    item.path,
                    item.resource_type,
                    !item.enabled,
                    h,
                    t,
                    k,
                );
            },
            _ => {},
        }
        toggling_takes_effect(
            before.global_settings@.entries(item.resource_type),
            before.context().resource_pattern(item),
            !item.enabled,
        );
    }
}

/// In a project's settings the space key only ever changes what the project says: the global settings
/// and what they list stay as they are.
pub proof fn projects_leave_the_global_settings(
    before: ResourceList,
    after: ResourceList,
    key: KeyMatches,
    data: Seq<char>,
    request: ConfigRequest,
)
    requires
        before.write_scope == ConfigWriteScope::Project,
        list_responded(before, after, key, data, request),
    ensures
        after.global_settings == before.global_settings,
        after.groups_global == before.groups_global,
        request is Toggled ==> (request->Toggled_0 matches SettingsWrite::Paths(scope, _) ==> scope
            == SettingsScope::Project) && (request->Toggled_0 matches SettingsWrite::Packages(scope)
            ==> scope == SettingsScope::Project) && !(request->Toggled_0 is Nothing),
{
}

proof fn lemma_item_lines(g: usize, s: usize, n: nat, i: usize)
    requires
        i < n,
        n <= usize::MAX,
    ensures
        item_lines(g, s, n).contains(FlatEntry::Item(g, s, i)),
{
    assert(item_lines(g, s, n)[i as int] == FlatEntry::Item(g, s, i));
}

proof fn lemma_subgroup_has_lines(
    g: usize,
    subgroups: Seq<SubgroupView>,
    n: nat,
    s: usize,
    i: usize,
)
    requires
        s < n <= subgroups.len() <= usize::MAX,
        i < subgroups[s as int].items.len() <= usize::MAX,
    ensures
        subgroup_lines(g, subgroups, n).contains(FlatEntry::Item(g, s, i)),
    decreases n,
{
    let all = subgroup_lines(g, subgroups, n);
    let before = subgroup_lines(g, subgroups, (n - 1) as nat);
    let head = before.push(FlatEntry::Subgroup(g, (n - 1) as usize));
    let tail = item_lines(g, (n - 1) as usize, subgroups[n - 1].items.len());
    if s == n - 1 {
        lemma_item_lines(g, s, subgroups[s as int].items.len(), i);
        let k = tail.index_of(FlatEntry::Item(g, s, i));
        assert(all[head.len() + k] == tail[k]);
    } else {
        lemma_subgroup_has_lines(g, subgroups, (n - 1) as nat, s, i);
        let k = before.index_of(FlatEntry::Item(g, s, i));
        assert(all[k] == before[k]);
    }
}

/// Every resource of the groups has a line in the list.
pub proof fn every_resource_is_listed(groups: Seq<GroupView>, n: nat, g: usize, s: usize, i: usize)
    requires
        g < n <= groups.len() <= usize::MAX,
        s < groups[g as int].subgroups.len() <= usize::MAX,
        i < groups[g as int].subgroups[s as int].items.len() <= usize::MAX,
    ensures
        group_lines(groups, n).contains(FlatEntry::Item(g, s, i)),
    decreases n,
{
    let all = group_lines(groups, n);
    let before = group_lines(groups, (n - 1) as nat);
    let head = before.push(FlatEntry::Group((n - 1) as usize));
    let subgroups = groups[n - 1].subgroups;
    let tail = subgroup_lines((n - 1) as usize, subgroups, subgroups.len());
    if g == n - 1 {
        lemma_subgroup_has_lines(g, subgroups, subgroups.len(), s, i);
        let k = tail.index_of(FlatEntry::Item(g, s, i));
        assert(all[head.len() + k] == tail[k]);
    } else {
        every_resource_is_listed(groups, (n - 1) as nat, g, s, i);
        let k = before.index_of(FlatEntry::Item(g, s, i));
        assert(all[k] == before[k]);
    }
}

/// Whether the text holds the other, in any case of letters.
pub open spec fn holds(text: Seq<char>, part: Seq<char>) -> bool {
    exists|k: int|
        0 <= k <= lowercase(text).len() - lowercase(part).len() && #[trigger] occurs_at(
            lowercase(text),
            lowercase(part),
            k,
        )
}

proof fn lemma_kept_lines(
    groups: Seq<GroupView>,
    lines: Seq<FlatEntry>,
    query: Seq<char>,
    entry: FlatEntry,
)
    ensures
        kept_lines(groups, lines, query).contains(entry) <==> lines.contains(entry)
            && crate::config_selector::keeps_line(groups, entry, query),
    decreases lines.len(),
{
    if lines.len() > 0 {
        let rest = lines.drop_last();
        let last = lines.last();
        lemma_kept_lines(groups, rest, query, entry);
        let before = kept_lines(groups, rest, query);
        let kept = kept_lines(groups, lines, query);
        if lines.contains(entry) && entry != last {
            let k = lines.index_of(entry);
            assert(rest[k] == entry);
        }
        if rest.contains(entry) {
            let k = rest.index_of(entry);
            assert(lines[k] == entry);
        }
        assert(lines[lines.len() - 1] == last);
        if kept.len() > before.len() {
            assert(kept == before.push(last));
            if before.contains(entry) {
                assert(kept[before.index_of(entry)] == entry);
            }
            assert(kept[before.len() as int] == last);
            if kept.contains(entry) {
                let k = kept.index_of(entry);
                if k < before.len() {
                    assert(before[k] == entry);
                }
            }
        }
    }
}

/// A search lists exactly the resources whose name, type or path holds what is searched for, and the
/// first of them is selected.
pub proof fn search_lists_what_holds_the_query(
    before: ResourceList,
    after: ResourceList,
    g: usize,
    s: usize,
    i: usize,
)
    requires
        research(before, after),
        is_line(before.groups(), FlatEntry::Item(g, s, i)),
        before.groups().len() <= usize::MAX,
        before.groups()[g as int].subgroups.len() <= usize::MAX,
        before.groups()[g as int].subgroups[s as int].items.len() <= usize::MAX,
    ensures
        ({
            let item = item_of(before.groups(), g, s, i);
            let query = before.query@;
            let shown = after.filtered_items@;
            &&& shown.contains(FlatEntry::Item(g, s, i)) <==> is_blank(query) || holds(
                item.display_name,
                query,
            ) || holds(type_key(item.resource_type), query) || holds(item.path, query)
            &&& shown.contains(FlatEntry::Item(g, s, i)) ==> after.selected_item() is Some && forall|
                j: int,
            |
                0 <= j < after.selected_index ==> !(#[trigger] shown[j] is Item)
        }),
{
    let groups = before.groups();
    let item = item_of(groups, g, s, i);
    let query = before.query@;
    let entry = FlatEntry::Item(g, s, i);
    let lines = group_lines(groups, groups.len());
    every_resource_is_listed(groups, groups.len(), g, s, i);
    lemma_kept_lines(groups, lines, query, entry);
    let needle = lowercase(query);
    lemma_find_from(lowercase(item.display_name), needle, 0);
    lemma_find_from(lowercase(type_key(item.resource_type)), needle, 0);
    lemma_find_from(lowercase(item.path), needle, 0);
    let shown = after.filtered_items@;
    lemma_next_item(shown, 0);
    if shown.contains(entry) {
        let k = shown.index_of(entry);
        assert(shown[k] is Item);
        assert(next_item(shown, 0) <= k);
    }
}

proof fn lemma_others_stay(entries: Seq<Seq<char>>, pattern: Seq<char>, entry: Seq<char>)
    ensures
        entries_for_others(entries, pattern).contains(entry) <==> entries.contains(entry)
            && entry_target(entry) != pattern,
    decreases entries.len(),
{
    if entries.len() > 0 {
        let rest = entries.drop_last();
        let last = entries.last();
        lemma_others_stay(rest, pattern, entry);
        let before = entries_for_others(rest, pattern);
        let all = entries_for_others(entries, pattern);
        assert(entries[entries.len() - 1] == last);
        if entries.contains(entry) && entry != last {
            assert(rest[entries.index_of(entry)] == entry);
        }
        if rest.contains(entry) {
            assert(entries[rest.index_of(entry)] == entry);
        }
        if entry_target(last) != pattern {
            assert(all == before.push(last));
            if before.contains(entry) {
                assert(all[before.index_of(entry)] == entry);
            }
            assert(all[before.len() as int] == last);
            if all.contains(entry) {
                let k = all.index_of(entry);
                if k < before.len() {
                    assert(before[k] == entry);
                }
            }
        }
    }
}

/// Switching a resource keeps what the settings say of every other one, and leaves one entry for the
/// resource itself.
pub proof fn switching_keeps_other_entries(
    entries: Seq<Seq<char>>,
    pattern: Seq<char>,
    enabled: bool,
    entry: Seq<char>,
)
    ensures
        entry_target(entry) != pattern ==> (toggled_entries(entries, pattern, enabled).contains(entry)
            <==> entries.contains(entry)),
        entry_target(entry) == pattern ==> (toggled_entries(entries, pattern, enabled).contains(entry)
            <==> entry == if enabled {
            seq!['+'] + pattern
        } else {
            seq!['-'] + pattern
        }),
{
    lemma_others_stay(entries, pattern, entry);
    let others = entries_for_others(entries, pattern);
    let all = toggled_entries(entries, pattern, enabled);
    let mark = all.last();
    assert(entry_target(mark) =~= pattern);
    assert(all[others.len() as int] == mark);
    if others.contains(entry) {
        assert(all[others.index_of(entry)] == entry);
    }
    if all.contains(entry) {
        let k = all.index_of(entry);
        if k < others.len() {
            assert(others[k] == entry);
        }
    }
}

proof fn lemma_override_kept(
    entries: Seq<Seq<char>>,
    pattern: Seq<char>,
    patterns: Seq<Seq<char>>,
    inherited: bool,
    state: ProjectOverrideState,
    entry: Seq<char>,
)
    requires
        patterns.contains(pattern),
        !patterns.contains(entry_target(entry)),
        entries.contains(entry),
    ensures
        override_kept(entries, pattern, patterns, inherited, state).contains(entry),
    decreases entries.len(),
{
    let rest = entries.drop_last();
    let last = entries.last();
    let before = override_kept(rest, pattern, patterns, inherited, state);
    let all = override_kept(entries, pattern, patterns, inherited, state);
    let k = entries.index_of(entry);
    if k < rest.len() {
        assert(rest[k] == entry);
        lemma_override_kept(rest, pattern, patterns, inherited, state, entry);
        assert(all[before.index_of(entry)] == entry);
    } else {
        assert(entry_target(entry) != pattern);
        assert(all == before.push(last));
        assert(all[before.len() as int] == entry);
    }
}

/// Overriding a resource in a project keeps what the project says of every other one.
pub proof fn overriding_keeps_other_entries(
    entries: Seq<Seq<char>>,
    pattern: Seq<char>,
    patterns: Seq<Seq<char>>,
    inherited: bool,
    state: ProjectOverrideState,
    entry: Seq<char>,
)
    requires
        patterns.contains(pattern),
        !patterns.contains(entry_target(entry)),
        entries.contains(entry),
    ensures
        overridden_entries(entries, pattern, patterns, inherited, state).contains(entry),
{
    lemma_override_kept(entries, pattern, patterns, inherited, state, entry);
    let kept = override_kept(entries, pattern, patterns, inherited, state);
    let all = overridden_entries(entries, pattern, patterns, inherited, state);
    assert(all[kept.index_of(entry)] == entry);
}

} // verus!
