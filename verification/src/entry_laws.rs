//! What the entries of the settings mean: which resources they switch on and off, and which packages
//! and filters a change leaves alone.

use crate::resource_settings::{
    entries_state, entry_target, filters_of, next_state, overridden_entries, overridden_filter,
    overridden_packages, package_at, package_source, toggled_entries, toggled_packages, FiltersView,
    PackageView, ProjectOverrideState, SettingsScope, SourcePaths,
};
use crate::resources::ResourceType;
use vstd::prelude::*;

verus! {

/// An entry that starts with a minus or an exclamation mark switches what it names off; one with a plus
/// or without a mark switches it on. Of several entries the last decides.
pub proof fn marks_switch_on_and_off(entries: Seq<Seq<char>>, name: Seq<char>)
    requires
        name.len() > 0,
        name[0] != '+',
        name[0] != '-',
        name[0] != '!',
    ensures
        entries_state(entries.push(seq!['-'] + name), seq![name]) == ProjectOverrideState::Unload,
        entries_state(entries.push(seq!['!'] + name), seq![name]) == ProjectOverrideState::Unload,
        entries_state(entries.push(seq!['+'] + name), seq![name]) == ProjectOverrideState::Load,
        entries_state(entries.push(name), seq![name]) == ProjectOverrideState::Load,
{
    lemma_last_decides(entries, seq!['-'] + name, name);
    lemma_last_decides(entries, seq!['!'] + name, name);
    lemma_last_decides(entries, seq!['+'] + name, name);
    lemma_last_decides(entries, name, name);
}

proof fn lemma_last_decides(entries: Seq<Seq<char>>, entry: Seq<char>, name: Seq<char>)
    requires
        name.len() > 0,
        name[0] != '+' && name[0] != '-' && name[0] != '!',
        entry == name || (entry == seq![entry[0]] + name && (entry[0] == '+' || entry[0] == '-'
            || entry[0] == '!')),
    ensures
        entry_target(entry) == name,
        entries_state(entries.push(entry), seq![name]) == if entry[0] == '-' || entry[0] == '!' {
            ProjectOverrideState::Unload
        } else {
            ProjectOverrideState::Load
        },
{
    let all = entries.push(entry);
    assert(all.last() == entry);
    if entry != name {
        assert(entry.skip(1) =~= name);
    }
    assert(seq![name][0] == name);
    assert(seq![name].contains(name));
}

/// Entries for other names do not matter, and without an entry a project takes over what it inherits.
pub proof fn entries_for_others_do_not_matter(
    entries: Seq<Seq<char>>,
    other: Seq<char>,
    name: Seq<char>,
)
    requires
        entry_target(other) != name,
    ensures
        entries_state(entries.push(other), seq![name]) == entries_state(entries, seq![name]),
        entries_state(Seq::empty(), seq![name]) == ProjectOverrideState::Inherit,
{
    let all = entries.push(other);
    assert(all.last() == other);
    assert(all.drop_last() =~= entries);
    if seq![name].contains(entry_target(other)) {
        assert(false);
    }
}

/// Switching a resource writes its name behind a plus or a minus, at the end, and once.
pub proof fn switching_writes_one_mark(entries: Seq<Seq<char>>, name: Seq<char>, i: int)
    ensures
        toggled_entries(entries, name, true).last() == seq!['+'] + name,
        toggled_entries(entries, name, false).last() == seq!['-'] + name,
        0 <= i < toggled_entries(entries, name, true).len() - 1 ==> entry_target(
            toggled_entries(entries, name, true)[i],
        ) != name,
        overridden_filter(entries, name, ProjectOverrideState::Load).last() == seq!['+'] + name,
        overridden_filter(entries, name, ProjectOverrideState::Unload).last() == seq!['-'] + name,
        0 <= i < overridden_filter(entries, name, ProjectOverrideState::Inherit).len()
            ==> entry_target(overridden_filter(entries, name, ProjectOverrideState::Inherit)[i])
            != name,
{
    lemma_others(entries, name, i);
}

proof fn lemma_others(entries: Seq<Seq<char>>, name: Seq<char>, i: int)
    ensures
        0 <= i < crate::resource_settings::entries_for_others(entries, name).len() ==> entry_target(
            crate::resource_settings::entries_for_others(entries, name)[i],
        ) != name,
    decreases entries.len(),
{
    if entries.len() > 0 {
        lemma_others(entries.drop_last(), name, i);
    }
}

/// Overriding what a project inherits ends with a plus where it is to be loaded and with a minus where it
/// is not.
pub proof fn overrides_end_with_their_mark(
    entries: Seq<Seq<char>>,
    name: Seq<char>,
    names: Seq<Seq<char>>,
    inherited: bool,
)
    ensures
        overridden_entries(entries, name, names, inherited, ProjectOverrideState::Load).last()
            == seq!['+'] + name,
        overridden_entries(entries, name, names, inherited, ProjectOverrideState::Unload).last()
            == seq!['-'] + name,
{
}

/// A resource that is on is first switched off by its project and one that is off on, so that the first
/// press always has an effect.
pub proof fn the_first_override_has_an_effect(inherited: bool)
    ensures
        next_state(ProjectOverrideState::Inherit, inherited) == if inherited {
            ProjectOverrideState::Unload
        } else {
            ProjectOverrideState::Load
        },
{
}

/// Each kind of resource has a filter of its own, and changing one leaves the others.
pub proof fn filters_are_kept_apart(
    filters: FiltersView,
    kind: ResourceType,
    other: ResourceType,
    entries: Seq<Seq<char>>,
)
    ensures
        filters.filter(ResourceType::Extensions) == filters.extensions,
        filters.filter(ResourceType::Skills) == filters.skills,
        filters.filter(ResourceType::Prompts) == filters.prompts,
        filters.filter(ResourceType::Themes) == filters.themes,
        entries.len() > 0 ==> filters.with_filter(kind, entries).filter(kind) == Some(entries),
        entries.len() == 0 ==> filters.with_filter(kind, entries).filter(kind) is None,
        other != kind ==> filters.with_filter(kind, entries).filter(other) == filters.filter(other),
        filters.with_filter(kind, entries).source == filters.source,
        filters.with_filter(kind, entries).autoload_off == filters.autoload_off,
{
}

proof fn lemma_package_at(packages: Seq<PackageView>, source: Seq<char>)
    ensures
        0 <= package_at(packages, source) <= packages.len(),
        package_at(packages, source) < packages.len() ==> package_source(
            packages[package_at(packages, source)],
        ) == Some(source),
        forall|j: int|
            0 <= j < package_at(packages, source) ==> package_source(#[trigger] packages[j]) != Some(
                source,
            ),
    decreases packages.len(),
{
    if packages.len() > 0 && package_source(packages[0]) != Some(source) {
        lemma_package_at(packages.skip(1), source);
        assert forall|j: int| 0 <= j < package_at(packages, source) implies package_source(
            #[trigger] packages[j],
        ) != Some(source) by {
            if j > 0 {
                assert(packages.skip(1)[j - 1] == packages[j]);
            }
        }
    }
}

/// Switching a resource of a package changes the entry of that package and no other, and in it the filter
/// of that kind and no other.
pub proof fn switching_changes_one_package(
    packages: Seq<PackageView>,
    source: Seq<char>,
    kind: ResourceType,
    name: Seq<char>,
    enabled: bool,
    i: int,
)
    requires
        0 <= i < packages.len(),
    ensures
        ({
            let after = toggled_packages(packages, source, kind, name, enabled);
            &&& after.len() == packages.len()
            &&& package_source(packages[i]) != Some(source) ==> after[i] == packages[i]
            &&& package_source(after[i]) == package_source(packages[i])
            &&& package_source(packages[i]) == Some(source) ==> exists|k: int|
                0 <= k <= i && package_source(packages[k]) == Some(source) && #[trigger] after[k]
                    == PackageView::Filtered(
                    filters_of(packages[k]).with_filter(
                        kind,
                        toggled_entries(filters_of(packages[k]).entries(kind), name, enabled),
                    ),
                )
        }),
{
    lemma_package_at(packages, source);
    let k = package_at(packages, source);
    let after = toggled_packages(packages, source, kind, name, enabled);
    if package_source(packages[i]) == Some(source) {
        assert(k <= i);
        assert(after[k] == PackageView::Filtered(
            filters_of(packages[k]).with_filter(
                kind,
                toggled_entries(filters_of(packages[k]).entries(kind), name, enabled),
            ),
        ));
    }
    if i == k {
        assert(package_source(after[i]) == filters_of(packages[i]).source);
    }
}

/// A project that has no entry for a package gets one that loads nothing but what it is told to; taking
/// back what it never said changes nothing.
pub proof fn overrides_add_a_package_once(
    paths: SourcePaths,
    source: Seq<char>,
    scope: SettingsScope,
    new_source: Seq<char>,
    kind: ResourceType,
    name: Seq<char>,
)
    ensures
        overridden_packages(
            paths,
            Seq::empty(),
            source,
            scope,
            new_source,
            kind,
            name,
            ProjectOverrideState::Inherit,
        ) is None,
        ({
            let after = overridden_packages(
                paths,
                Seq::empty(),
                source,
                scope,
                new_source,
                kind,
                name,
                ProjectOverrideState::Load,
            );
            &&& after is Some
            &&& after->0.len() == 1
            &&& after->0[0] is Filtered
            &&& after->0[0]->Filtered_0.source == Some(new_source)
            &&& after->0[0]->Filtered_0.autoload_off
            &&& after->0[0]->Filtered_0.filter(kind) == Some(seq![seq!['+'] + name])
        }),
{
    assert(Seq::<Seq<char>>::empty().push(seq!['+'] + name) =~= seq![seq!['+'] + name]);
}

} // verus!
