//! Enabling and disabling resources in the settings: patterns, and overrides
//! of global resources in a project.

use crate::resources::{is_local, is_local_path, ResourceType};
use crate::session::CanonicalPaths;
use crate::text::{
    chars_of, copy_texts, push_char, push_text, str_eq, string_of, texts, trim, trim_str,
};
use vstd::prelude::*;
use vstd::slice::slice_subrange;
use vstd::string::*;

verus! {

broadcast use vstd::string::group_string_axioms;

/// Which settings file is meant.
#[derive(Clone, Copy, Debug, PartialEq, Eq, Structural)]
pub enum SettingsScope {
    User,
    Project,
}

/// What a project says of a resource.
#[derive(Clone, Copy, Debug, PartialEq, Eq, Structural)]
pub enum ProjectOverrideState {
    Inherit,
    Load,
    Unload,
}

/// Whether the entry starts with one of the marks `!`, `+` and `-`.
pub open spec fn is_marked(entry: Seq<char>) -> bool {
    entry.len() > 0 && (entry[0] == '!' || entry[0] == '+' || entry[0] == '-')
}

/// The entry without its mark.
pub open spec fn entry_target(entry: Seq<char>) -> Seq<char> {
    if is_marked(entry) {
        entry.skip(1)
    } else {
        entry
    }
}

/// Whether the entry excludes what it names.
pub open spec fn excludes(entry: Seq<char>) -> bool {
    entry.len() > 0 && (entry[0] == '!' || entry[0] == '-')
}

fn first_char(s: &str) -> (r: Option<char>)
    ensures
        match r {
            Some(c) => s@.len() > 0 && s@[0] == c,
            None => s@.len() == 0,
        },
{
    let chars = chars_of(s);
    if chars.len() > 0 {
        Some(chars[0])
    } else {
        None
    }
}

fn check_marked(entry: &str) -> (r: bool)
    ensures
        r == is_marked(entry@),
{
    match first_char(entry) {
        Some(c) => c == '!' || c == '+' || c == '-',
        None => false,
    }
}

/// The entry without its mark.
pub fn pattern_entry_target(entry: &str) -> (r: String)
    ensures
        r@ == entry_target(entry@),
{
    if check_marked(entry) {
        let chars = chars_of(entry);
        let rest = slice_subrange(chars.as_slice(), 1, chars.len());
        assert(rest@ =~= entry@.skip(1));
        string_of(rest)
    } else {
        entry.to_owned()
    }
}

/// What the entries say of a resource with the given patterns: the last entry for one of them counts.
pub open spec fn entries_state(
    entries: Seq<Seq<char>>,
    patterns: Seq<Seq<char>>,
) -> ProjectOverrideState
    decreases entries.len(),
{
    if entries.len() == 0 {
        ProjectOverrideState::Inherit
    } else if patterns.contains(entry_target(entries.last())) {
        if excludes(entries.last()) {
            ProjectOverrideState::Unload
        } else {
            ProjectOverrideState::Load
        }
    } else {
        entries_state(entries.drop_last(), patterns)
    }
}

fn contains_text(list: &Vec<String>, s: &str) -> (r: bool)
    ensures
        r == texts(list@).contains(s@),
{
    let mut i: usize = 0;
    while i < list.len()
        invariant
            i <= list.len(),
            forall|j: int| 0 <= j < i ==> #[trigger] texts(list@)[j] != s@,
        decreases list.len() - i,
    {
        assert(texts(list@)[i as int] == list@[i as int]@);
        if str_eq(list[i].as_str(), s) {
            return true;
        }
        i = i + 1;
    }
    false
}

/// What the entries say of a resource with the given patterns. An empty list can mean that nothing
/// is loaded.
pub fn override_state_from_entries(
    entries: &Vec<String>,
    patterns: &Vec<String>,
    empty_array_is_unload: bool,
) -> (r: ProjectOverrideState)
    ensures
        r == if entries@.len() == 0 && empty_array_is_unload {
            ProjectOverrideState::Unload
        } else {
            entries_state(texts(entries@), texts(patterns@))
        },
{
    if entries.len() == 0 && empty_array_is_unload {
        return ProjectOverrideState::Unload;
    }
    let ghost all = texts(entries@);
    let mut state = ProjectOverrideState::Inherit;
    let mut i: usize = 0;
    assert(all.take(0) =~= Seq::empty());
    while i < entries.len()
        invariant
            i <= entries.len(),
            all == texts(entries@),
            state == entries_state(all.take(i as int), texts(patterns@)),
        decreases entries.len() - i,
    {
        assert(all.take(i as int + 1).drop_last() =~= all.take(i as int));
        assert(all.take(i as int + 1).last() == entries@[i as int]@);
        let entry = entries[i].as_str();
        let target = pattern_entry_target(entry);
        if contains_text(patterns, target.as_str()) {
            let out = match first_char(entry) {
                Some(c) => c == '!' || c == '-',
                None => false,
            };
            state = if out {
                ProjectOverrideState::Unload
            } else {
                ProjectOverrideState::Load
            };
        }
        i = i + 1;
    }
    assert(all.take(i as int) =~= all);
    state
}

/// The state after the next press: around inherit, the opposite of what is inherited, and what is
/// inherited made explicit.
pub open spec fn next_state(state: ProjectOverrideState, inherited: bool) -> ProjectOverrideState {
    match state {
        ProjectOverrideState::Inherit => if inherited {
            ProjectOverrideState::Unload
        } else {
            ProjectOverrideState::Load
        },
        ProjectOverrideState::Unload => if inherited {
            ProjectOverrideState::Load
        } else {
            ProjectOverrideState::Inherit
        },
        ProjectOverrideState::Load => if inherited {
            ProjectOverrideState::Inherit
        } else {
            ProjectOverrideState::Unload
        },
    }
}

/// Three presses go through all the states and come back; the first press on an inherited resource
/// changes whether it is loaded.
pub proof fn override_states_cycle(state: ProjectOverrideState, inherited: bool)
    ensures
        next_state(next_state(next_state(state, inherited), inherited), inherited) == state,
        next_state(state, inherited) != state,
        next_state(next_state(state, inherited), inherited) != state,
        state == ProjectOverrideState::Inherit ==> next_state(state, inherited) == if inherited {
            ProjectOverrideState::Unload
        } else {
            ProjectOverrideState::Load
        },
{
}

/// The state after the next press.
pub fn next_override_state(state: ProjectOverrideState, inherited_enabled: bool) -> (r:
    ProjectOverrideState)
    ensures
        r == next_state(state, inherited_enabled),
{
    match state {
        ProjectOverrideState::Inherit => if inherited_enabled {
            ProjectOverrideState::Unload
        } else {
            ProjectOverrideState::Load
        },
        ProjectOverrideState::Unload => if inherited_enabled {
            ProjectOverrideState::Load
        } else {
            ProjectOverrideState::Inherit
        },
        ProjectOverrideState::Load => if inherited_enabled {
            ProjectOverrideState::Inherit
        } else {
            ProjectOverrideState::Unload
        },
    }
}

/// The entries that are not for the pattern.
pub open spec fn entries_for_others(entries: Seq<Seq<char>>, pattern: Seq<char>) -> Seq<Seq<char>>
    decreases entries.len(),
{
    if entries.len() == 0 {
        Seq::empty()
    } else {
        let before = entries_for_others(entries.drop_last(), pattern);
        if entry_target(entries.last()) != pattern {
            before.push(entries.last())
        } else {
            before
        }
    }
}

/// The mark that loads or unloads.
pub open spec fn marked(pattern: Seq<char>, load: bool) -> Seq<char> {
    if load {
        seq!['+'] + pattern
    } else {
        seq!['-'] + pattern
    }
}

fn mark(pattern: &str, load: bool) -> (r: String)
    ensures
        r@ == marked(pattern@, load),
{
    let mut r = String::new();
    push_char(
        &mut r,
        if load {
            '+'
        } else {
            '-'
        },
    );
    r.append(pattern);
    assert(r@ =~= marked(pattern@, load));
    r
}

fn without_pattern(entries: &Vec<String>, pattern: &str) -> (r: Vec<String>)
    ensures
        texts(r@) == entries_for_others(texts(entries@), pattern@),
{
    let ghost all = texts(entries@);
    let mut r: Vec<String> = Vec::new();
    let mut i: usize = 0;
    assert(all.take(0) =~= Seq::empty());
    while i < entries.len()
        invariant
            i <= entries.len(),
            all == texts(entries@),
            texts(r@) =~= entries_for_others(all.take(i as int), pattern@),
        decreases entries.len() - i,
    {
        assert(all.take(i as int + 1).drop_last() =~= all.take(i as int));
        assert(all.take(i as int + 1).last() == entries@[i as int]@);
        let target = pattern_entry_target(entries[i].as_str());
        if !str_eq(target.as_str(), pattern) {
            push_text(&mut r, entries[i].clone());
        }
        i = i + 1;
    }
    assert(all.take(i as int) =~= all);
    r
}

/// The entries with the pattern enabled or disabled: nothing else is left for it.
pub open spec fn toggled_entries(
    entries: Seq<Seq<char>>,
    pattern: Seq<char>,
    enabled: bool,
) -> Seq<Seq<char>> {
    entries_for_others(entries, pattern).push(marked(pattern, enabled))
}

/// The entries with the pattern enabled or disabled.
pub fn toggle_entries(entries: &Vec<String>, pattern: &str, enabled: bool) -> (r: Vec<String>)
    ensures
        texts(r@) == toggled_entries(texts(entries@), pattern@, enabled),
{
    let mut r = without_pattern(entries, pattern);
    push_text(&mut r, mark(pattern, enabled));
    r
}

/// Toggling writes what was asked for: afterwards the entries load the pattern if and only if it was
/// enabled.
pub proof fn toggling_takes_effect(entries: Seq<Seq<char>>, pattern: Seq<char>, enabled: bool)
    ensures
        entries_state(toggled_entries(entries, pattern, enabled), seq![pattern]) == if enabled {
            ProjectOverrideState::Load
        } else {
            ProjectOverrideState::Unload
        },
{
    let all = toggled_entries(entries, pattern, enabled);
    assert(all.last() == marked(pattern, enabled));
    assert(entry_target(marked(pattern, enabled)) =~= pattern);
    assert(seq![pattern].contains(pattern)) by {
        assert(seq![pattern][0] == pattern);
    }
}

/// Whether an override of a top-level resource keeps the entry: entries with a mark go when they are
/// for one of the patterns; going back to inherited also drops the pinned path.
pub open spec fn override_keeps(
    entry: Seq<char>,
    pattern: Seq<char>,
    patterns: Seq<Seq<char>>,
    is_inherited: bool,
    state: ProjectOverrideState,
) -> bool {
    let target = entry_target(entry);
    !(is_marked(entry) && patterns.contains(target)) && !(state == ProjectOverrideState::Inherit
        && is_inherited && target == pattern)
}

/// The entries that an override of a top-level resource keeps.
pub open spec fn override_kept(
    entries: Seq<Seq<char>>,
    pattern: Seq<char>,
    patterns: Seq<Seq<char>>,
    is_inherited: bool,
    state: ProjectOverrideState,
) -> Seq<Seq<char>>
    decreases entries.len(),
{
    if entries.len() == 0 {
        Seq::empty()
    } else {
        let before = override_kept(entries.drop_last(), pattern, patterns, is_inherited, state);
        if override_keeps(entries.last(), pattern, patterns, is_inherited, state) {
            before.push(entries.last())
        } else {
            before
        }
    }
}

/// The entries after a top-level resource is overridden: an inherited resource is pinned by its path
/// before it is marked.
pub open spec fn overridden_entries(
    entries: Seq<Seq<char>>,
    pattern: Seq<char>,
    patterns: Seq<Seq<char>>,
    is_inherited: bool,
    state: ProjectOverrideState,
) -> Seq<Seq<char>> {
    let kept = override_kept(entries, pattern, patterns, is_inherited, state);
    if state == ProjectOverrideState::Inherit {
        kept
    } else {
        let pinned = if is_inherited && !kept.contains(pattern) {
            kept.push(pattern)
        } else {
            kept
        };
        pinned.push(marked(pattern, state == ProjectOverrideState::Load))
    }
}

/// The entries after a top-level resource is overridden.
pub fn override_entries(
    entries: &Vec<String>,
    pattern: &str,
    patterns: &Vec<String>,
    is_inherited: bool,
    state: ProjectOverrideState,
) -> (r: Vec<String>)
    ensures
        texts(r@) == overridden_entries(
            texts(entries@),
            pattern@,
            texts(patterns@),
            is_inherited,
            state,
        ),
{
    let ghost all = texts(entries@);
    let mut r: Vec<String> = Vec::new();
    let mut i: usize = 0;
    assert(all.take(0) =~= Seq::empty());
    while i < entries.len()
        invariant
            i <= entries.len(),
            all == texts(entries@),
            texts(r@) =~= override_kept(
                all.take(i as int),
                pattern@,
                texts(patterns@),
                is_inherited,
                state,
            ),
        decreases entries.len() - i,
    {
        assert(all.take(i as int + 1).drop_last() =~= all.take(i as int));
        assert(all.take(i as int + 1).last() == entries@[i as int]@);
        let entry = entries[i].as_str();
        let target = pattern_entry_target(entry);
        let replaced = check_marked(entry) && contains_text(patterns, target.as_str());
        let unpinned = state == ProjectOverrideState::Inherit && is_inherited && str_eq(
            target.as_str(),
            pattern,
        );
        if !replaced && !unpinned {
            push_text(&mut r, entries[i].clone());
        }
        i = i + 1;
    }
    assert(all.take(i as int) =~= all);
    if state != ProjectOverrideState::Inherit {
        if is_inherited && !contains_text(&r, pattern) {
            push_text(&mut r, pattern.to_owned());
        }
        push_text(&mut r, mark(pattern, state == ProjectOverrideState::Load));
    }
    r
}

/// Overriding takes effect: the entries then say the state that was asked for.
pub proof fn overriding_takes_effect(
    entries: Seq<Seq<char>>,
    pattern: Seq<char>,
    patterns: Seq<Seq<char>>,
    is_inherited: bool,
    state: ProjectOverrideState,
)
    requires
        state != ProjectOverrideState::Inherit,
        patterns.contains(pattern),
    ensures
        entries_state(
            overridden_entries(entries, pattern, patterns, is_inherited, state),
            patterns,
        ) == state,
{
    let all = overridden_entries(entries, pattern, patterns, is_inherited, state);
    let load = state == ProjectOverrideState::Load;
    assert(all.last() == marked(pattern, load));
    assert(entry_target(marked(pattern, load)) =~= pattern);
}

/// A package with filters on its resources.
#[derive(Debug)]
pub struct PackageFilters {
    pub source: Option<String>,
    /// Whether the package states that it does not load by itself.
    pub autoload_off: bool,
    pub extensions: Option<Vec<String>>,
    pub skills: Option<Vec<String>>,
    pub prompts: Option<Vec<String>>,
    pub themes: Option<Vec<String>>,
    /// The whole of what the settings say of the package, as JSON text.
    pub raw: String,
}

/// A package in the settings.
#[derive(Debug)]
pub enum PackageEntry {
    Source(String),
    Filtered(PackageFilters),
    /// Neither a source nor an object, as JSON text.
    Other(String),
}

/// The texts of an optional list.
pub open spec fn opt_texts(list: Option<Vec<String>>) -> Option<Seq<Seq<char>>> {
    match list {
        Some(list) => Some(texts(list@)),
        None => None,
    }
}

/// The content of a package's filters.
#[verifier::ext_equal]
pub struct FiltersView {
    pub source: Option<Seq<char>>,
    pub autoload_off: bool,
    pub extensions: Option<Seq<Seq<char>>>,
    pub skills: Option<Seq<Seq<char>>>,
    pub prompts: Option<Seq<Seq<char>>>,
    pub themes: Option<Seq<Seq<char>>>,
    pub raw: Seq<char>,
}

impl View for PackageFilters {
    type V = FiltersView;

    open spec fn view(&self) -> FiltersView {
        FiltersView {
            source: match self.source {
                Some(source) => Some(source@),
                None => None,
            },
            autoload_off: self.autoload_off,
            extensions: opt_texts(self.extensions),
            skills: opt_texts(self.skills),
            prompts: opt_texts(self.prompts),
            themes: opt_texts(self.themes),
            raw: self.raw@,
        }
    }
}

/// The content of a package in the settings.
pub enum PackageView {
    Source(Seq<char>),
    Filtered(FiltersView),
    Other(Seq<char>),
}

impl View for PackageEntry {
    type V = PackageView;

    open spec fn view(&self) -> PackageView {
        match *self {
            PackageEntry::Source(source) => PackageView::Source(source@),
            PackageEntry::Filtered(filters) => PackageView::Filtered(filters@),
            PackageEntry::Other(raw) => PackageView::Other(raw@),
        }
    }
}

/// The contents of a list of packages.
pub open spec fn package_views(packages: Seq<PackageEntry>) -> Seq<PackageView> {
    packages.map_values(|p: PackageEntry| p@)
}

impl FiltersView {
    /// The filter for resources of a type.
    pub open spec fn filter(self, resource_type: ResourceType) -> Option<Seq<Seq<char>>> {
        match resource_type {
            ResourceType::Extensions => self.extensions,
            ResourceType::Skills => self.skills,
            ResourceType::Prompts => self.prompts,
            ResourceType::Themes => self.themes,
        }
    }

    /// With another filter for resources of a type; an empty one is dropped.
    pub open spec fn with_filter(
        self,
        resource_type: ResourceType,
        entries: Seq<Seq<char>>,
    ) -> FiltersView {
        let filter = if entries.len() == 0 {
            None
        } else {
            Some(entries)
        };
        match resource_type {
            ResourceType::Extensions => FiltersView { extensions: filter, ..self },
            ResourceType::Skills => FiltersView { skills: filter, ..self },
            ResourceType::Prompts => FiltersView { prompts: filter, ..self },
            ResourceType::Themes => FiltersView { themes: filter, ..self },
        }
    }

    /// Whether there is a filter for any type.
    pub open spec fn has_filters(self) -> bool {
        self.extensions is Some || self.skills is Some || self.prompts is Some || self.themes is Some
    }

    /// The entries of the filter for resources of a type; none without a filter.
    pub open spec fn entries(self, resource_type: ResourceType) -> Seq<Seq<char>> {
        match self.filter(resource_type) {
            Some(entries) => entries,
            None => Seq::empty(),
        }
    }
}

/// The source of a package.
pub open spec fn package_source(package: PackageView) -> Option<Seq<char>> {
    match package {
        PackageView::Source(source) => Some(source),
        PackageView::Filtered(filters) => filters.source,
        PackageView::Other(_) => None,
    }
}

/// The package in the form that can hold filters.
pub open spec fn filters_of(package: PackageView) -> FiltersView {
    match package {
        PackageView::Filtered(filters) => filters,
        PackageView::Source(source) => FiltersView {
            source: Some(source),
            autoload_off: false,
            extensions: None,
            skills: None,
            prompts: None,
            themes: None,
            raw: Seq::empty(),
        },
        PackageView::Other(raw) => FiltersView {
            source: None,
            autoload_off: false,
            extensions: None,
            skills: None,
            prompts: None,
            themes: None,
            raw,
        },
    }
}

fn clone_opt_list(list: &Option<Vec<String>>) -> (r: Option<Vec<String>>)
    ensures
        opt_texts(r) == opt_texts(*list),
{
    match list {
        Some(list) => Some(copy_texts(list)),
        None => None,
    }
}

impl Clone for PackageFilters {
    fn clone(&self) -> (r: Self)
        ensures
            r@ == self@,
    {
        PackageFilters {
            source: crate::session::clone_opt(&self.source),
            autoload_off: self.autoload_off,
            extensions: clone_opt_list(&self.extensions),
            skills: clone_opt_list(&self.skills),
            prompts: clone_opt_list(&self.prompts),
            themes: clone_opt_list(&self.themes),
            raw: self.raw.clone(),
        }
    }
}

impl Clone for PackageEntry {
    fn clone(&self) -> (r: Self)
        ensures
            r@ == self@,
    {
        match self {
            PackageEntry::Source(source) => PackageEntry::Source(source.clone()),
            PackageEntry::Filtered(filters) => PackageEntry::Filtered(filters.clone()),
            PackageEntry::Other(raw) => PackageEntry::Other(raw.clone()),
        }
    }
}

impl PackageFilters {
    fn entries_for(&self, resource_type: ResourceType) -> (r: Vec<String>)
        ensures
            texts(r@) == self@.entries(resource_type),
    {
        let filter = match resource_type {
            ResourceType::Extensions => &self.extensions,
            ResourceType::Skills => &self.skills,
            ResourceType::Prompts => &self.prompts,
            ResourceType::Themes => &self.themes,
        };
        match filter {
            Some(entries) => copy_texts(entries),
            None => {
                let r: Vec<String> = Vec::new();
                assert(texts(r@) =~= Seq::empty());
                r
            },
        }
    }

    fn set_filter(&mut self, resource_type: ResourceType, entries: Vec<String>)
        ensures
            final(self)@ == old(self)@.with_filter(resource_type, texts(entries@)),
    {
        assert(texts(entries@).len() == entries@.len());
        let filter: Option<Vec<String>> = if entries.len() == 0 {
            None
        } else {
            Some(entries)
        };
        match resource_type {
            ResourceType::Extensions => {
                self.extensions = filter;
            },
            ResourceType::Skills => {
                self.skills = filter;
            },
            ResourceType::Prompts => {
                self.prompts = filter;
            },
            ResourceType::Themes => {
                self.themes = filter;
            },
        }
    }
}

fn as_filters(package: &PackageEntry) -> (r: PackageFilters)
    ensures
        r@ == filters_of(package@),
{
    match package {
        PackageEntry::Filtered(filters) => filters.clone(),
        PackageEntry::Source(source) => PackageFilters {
            source: Some(source.clone()),
            autoload_off: false,
            extensions: None,
            skills: None,
            prompts: None,
            themes: None,
            raw: String::new(),
        },
        PackageEntry::Other(raw) => PackageFilters {
            source: None,
            autoload_off: false,
            extensions: None,
            skills: None,
            prompts: None,
            themes: None,
            raw: raw.clone(),
        },
    }
}

/// Appends a package to a list.
fn push_package(packages: &mut Vec<PackageEntry>, package: PackageEntry)
    ensures
        package_views(final(packages)@) == package_views(old(packages)@).push(package@),
        final(packages)@ == old(packages)@.push(package),
{
    packages.push(package);
    assert(package_views(packages@) =~= package_views(old(packages)@).push(package@));
}

/// The index of the first package with the source; the number of packages if there is none.
pub open spec fn package_at(packages: Seq<PackageView>, source: Seq<char>) -> int
    decreases packages.len(),
{
    if packages.len() == 0 || package_source(packages[0]) == Some(source) {
        0
    } else {
        1 + package_at(packages.skip(1), source)
    }
}

/// The packages with one resource of the package from the source enabled or disabled. Without such a
/// package nothing changes.
pub open spec fn toggled_packages(
    packages: Seq<PackageView>,
    source: Seq<char>,
    resource_type: ResourceType,
    pattern: Seq<char>,
    enabled: bool,
) -> Seq<PackageView> {
    let i = package_at(packages, source);
    if i < packages.len() {
        let filters = filters_of(packages[i]);
        packages.update(
            i,
            PackageView::Filtered(
                filters.with_filter(
                    resource_type,
                    toggled_entries(filters.entries(resource_type), pattern, enabled),
                ),
            ),
        )
    } else {
        packages
    }
}

fn has_source(package: &PackageEntry, source: &str) -> (r: bool)
    ensures
        r == (package_source(package@) == Some(source@)),
{
    match package {
        PackageEntry::Source(own) => str_eq(own.as_str(), source),
        PackageEntry::Filtered(filters) => match &filters.source {
            Some(own) => str_eq(own.as_str(), source),
            None => false,
        },
        PackageEntry::Other(_) => false,
    }
}

/// Enables or disables one resource of the package from the source. Returns whether there is such a
/// package.
pub fn toggle_package(
    packages: &mut Vec<PackageEntry>,
    source: &str,
    resource_type: ResourceType,
    pattern: &str,
    enabled: bool,
) -> (found: bool)
    ensures
        package_views(final(packages)@) == toggled_packages(
            package_views(old(packages)@),
            source@,
            resource_type,
            pattern@,
            enabled,
        ),
        found == (package_at(package_views(old(packages)@), source@) < old(packages)@.len()),
{
    let ghost all = package_views(packages@);
    let mut i: usize = 0;
    assert(all.skip(0) =~= all);
    while i < packages.len() && !has_source(&packages[i], source)
        invariant
            i <= packages.len(),
            packages@ == old(packages)@,
            all == package_views(packages@),
            package_at(all, source@) == i + package_at(all.skip(i as int), source@),
        decreases packages.len() - i,
    {
        assert(all.skip(i as int)[0] == packages@[i as int]@);
        assert(all.skip(i as int).skip(1) =~= all.skip(i as int + 1));
        i = i + 1;
    }
    if i >= packages.len() {
        assert(all.skip(i as int).len() == 0);
        return false;
    }
    assert(all.skip(i as int)[0] == packages@[i as int]@);
    let mut filters = as_filters(&packages[i]);
    let entries = filters.entries_for(resource_type);
    filters.set_filter(resource_type, toggle_entries(&entries, pattern, enabled));
    packages.set(i, PackageEntry::Filtered(filters));
    assert(package_views(packages@) =~= all.update(i as int, PackageView::Filtered(filters@)));
    true
}

/// What package sources resolve to: a table for each settings file.
#[derive(Debug)]
pub struct SourcePaths {
    pub user: CanonicalPaths,
    pub project: CanonicalPaths,
}

impl SourcePaths {
    /// The path that a source of the scope resolves to.
    pub open spec fn resolved(&self, source: Seq<char>, scope: SettingsScope) -> Seq<char> {
        match scope {
            SettingsScope::User => self.user.canonical(trim(source)),
            SettingsScope::Project => self.project.canonical(trim(source)),
        }
    }

    /// The path that a source of the scope resolves to.
    pub fn resolve(&self, source: &str, scope: SettingsScope) -> (r: String)
        ensures
            r@ == self.resolved(source@, scope),
    {
        let trimmed = trim_str(source);
        match scope {
            SettingsScope::User => self.user.resolve(trimmed.as_str()),
            SettingsScope::Project => self.project.resolve(trimmed.as_str()),
        }
    }

    /// Whether two sources are of one package: the same text, or paths that resolve to the same.
    pub open spec fn same_package(
        &self,
        left: Seq<char>,
        left_scope: SettingsScope,
        right: Seq<char>,
        right_scope: SettingsScope,
    ) -> bool {
        left == right || (is_local(left) && is_local(right) && self.resolved(left, left_scope)
            == self.resolved(right, right_scope))
    }

    /// Whether two sources are of one package.
    pub fn package_source_string_matches(
        &self,
        left: &str,
        left_scope: SettingsScope,
        right: &str,
        right_scope: SettingsScope,
    ) -> (r: bool)
        ensures
            r == self.same_package(left@, left_scope, right@, right_scope),
    {
        if str_eq(left, right) {
            return true;
        }
        if !is_local_path(left) || !is_local_path(right) {
            return false;
        }
        str_eq(
            self.resolve(left, left_scope).as_str(),
            self.resolve(right, right_scope).as_str(),
        )
    }
}

/// Whether the package in the project's settings is the one from the source. `new_source` is the
/// source by which the project names that package itself: it resolves to the same path.
pub open spec fn is_package_of(
    paths: SourcePaths,
    package: PackageView,
    source: Seq<char>,
    scope: SettingsScope,
    new_source: Seq<char>,
) -> bool {
    match package_source(package) {
        Some(own) => paths.same_package(source, scope, own, SettingsScope::Project) || (is_local(
            source,
        ) && is_local(own) && trim(own) == new_source),
        None => false,
    }
}

/// The index of the first package that is the one from the source, under that source or the new one;
/// the number of packages if there is none.
pub open spec fn matching_package(
    paths: SourcePaths,
    packages: Seq<PackageView>,
    source: Seq<char>,
    scope: SettingsScope,
    new_source: Seq<char>,
) -> int
    decreases packages.len(),
{
    if packages.len() == 0 || is_package_of(paths, packages[0], source, scope, new_source) {
        0
    } else {
        1 + matching_package(paths, packages.skip(1), source, scope, new_source)
    }
}

/// The first package from a source is the one that no other comes before.
pub proof fn lemma_matching_package(
    paths: SourcePaths,
    packages: Seq<PackageView>,
    source: Seq<char>,
    scope: SettingsScope,
    new_source: Seq<char>,
    i: int,
)
    requires
        0 <= i <= packages.len(),
        forall|j: int|
            0 <= j < i ==> !is_package_of(
                paths,
                #[trigger] packages[j],
                source,
                scope,
                new_source,
            ),
        i < packages.len() ==> is_package_of(paths, packages[i], source, scope, new_source),
    ensures
        matching_package(paths, packages, source, scope, new_source) == i,
    decreases packages.len(),
{
    if i > 0 {
        assert(!is_package_of(paths, packages[0], source, scope, new_source));
        let rest = packages.skip(1);
        assert forall|j: int| 0 <= j < i - 1 implies !is_package_of(
            paths,
            #[trigger] rest[j],
            source,
            scope,
            new_source,
        ) by {
            assert(rest[j] == packages[j + 1]);
        }
        if i < packages.len() {
            assert(rest[i - 1] == packages[i]);
        }
        lemma_matching_package(paths, rest, source, scope, new_source, i - 1);
    }
}

/// Where the first package from a source stands.
pub proof fn lemma_matching_package_bounds(
    paths: SourcePaths,
    packages: Seq<PackageView>,
    source: Seq<char>,
    scope: SettingsScope,
    new_source: Seq<char>,
)
    ensures
        0 <= matching_package(paths, packages, source, scope, new_source) <= packages.len(),
        forall|j: int|
            0 <= j < matching_package(paths, packages, source, scope, new_source) ==> !is_package_of(
                paths,
                #[trigger] packages[j],
                source,
                scope,
                new_source,
            ),
        matching_package(paths, packages, source, scope, new_source) < packages.len() ==> is_package_of(
            paths,
            packages[matching_package(paths, packages, source, scope, new_source)],
            source,
            scope,
            new_source,
        ),
    decreases packages.len(),
{
    if packages.len() > 0 && !is_package_of(paths, packages[0], source, scope, new_source) {
        let rest = packages.skip(1);
        lemma_matching_package_bounds(paths, rest, source, scope, new_source);
        let i = matching_package(paths, packages, source, scope, new_source);
        assert forall|j: int| 0 <= j < i implies !is_package_of(
            paths,
            #[trigger] packages[j],
            source,
            scope,
            new_source,
        ) by {
            if j > 0 {
                assert(rest[j - 1] == packages[j]);
            }
        }
        if i < packages.len() {
            assert(rest[i - 1] == packages[i]);
        }
    }
}

/// Entries that are not for a pattern say nothing of it.
pub proof fn lemma_others_inherit(entries: Seq<Seq<char>>, pattern: Seq<char>)
    ensures
        entries_state(entries_for_others(entries, pattern), seq![pattern])
            == ProjectOverrideState::Inherit,
    decreases entries.len(),
{
    if entries.len() > 0 {
        let before = entries_for_others(entries.drop_last(), pattern);
        lemma_others_inherit(entries.drop_last(), pattern);
        if entry_target(entries.last()) != pattern {
            assert(before.push(entries.last()).drop_last() =~= before);
            assert(!seq![pattern].contains(entry_target(entries.last())));
        }
    }
}

/// The entries that going back to the inherited state keeps say nothing of the patterns, if each
/// entry without a mark that is for one of them is the pinned path.
pub proof fn lemma_kept_inherit(
    entries: Seq<Seq<char>>,
    pattern: Seq<char>,
    patterns: Seq<Seq<char>>,
    is_inherited: bool,
)
    requires
        forall|k: int|
            0 <= k < entries.len() && !is_marked(#[trigger] entries[k]) && patterns.contains(
                entries[k],
            ) ==> is_inherited && entries[k] == pattern,
    ensures
        entries_state(
            override_kept(entries, pattern, patterns, is_inherited, ProjectOverrideState::Inherit),
            patterns,
        ) == ProjectOverrideState::Inherit,
    decreases entries.len(),
{
    if entries.len() > 0 {
        let last = entries.last();
        let before = override_kept(
            entries.drop_last(),
            pattern,
            patterns,
            is_inherited,
            ProjectOverrideState::Inherit,
        );
        lemma_kept_inherit(entries.drop_last(), pattern, patterns, is_inherited);
        assert(last == entries[entries.len() - 1]);
        if override_keeps(last, pattern, patterns, is_inherited, ProjectOverrideState::Inherit) {
            assert(before.push(last).drop_last() =~= before);
            assert(!patterns.contains(entry_target(last)));
        }
    }
}

fn check_package_of(
    paths: &SourcePaths,
    package: &PackageEntry,
    source: &str,
    scope: SettingsScope,
    new_source: &str,
) -> (r: bool)
    ensures
        r == is_package_of(*paths, package@, source@, scope, new_source@),
{
    let own = match package {
        PackageEntry::Source(own) => own,
        PackageEntry::Filtered(filters) => match &filters.source {
            Some(own) => own,
            None => {
                return false;
            },
        },
        PackageEntry::Other(_) => {
            return false;
        },
    };
    paths.package_source_string_matches(source, scope, own.as_str(), SettingsScope::Project) || (
    is_local_path(source) && is_local_path(own.as_str()) && str_eq(
        trim_str(own.as_str()).as_str(),
        new_source,
    ))
}

/// The index of the first package that is the one from the source.
pub fn find_matching_package(
    paths: &SourcePaths,
    packages: &Vec<PackageEntry>,
    source: &str,
    scope: SettingsScope,
    new_source: &str,
) -> (r: usize)
    ensures
        r == matching_package(*paths, package_views(packages@), source@, scope, new_source@),
        r <= packages@.len(),
{
    let ghost all = package_views(packages@);
    let mut i: usize = 0;
    assert(all.skip(0) =~= all);
    while i < packages.len() && !check_package_of(paths, &packages[i], source, scope, new_source)
        invariant
            i <= packages.len(),
            all == package_views(packages@),
            matching_package(*paths, all, source@, scope, new_source@) == i + matching_package(
                *paths,
                all.skip(i as int),
                source@,
                scope,
                new_source@,
            ),
        decreases packages.len() - i,
    {
        assert(all.skip(i as int)[0] == packages@[i as int]@);
        assert(all.skip(i as int).skip(1) =~= all.skip(i as int + 1));
        i = i + 1;
    }
    if i < packages.len() {
        assert(all.skip(i as int)[0] == packages@[i as int]@);
    } else {
        assert(all.skip(i as int).len() == 0);
    }
    i
}

/// The filter entries after a resource of a package is overridden.
pub open spec fn overridden_filter(
    entries: Seq<Seq<char>>,
    pattern: Seq<char>,
    state: ProjectOverrideState,
) -> Seq<Seq<char>> {
    let others = entries_for_others(entries, pattern);
    if state == ProjectOverrideState::Inherit {
        others
    } else {
        others.push(marked(pattern, state == ProjectOverrideState::Load))
    }
}

/// The packages with the one at index `i` replaced by its filters: without any filter a package that
/// does not load by itself goes, and any other is only its source.
pub open spec fn with_filters(
    packages: Seq<PackageView>,
    i: int,
    filters: FiltersView,
) -> Seq<PackageView> {
    if filters.has_filters() {
        packages.update(i, PackageView::Filtered(filters))
    } else if filters.autoload_off {
        packages.remove(i)
    } else {
        packages.update(
            i,
            match filters.source {
                Some(source) => PackageView::Source(source),
                None => PackageView::Other("null"@),
            },
        )
    }
}

/// The project's packages after a resource of the package from the source is overridden. A package
/// that the project does not name yet is added under `new_source`, unless it is inherited anyway.
pub open spec fn overridden_packages(
    paths: SourcePaths,
    packages: Seq<PackageView>,
    source: Seq<char>,
    scope: SettingsScope,
    new_source: Seq<char>,
    resource_type: ResourceType,
    pattern: Seq<char>,
    state: ProjectOverrideState,
) -> Option<Seq<PackageView>> {
    let i = matching_package(paths, packages, source, scope, new_source);
    if i >= packages.len() && state == ProjectOverrideState::Inherit {
        None
    } else {
        let listed = if i < packages.len() {
            packages
        } else {
            packages.push(
                PackageView::Filtered(
                    FiltersView {
                        source: Some(new_source),
                        autoload_off: true,
                        extensions: None,
                        skills: None,
                        prompts: None,
                        themes: None,
                        raw: Seq::empty(),
                    },
                ),
            )
        };
        let at = if i < packages.len() {
            i
        } else {
            packages.len() as int
        };
        let filters = filters_of(listed[at]);
        Some(
            with_filters(
                listed,
                at,
                filters.with_filter(
                    resource_type,
                    overridden_filter(filters.entries(resource_type), pattern, state),
                ),
            ),
        )
    }
}

/// Overrides a resource of the package from the source in the project's packages. Returns whether
/// anything was there to change.
pub fn override_package(
    paths: &SourcePaths,
    packages: &mut Vec<PackageEntry>,
    source: &str,
    scope: SettingsScope,
    new_source: &str,
    resource_type: ResourceType,
    pattern: &str,
    state: ProjectOverrideState,
) -> (changed: bool)
    ensures
        match overridden_packages(
            *paths,
            package_views(old(packages)@),
            source@,
            scope,
            new_source@,
            resource_type,
            pattern@,
            state,
        ) {
            Some(after) => changed && package_views(final(packages)@) == after,
            None => !changed && final(packages)@ == old(packages)@,
        },
{
    let at: usize = find_matching_package(paths, packages, source, scope, new_source);
    if at >= packages.len() {
        if state == ProjectOverrideState::Inherit {
            return false;
        }
        push_package(
            packages,
            PackageEntry::Filtered(
                PackageFilters {
                    source: Some(new_source.to_owned()),
                    autoload_off: true,
                    extensions: None,
                    skills: None,
                    prompts: None,
                    themes: None,
                    raw: String::new(),
                },
            ),
        );
        proof {
            reveal_strlit("");
            let added = packages@.last()@;
            assert(added->Filtered_0.raw =~= Seq::<char>::empty());
        }
    }
    let ghost listed = package_views(packages@);
    assert(listed[at as int] == packages@[at as int]@);
    let mut filters = as_filters(&packages[at]);
    let entries = filters.entries_for(resource_type);
    let mut updated = without_pattern(&entries, pattern);
    if state != ProjectOverrideState::Inherit {
        push_text(&mut updated, mark(pattern, state == ProjectOverrideState::Load));
    }
    filters.set_filter(resource_type, updated);
    let has_filters = filters.extensions.is_some() || filters.skills.is_some()
        || filters.prompts.is_some() || filters.themes.is_some();
    let ghost view = filters@;
    if has_filters {
        packages.set(at, PackageEntry::Filtered(filters));
        assert(package_views(packages@) =~= listed.update(at as int, PackageView::Filtered(view)));
    } else if filters.autoload_off {
        let _ = packages.remove(at);
        assert(package_views(packages@) =~= listed.remove(at as int));
    } else {
        let entry = match filters.source {
            Some(source) => PackageEntry::Source(source),
            None => PackageEntry::Other("null".to_owned()),
        };
        packages.set(at, entry);
        assert(package_views(packages@) =~= listed.update(at as int, entry@));
    }
    true
}

} // verus!
