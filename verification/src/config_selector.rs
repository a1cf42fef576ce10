//! Resource configuration: the searchable list of resources, and enabling and
//! disabling them in the global or the project settings.

use crate::resource_settings::{
    entries_state, filters_of, find_matching_package, is_marked, is_package_of, lemma_kept_inherit,
    lemma_matching_package, lemma_matching_package_bounds, lemma_others_inherit, matching_package,
    overridden_entries, overridden_filter, overridden_packages, override_entries, override_package,
    override_state_from_entries, package_at, package_views, toggle_entries, toggle_package,
    toggled_entries, toggled_packages, toggling_takes_effect, PackageEntry, PackageView,
    ProjectOverrideState, SettingsScope, SourcePaths,
};
use crate::resources::{
    dir_name, dirname, group_views, is_local, is_local_path, item_views, relative_path,
    relative_string, subgroup_views, type_key, GroupView, ItemView, PackageScope, ResourceGroup,
    ResourceItem, ResourceOrigin, ResourceSubgroup, ResourceType, SubgroupView,
};
use crate::session::CanonicalPaths;
use crate::text::{
    chars_of, find, find_chars, is_blank, lowercase, push_text, texts, to_lowercase, trim,
};
use vstd::hash_map::StringHashMap;
use vstd::prelude::*;
use vstd::string::*;

verus! {

broadcast use vstd::string::group_string_axioms;

/// Which settings the selector writes.
#[derive(Clone, Copy, Debug, PartialEq, Eq, Structural)]
pub enum ConfigWriteScope {
    Global,
    Project,
}

/// The resources that one settings file names.
#[derive(Debug)]
pub struct ResourceSettings {
    pub extensions: Vec<String>,
    pub skills: Vec<String>,
    pub prompts: Vec<String>,
    pub themes: Vec<String>,
    pub packages: Vec<PackageEntry>,
}

/// The content of the resources that one settings file names.
#[verifier::ext_equal]
pub struct ResourceSettingsView {
    pub extensions: Seq<Seq<char>>,
    pub skills: Seq<Seq<char>>,
    pub prompts: Seq<Seq<char>>,
    pub themes: Seq<Seq<char>>,
    pub packages: Seq<PackageView>,
}

impl View for ResourceSettings {
    type V = ResourceSettingsView;

    open spec fn view(&self) -> ResourceSettingsView {
        ResourceSettingsView {
            extensions: texts(self.extensions@),
            skills: texts(self.skills@),
            prompts: texts(self.prompts@),
            themes: texts(self.themes@),
            packages: package_views(self.packages@),
        }
    }
}

impl ResourceSettingsView {
    /// The entries for resources of a type.
    pub open spec fn entries(self, resource_type: ResourceType) -> Seq<Seq<char>> {
        match resource_type {
            ResourceType::Extensions => self.extensions,
            ResourceType::Skills => self.skills,
            ResourceType::Prompts => self.prompts,
            ResourceType::Themes => self.themes,
        }
    }

    /// With other entries for resources of a type.
    pub open spec fn with_entries(
        self,
        resource_type: ResourceType,
        entries: Seq<Seq<char>>,
    ) -> ResourceSettingsView {
        match resource_type {
            ResourceType::Extensions => ResourceSettingsView { extensions: entries, ..self },
            ResourceType::Skills => ResourceSettingsView { skills: entries, ..self },
            ResourceType::Prompts => ResourceSettingsView { prompts: entries, ..self },
            ResourceType::Themes => ResourceSettingsView { themes: entries, ..self },
        }
    }
}

impl ResourceSettings {
    fn entries_for(&self, resource_type: ResourceType) -> (r: &Vec<String>)
        ensures
            texts(r@) == self@.entries(resource_type),
    {
        match resource_type {
            ResourceType::Extensions => &self.extensions,
            ResourceType::Skills => &self.skills,
            ResourceType::Prompts => &self.prompts,
            ResourceType::Themes => &self.themes,
        }
    }

    fn set_entries(&mut self, resource_type: ResourceType, entries: Vec<String>)
        ensures
            final(self)@ == old(self)@.with_entries(resource_type, texts(entries@)),
    {
        match resource_type {
            ResourceType::Extensions => {
                self.extensions = entries;
            },
            ResourceType::Skills => {
                self.skills = entries;
            },
            ResourceType::Prompts => {
                self.prompts = entries;
            },
            ResourceType::Themes => {
                self.themes = entries;
            },
        }
    }
}

/// A line of the list: the header of a group, the header of a subgroup, or an item.
#[derive(Clone, Copy, Debug, PartialEq, Eq, Structural)]
pub enum FlatEntry {
    Group(usize),
    Subgroup(usize, usize),
    Item(usize, usize, usize),
}

/// What the owner has to write to the settings.
#[derive(Clone, Copy, Debug, PartialEq, Eq, Structural)]
pub enum SettingsWrite {
    Nothing,
    Paths(SettingsScope, ResourceType),
    Packages(SettingsScope),
}

/// The list of resources.
pub struct ResourceList {
    pub groups_global: Vec<ResourceGroup>,
    pub groups_project: Vec<ResourceGroup>,
    pub flat_items: Vec<FlatEntry>,
    pub filtered_items: Vec<FlatEntry>,
    pub selected_index: usize,
    /// The value of the search input.
    pub query: String,
    pub max_visible: usize,
    pub global_settings: ResourceSettings,
    pub project_settings: ResourceSettings,
    /// The directory of the project's settings.
    pub project_dir: String,
    /// The directory of the user's settings.
    pub agent_dir: String,
    pub canonical_paths: CanonicalPaths,
    pub source_paths: SourcePaths,
    pub write_scope: ConfigWriteScope,
    /// For each global resource, whether it is enabled.
    pub inherited_enabled: StringHashMap<bool>,
}

/// The lines of the first `n` items of a subgroup.
pub open spec fn item_lines(g: usize, s: usize, n: nat) -> Seq<FlatEntry> {
    Seq::new(n, |i: int| FlatEntry::Item(g, s, i as usize))
}

/// The lines of the first `n` subgroups of a group.
pub open spec fn subgroup_lines(g: usize, subgroups: Seq<SubgroupView>, n: nat) -> Seq<FlatEntry>
    decreases n,
{
    if n == 0 {
        Seq::empty()
    } else {
        subgroup_lines(g, subgroups, (n - 1) as nat).push(FlatEntry::Subgroup(g, (n - 1) as usize))
            + item_lines(g, (n - 1) as usize, subgroups[n - 1].items.len())
    }
}

/// The lines of the first `n` groups.
pub open spec fn group_lines(groups: Seq<GroupView>, n: nat) -> Seq<FlatEntry>
    decreases n,
{
    if n == 0 {
        Seq::empty()
    } else {
        group_lines(groups, (n - 1) as nat).push(FlatEntry::Group((n - 1) as usize))
            + subgroup_lines((n - 1) as usize, groups[n - 1].subgroups, groups[n - 1].subgroups.len())
    }
}

/// Whether the line is one of the groups.
pub open spec fn is_line(groups: Seq<GroupView>, entry: FlatEntry) -> bool {
    match entry {
        FlatEntry::Group(g) => g < groups.len(),
        FlatEntry::Subgroup(g, s) => g < groups.len() && s < groups[g as int].subgroups.len(),
        FlatEntry::Item(g, s, i) => g < groups.len() && s < groups[g as int].subgroups.len() && i
            < groups[g as int].subgroups[s as int].items.len(),
    }
}

/// The item of a line.
pub open spec fn item_of(groups: Seq<GroupView>, g: usize, s: usize, i: usize) -> ItemView {
    groups[g as int].subgroups[s as int].items[i as int]
}

/// Whether the needle occurs in one of an item's three texts.
pub open spec fn texts_match(
    name: Seq<char>,
    kind: Seq<char>,
    path: Seq<char>,
    needle: Seq<char>,
) -> bool {
    find(name, needle) is Some || find(kind, needle) is Some || find(path, needle) is Some
}

/// Whether the query occurs in the item's name, type or path, without regard to case.
pub open spec fn item_matches(item: ItemView, query: Seq<char>) -> bool {
    texts_match(
        lowercase(item.display_name),
        lowercase(type_key(item.resource_type)),
        lowercase(item.path),
        lowercase(query),
    )
}

/// Whether an item of the subgroup matches.
pub open spec fn subgroup_matches(subgroup: SubgroupView, query: Seq<char>) -> bool {
    exists|i: int|
        0 <= i < subgroup.items.len() && item_matches(#[trigger] subgroup.items[i], query)
}

/// Whether the search keeps the line: a matching item, or a header with one under it.
pub open spec fn keeps_line(groups: Seq<GroupView>, entry: FlatEntry, query: Seq<char>) -> bool {
    match entry {
        FlatEntry::Group(g) => exists|s: int|
            0 <= s < groups[g as int].subgroups.len() && subgroup_matches(
                #[trigger] groups[g as int].subgroups[s],
                query,
            ),
        FlatEntry::Subgroup(g, s) => subgroup_matches(groups[g as int].subgroups[s as int], query),
        FlatEntry::Item(g, s, i) => item_matches(item_of(groups, g, s, i), query),
    }
}

/// The lines that the search keeps.
pub open spec fn kept_lines(groups: Seq<GroupView>, lines: Seq<FlatEntry>, query: Seq<char>) -> Seq<
    FlatEntry,
>
    decreases lines.len(),
{
    if lines.len() == 0 {
        Seq::empty()
    } else {
        let before = kept_lines(groups, lines.drop_last(), query);
        if keeps_line(groups, lines.last(), query) {
            before.push(lines.last())
        } else {
            before
        }
    }
}

/// The first line at or after `from` that is an item; the number of lines if there is none.
pub open spec fn next_item(lines: Seq<FlatEntry>, from: int) -> int
    decreases lines.len() - from,
{
    if from < 0 || from >= lines.len() {
        lines.len() as int
    } else if lines[from] is Item {
        from
    } else {
        next_item(lines, from + 1)
    }
}

/// The last line at or before `from` that is an item; -1 if there is none.
pub open spec fn previous_item(lines: Seq<FlatEntry>, from: int) -> int
    decreases from + 1,
{
    if from < 0 || from >= lines.len() {
        -1
    } else if lines[from] is Item {
        from
    } else {
        previous_item(lines, from - 1)
    }
}

/// The first item; 0 when there is none.
pub open spec fn first_item(lines: Seq<FlatEntry>) -> int {
    if next_item(lines, 0) < lines.len() {
        next_item(lines, 0)
    } else {
        0
    }
}

pub(crate) fn seek_item(lines: &Vec<FlatEntry>, from: usize) -> (r: usize)
    requires
        from <= lines@.len(),
    ensures
        r == next_item(lines@, from as int),
        from <= r <= lines@.len(),
        r < lines@.len() ==> lines@[r as int] is Item,
{
    let mut i: usize = from;
    while i < lines.len()
        invariant
            from <= i <= lines.len(),
            next_item(lines@, from as int) == next_item(lines@, i as int),
        decreases lines.len() - i,
    {
        if let FlatEntry::Item(_, _, _) = lines[i] {
            return i;
        }
        i = i + 1;
    }
    i
}

pub(crate) fn seek_item_back(lines: &Vec<FlatEntry>, from: usize) -> (r: Option<usize>)
    requires
        from < lines@.len(),
    ensures
        match r {
            Some(i) => previous_item(lines@, from as int) == i && i <= from && lines@[i as int] is Item,
            None => previous_item(lines@, from as int) == -1,
        },
{
    let mut i: usize = from;
    loop
        invariant
            i <= from < lines.len(),
            previous_item(lines@, from as int) == previous_item(lines@, i as int),
        decreases i,
    {
        if let FlatEntry::Item(_, _, _) = lines[i] {
            return Some(i);
        }
        if i == 0 {
            assert(previous_item(lines@, -1) == -1);
            return None;
        }
        i = i - 1;
    }
}

proof fn lemma_subgroup_lines(groups: Seq<GroupView>, g: usize, n: nat)
    requires
        g < groups.len() <= usize::MAX,
        n <= groups[g as int].subgroups.len() <= usize::MAX,
        forall|s: int|
            0 <= s < groups[g as int].subgroups.len() ==> (
            #[trigger] groups[g as int].subgroups[s]).items.len() <= usize::MAX,
    ensures
        forall|k: int|
            0 <= k < subgroup_lines(g, groups[g as int].subgroups, n).len() ==> is_line(
                groups,
                #[trigger] subgroup_lines(g, groups[g as int].subgroups, n)[k],
            ),
    decreases n,
{
    if n > 0 {
        let subgroups = groups[g as int].subgroups;
        lemma_subgroup_lines(groups, g, (n - 1) as nat);
        let before = subgroup_lines(g, subgroups, (n - 1) as nat);
        let head = before.push(FlatEntry::Subgroup(g, (n - 1) as usize));
        let tail = item_lines(g, (n - 1) as usize, subgroups[n - 1].items.len());
        let all = subgroup_lines(g, subgroups, n);
        assert forall|k: int| 0 <= k < all.len() implies is_line(groups, #[trigger] all[k]) by {
            if k < before.len() {
                assert(all[k] == before[k]);
            } else if k == before.len() {
                assert(all[k] == FlatEntry::Subgroup(g, (n - 1) as usize));
            } else {
                assert(all[k] == tail[k - head.len()]);
            }
        }
    }
}

/// Whether the sizes of the groups fit into machine integers.
pub open spec fn sizes_fit(groups: Seq<GroupView>) -> bool {
    &&& groups.len() <= usize::MAX
    &&& forall|g: int| 0 <= g < groups.len() ==> (#[trigger] groups[g]).subgroups.len() <= usize::MAX
    &&& forall|g: int, s: int|
        #![trigger groups[g].subgroups[s]]
        0 <= g < groups.len() && 0 <= s < groups[g].subgroups.len()
            ==> groups[g].subgroups[s].items.len() <= usize::MAX
}

pub(crate) proof fn lemma_sizes_fit(groups: &Vec<ResourceGroup>)
    ensures
        sizes_fit(group_views(groups@)),
{
    let views = group_views(groups@);
    assert(groups@.len() == groups.len());
    assert forall|g: int| 0 <= g < views.len() implies (#[trigger] views[g]).subgroups.len()
        <= usize::MAX by {
        assert(views[g] == groups@[g]@);
        assert(groups@[g].subgroups@.len() == groups@[g].subgroups.len());
    }
    assert forall|g: int, s: int|
        #![trigger views[g].subgroups[s]]
        0 <= g < views.len() && 0 <= s < views[g].subgroups.len() implies views[g].subgroups[s].items.len()
        <= usize::MAX by {
        assert(views[g] == groups@[g]@);
        let subgroup = groups@[g].subgroups@[s];
        assert(views[g].subgroups[s] == subgroup@);
        assert(subgroup.items@.len() == subgroup.items.len());
    }
}

pub(crate) proof fn lemma_group_lines(groups: Seq<GroupView>, n: nat)
    requires
        n <= groups.len(),
        sizes_fit(groups),
    ensures
        forall|k: int|
            0 <= k < group_lines(groups, n).len() ==> is_line(
                groups,
                #[trigger] group_lines(groups, n)[k],
            ),
    decreases n,
{
    if n > 0 {
        lemma_group_lines(groups, (n - 1) as nat);
        assert forall|s: int| 0 <= s < groups[n - 1].subgroups.len() implies (
        #[trigger] groups[n - 1].subgroups[s]).items.len() <= usize::MAX by {}
        lemma_subgroup_lines(groups, (n - 1) as usize, groups[n - 1].subgroups.len());
        let before = group_lines(groups, (n - 1) as nat);
        let head = before.push(FlatEntry::Group((n - 1) as usize));
        let tail = subgroup_lines(
            (n - 1) as usize,
            groups[n - 1].subgroups,
            groups[n - 1].subgroups.len(),
        );
        let all = group_lines(groups, n);
        assert forall|k: int| 0 <= k < all.len() implies is_line(groups, #[trigger] all[k]) by {
            if k < before.len() {
                assert(all[k] == before[k]);
            } else if k == before.len() {
                assert(all[k] == FlatEntry::Group((n - 1) as usize));
            } else {
                assert(all[k] == tail[k - head.len()]);
            }
        }
    }
}

/// The lines of the groups.
pub(crate) fn list_lines(groups: &Vec<ResourceGroup>) -> (r: Vec<FlatEntry>)
    ensures
        r@ == group_lines(group_views(groups@), groups@.len()),
{
    let ghost views = group_views(groups@);
    let mut lines: Vec<FlatEntry> = Vec::new();
    let mut g: usize = 0;
    while g < groups.len()
        invariant
            g <= groups.len(),
            views == group_views(groups@),
            lines@ == group_lines(views, g as nat),
        decreases groups.len() - g,
    {
        lines.push(FlatEntry::Group(g));
        let ghost head = lines@;
        let subgroups = &groups[g].subgroups;
        let ghost inner = subgroup_views(subgroups@);
        assert(views[g as int].subgroups == inner);
        let mut s: usize = 0;
        while s < subgroups.len()
            invariant
                s <= subgroups.len(),
                inner == subgroup_views(subgroups@),
                lines@ =~= head + subgroup_lines(g, inner, s as nat),
            decreases subgroups.len() - s,
        {
            lines.push(FlatEntry::Subgroup(g, s));
            let ghost opened = lines@;
            let count: usize = subgroups[s].items.len();
            assert(inner[s as int].items.len() == count);
            let mut i: usize = 0;
            while i < count
                invariant
                    i <= count,
                    lines@ =~= opened + item_lines(g, s, i as nat),
                decreases count - i,
            {
                lines.push(FlatEntry::Item(g, s, i));
                i = i + 1;
            }
            assert(lines@ =~= head + (subgroup_lines(g, inner, s as nat).push(
                FlatEntry::Subgroup(g, s),
            ) + item_lines(g, s, count as nat)));
            s = s + 1;
        }
        assert(inner.len() == subgroups@.len());
        g = g + 1;
    }
    lines
}

/// Whether the needle occurs in one of an item's three texts, each in lowercase.
pub fn check_texts(name: &str, kind: &str, path: &str, needle: &str) -> (r: bool)
    ensures
        r == texts_match(name@, kind@, path@, needle@),
{
    let sought = chars_of(needle);
    find_chars(chars_of(name).as_slice(), sought.as_slice()).is_some() || find_chars(
        chars_of(kind).as_slice(),
        sought.as_slice(),
    ).is_some() || find_chars(chars_of(path).as_slice(), sought.as_slice()).is_some()
}

fn check_item(item: &ResourceItem, needle: &str, query: &str) -> (r: bool)
    requires
        needle@ == lowercase(query@),
    ensures
        r == item_matches(item@, query@),
{
    let name = to_lowercase(item.display_name.as_str());
    let kind = to_lowercase(item.resource_type.as_str());
    let path = to_lowercase(item.path.as_str());
    check_texts(name.as_str(), kind.as_str(), path.as_str(), needle)
}

fn check_subgroup(subgroup: &ResourceSubgroup, needle: &str, query: &str) -> (r: bool)
    requires
        needle@ == lowercase(query@),
    ensures
        r == subgroup_matches(subgroup@, query@),
{
    let items = &subgroup.items;
    let ghost views = subgroup@.items;
    let mut i: usize = 0;
    while i < items.len()
        invariant
            i <= items.len(),
            needle@ == lowercase(query@),
            *items == subgroup.items,
            views == subgroup@.items,
            views == item_views(items@),
            forall|j: int| 0 <= j < i ==> !item_matches(#[trigger] views[j], query@),
        decreases items.len() - i,
    {
        assert(views[i as int] == items@[i as int]@);
        if check_item(&items[i], needle, query) {
            assert(item_matches(subgroup@.items[i as int], query@));
            return true;
        }
        i = i + 1;
    }
    assert forall|j: int| 0 <= j < subgroup@.items.len() implies !item_matches(
        #[trigger] subgroup@.items[j],
        query@,
    ) by {
        assert(!item_matches(views[j], query@));
    }
    false
}

pub(crate) fn check_line(groups: &Vec<ResourceGroup>, entry: FlatEntry, needle: &str, query: &str) -> (r:
    bool)
    requires
        needle@ == lowercase(query@),
        is_line(group_views(groups@), entry),
    ensures
        r == keeps_line(group_views(groups@), entry, query@),
{
    let ghost views = group_views(groups@);
    match entry {
        FlatEntry::Group(g) => {
            assert(views[g as int] == groups@[g as int]@);
            let subgroups = &groups[g].subgroups;
            let ghost inner = subgroup_views(subgroups@);
            let mut s: usize = 0;
            while s < subgroups.len()
                invariant
                    s <= subgroups.len(),
                    needle@ == lowercase(query@),
                    inner == subgroup_views(subgroups@),
                    inner == views[g as int].subgroups,
                    forall|j: int| 0 <= j < s ==> !subgroup_matches(#[trigger] inner[j], query@),
                    entry == FlatEntry::Group(g),
                    views == group_views(groups@),
                decreases subgroups.len() - s,
            {
                assert(inner[s as int] == subgroups@[s as int]@);
                if check_subgroup(&subgroups[s], needle, query) {
                    assert(subgroup_matches(inner[s as int], query@));
                    assert(subgroup_matches(views[g as int].subgroups[s as int], query@));
                    return true;
                }
                s = s + 1;
            }
            assert forall|j: int| 0 <= j < views[g as int].subgroups.len() implies !subgroup_matches(
                #[trigger] views[g as int].subgroups[j],
                query@,
            ) by {
                assert(!subgroup_matches(inner[j], query@));
            }
            false
        },
        FlatEntry::Subgroup(g, s) => {
            assert(views[g as int] == groups@[g as int]@);
            assert(views[g as int].subgroups[s as int] == groups@[g as int].subgroups@[s as int]@);
            check_subgroup(&groups[g].subgroups[s], needle, query)
        },
        FlatEntry::Item(g, s, i) => {
            assert(views[g as int] == groups@[g as int]@);
            assert(views[g as int].subgroups[s as int] == groups@[g as int].subgroups@[s as int]@);
            assert(views[g as int].subgroups[s as int].items[i as int]
                == groups@[g as int].subgroups@[s as int].items@[i as int]@);
            check_item(&groups[g].subgroups[s].items[i], needle, query)
        },
    }
}

/// The key under which a resource is known, whatever settings it comes from.
pub open spec fn item_key(paths: CanonicalPaths, item: ItemView) -> Seq<char> {
    type_key(item.resource_type) + ":"@ + paths.canonical(item.path)
}

/// The settings file that an item belongs to.
pub open spec fn item_scope(item: ItemView) -> SettingsScope {
    if item.metadata.scope == PackageScope::Project {
        SettingsScope::Project
    } else {
        SettingsScope::User
    }
}

fn get_item_key(paths: &CanonicalPaths, item: &ResourceItem) -> (r: String)
    ensures
        r@ == item_key(*paths, item@),
{
    item.resource_type.as_str().to_owned().concat(":").concat(
        paths.resolve(item.path.as_str()).as_str(),
    )
}

pub(crate) fn get_item_scope(item: &ResourceItem) -> (r: SettingsScope)
    ensures
        r == item_scope(item@),
{
    if item.metadata.scope == PackageScope::Project {
        SettingsScope::Project
    } else {
        SettingsScope::User
    }
}

/// For the items in order, whether they are enabled; the last one with a key counts.
pub open spec fn enabled_by_key(paths: CanonicalPaths, items: Seq<ItemView>) -> Map<Seq<char>, bool>
    decreases items.len(),
{
    if items.len() == 0 {
        Map::empty()
    } else {
        enabled_by_key(paths, items.drop_last()).insert(
            item_key(paths, items.last()),
            items.last().enabled,
        )
    }
}

/// The items of the first `n` subgroups in order.
pub open spec fn subgroup_items(subgroups: Seq<SubgroupView>, n: nat) -> Seq<ItemView>
    decreases n,
{
    if n == 0 {
        Seq::empty()
    } else {
        subgroup_items(subgroups, (n - 1) as nat) + subgroups[n - 1].items
    }
}

/// The items of the first `n` groups in order.
pub open spec fn group_items(groups: Seq<GroupView>, n: nat) -> Seq<ItemView>
    decreases n,
{
    if n == 0 {
        Seq::empty()
    } else {
        group_items(groups, (n - 1) as nat) + subgroup_items(
            groups[n - 1].subgroups,
            groups[n - 1].subgroups.len(),
        )
    }
}

pub(crate) fn map_enabled(paths: &CanonicalPaths, groups: &Vec<ResourceGroup>) -> (r: StringHashMap<bool>)
    ensures
        r@ == enabled_by_key(*paths, group_items(group_views(groups@), groups@.len())),
{
    let ghost views = group_views(groups@);
    let mut r: StringHashMap<bool> = StringHashMap::new();
    let mut g: usize = 0;
    while g < groups.len()
        invariant
            g <= groups.len(),
            views == group_views(groups@),
            r@ == enabled_by_key(*paths, group_items(views, g as nat)),
        decreases groups.len() - g,
    {
        let subgroups = &groups[g].subgroups;
        let ghost inner = subgroup_views(subgroups@);
        let ghost before = group_items(views, g as nat);
        assert(views[g as int].subgroups == inner);
        let mut s: usize = 0;
        assert(before + subgroup_items(inner, 0) =~= before);
        while s < subgroups.len()
            invariant
                s <= subgroups.len(),
                inner == subgroup_views(subgroups@),
                r@ == enabled_by_key(*paths, before + subgroup_items(inner, s as nat)),
            decreases subgroups.len() - s,
        {
            let items = &subgroups[s].items;
            let ghost listed = item_views(items@);
            let ghost done = before + subgroup_items(inner, s as nat);
            assert(inner[s as int].items == listed);
            let mut i: usize = 0;
            assert(done + listed.take(0) =~= done);
            while i < items.len()
                invariant
                    i <= items.len(),
                    listed == item_views(items@),
                    r@ == enabled_by_key(*paths, done + listed.take(i as int)),
                decreases items.len() - i,
            {
                let ghost next = done + listed.take(i as int + 1);
                assert(next.drop_last() =~= done + listed.take(i as int));
                assert(next.last() == items@[i as int]@);
                r.insert(get_item_key(paths, &items[i]), items[i].enabled);
                i = i + 1;
            }
            assert(done + listed.take(i as int) =~= before + subgroup_items(inner, (s + 1) as nat));
            s = s + 1;
        }
        assert(inner.len() == subgroups@.len());
        assert(before + subgroup_items(inner, s as nat) =~= group_items(views, (g + 1) as nat));
        g = g + 1;
    }
    r
}

/// The settings that the selector works on, and how paths resolve.
pub struct ConfigContext {
    pub project: ResourceSettingsView,
    pub project_dir: Seq<char>,
    pub agent_dir: Seq<char>,
    pub canonical_paths: CanonicalPaths,
    pub source_paths: SourcePaths,
    pub write_scope: ConfigWriteScope,
    pub inherited: Map<Seq<char>, bool>,
}

impl ConfigContext {
    /// With other settings of the project.
    pub open spec fn with_project(self, project: ResourceSettingsView) -> ConfigContext {
        ConfigContext { project, ..self }
    }

    /// The directory of a settings file.
    pub open spec fn base_dir(self, scope: SettingsScope) -> Seq<char> {
        match scope {
            SettingsScope::Project => self.project_dir,
            SettingsScope::User => self.agent_dir,
        }
    }

    /// The pattern of a top-level resource in its own settings.
    pub open spec fn resource_pattern(self, item: ItemView) -> Seq<char> {
        relative_path(
            match item.metadata.base_dir {
                Some(base) => base@,
                None => self.base_dir(item_scope(item)),
            },
            item.path,
        )
    }

    /// The pattern of a resource in its package.
    pub open spec fn package_pattern(self, item: ItemView) -> Seq<char> {
        relative_path(
            match item.metadata.base_dir {
                Some(base) => base@,
                None => dir_name(item.path),
            },
            item.path,
        )
    }

    /// The pattern of a top-level resource in the project's settings.
    pub open spec fn project_pattern(self, item: ItemView) -> Seq<char> {
        if item_scope(item) == SettingsScope::Project {
            self.resource_pattern(item)
        } else {
            item.path
        }
    }

    /// All patterns by which the project's settings can name a top-level resource.
    pub open spec fn override_patterns(self, item: ItemView) -> Seq<Seq<char>> {
        let patterns = seq![
            self.project_pattern(item),
            item.path,
            relative_path(self.project_dir, item.path),
        ];
        match item.metadata.base_dir {
            Some(base) => patterns.push(relative_path(base@, item.path)),
            None => patterns,
        }
    }

    /// Whether the resource would be enabled without the project.
    pub open spec fn inherited_enabled(self, item: ItemView) -> bool {
        let key = item_key(self.canonical_paths, item);
        if self.inherited.contains_key(key) {
            self.inherited[key]
        } else if item_scope(item) == SettingsScope::User {
            item.enabled
        } else {
            true
        }
    }

    /// Whether the resource is a global one.
    pub open spec fn is_inherited(self, item: ItemView) -> bool {
        item_scope(item) == SettingsScope::User || self.inherited.contains_key(
            item_key(self.canonical_paths, item),
        )
    }

    /// What the project's packages say of a resource.
    pub open spec fn package_state(self, item: ItemView) -> ProjectOverrideState {
        let packages = self.project.packages;
        let i = matching_package(
            self.source_paths,
            packages,
            item.metadata.source@,
            item_scope(item),
            self.override_source(item),
        );
        if i < packages.len() {
            match packages[i] {
                PackageView::Filtered(filters) => match filters.filter(item.resource_type) {
                    Some(entries) => if entries.len() == 0 && !filters.autoload_off {
                        ProjectOverrideState::Unload
                    } else {
                        entries_state(entries, seq![self.package_pattern(item)])
                    },
                    None => ProjectOverrideState::Inherit,
                },
                _ => ProjectOverrideState::Inherit,
            }
        } else {
            ProjectOverrideState::Inherit
        }
    }

    /// What the project says of a resource.
    pub open spec fn override_state(self, item: ItemView) -> ProjectOverrideState {
        if self.write_scope != ConfigWriteScope::Project {
            ProjectOverrideState::Inherit
        } else if item.metadata.origin == ResourceOrigin::TopLevel {
            entries_state(self.project.entries(item.resource_type), self.override_patterns(item))
        } else {
            self.package_state(item)
        }
    }

    /// The source under which the project names the package of a global resource.
    pub open spec fn override_source(self, item: ItemView) -> Seq<char> {
        let source = item.metadata.source@;
        if !is_local(source) {
            source
        } else {
            let relative = relative_path(
                self.project_dir,
                self.source_paths.resolved(source, item_scope(item)),
            );
            if relative.len() == 0 {
                "."@
            } else {
                relative
            }
        }
    }

    /// The project's settings after the resource is overridden; none when there is nothing to change.
    pub open spec fn overridden(self, item: ItemView, state: ProjectOverrideState) -> Option<
        ResourceSettingsView,
    > {
        if item.metadata.origin == ResourceOrigin::TopLevel {
            let pattern = if self.is_inherited(item) {
                item.path
            } else {
                self.project_pattern(item)
            };
            Some(
                self.project.with_entries(
                    item.resource_type,
                    overridden_entries(
                        self.project.entries(item.resource_type),
                        pattern,
                        self.override_patterns(item),
                        self.is_inherited(item),
                        state,
                    ),
                ),
            )
        } else {
            match overridden_packages(
                self.source_paths,
                self.project.packages,
                item.metadata.source@,
                item_scope(item),
                self.override_source(item),
                item.resource_type,
                self.package_pattern(item),
                state,
            ) {
                Some(packages) => Some(ResourceSettingsView { packages, ..self.project }),
                None => None,
            }
        }
    }

    /// Whether a resource is enabled in the given state.
    pub open spec fn enabled_in(self, item: ItemView, state: ProjectOverrideState) -> bool {
        match state {
            ProjectOverrideState::Inherit => self.inherited_enabled(item),
            ProjectOverrideState::Load => true,
            ProjectOverrideState::Unload => false,
        }
    }
}

/// The settings of one file after a resource is enabled or disabled there.
pub open spec fn toggled_settings(
    settings: ResourceSettingsView,
    context: ConfigContext,
    item: ItemView,
    enabled: bool,
) -> ResourceSettingsView {
    if item.metadata.origin == ResourceOrigin::TopLevel {
        settings.with_entries(
            item.resource_type,
            toggled_entries(
                settings.entries(item.resource_type),
                context.resource_pattern(item),
                enabled,
            ),
        )
    } else {
        ResourceSettingsView {
            packages: toggled_packages(
                settings.packages,
                item.metadata.source@,
                item.resource_type,
                context.package_pattern(item),
                enabled,
            ),
            ..settings
        }
    }
}

/// Overriding a top-level resource in a project takes effect: the project's settings then say the
/// state that was asked for.
pub proof fn top_level_override_takes_effect(
    context: ConfigContext,
    item: ItemView,
    state: ProjectOverrideState,
)
    requires
        context.write_scope == ConfigWriteScope::Project,
        item.metadata.origin == ResourceOrigin::TopLevel,
        state != ProjectOverrideState::Inherit,
    ensures
        context.overridden(item, state) is Some,
        context.with_project(context.overridden(item, state)->0).override_state(item) == state,
{
    let pattern = if context.is_inherited(item) {
        item.path
    } else {
        context.project_pattern(item)
    };
    let patterns = context.override_patterns(item);
    assert(patterns[0] == context.project_pattern(item) && patterns[1] == item.path);
    assert(patterns.contains(pattern));
    crate::resource_settings::overriding_takes_effect(
        context.project.entries(item.resource_type),
        pattern,
        patterns,
        context.is_inherited(item),
        state,
    );
}

/// Going back to what is inherited takes effect for a top-level resource, unless the project's
/// settings name it without a mark other than by the path that pins a global resource.
pub proof fn top_level_override_is_taken_back(context: ConfigContext, item: ItemView)
    requires
        context.write_scope == ConfigWriteScope::Project,
        item.metadata.origin == ResourceOrigin::TopLevel,
        forall|k: int|
            {
                let entry = #[trigger] context.project.entries(item.resource_type)[k];
                0 <= k < context.project.entries(item.resource_type).len() && !is_marked(entry)
                    && context.override_patterns(item).contains(entry) ==> context.is_inherited(
                    item,
                ) && entry == item.path
            },
    ensures
        context.overridden(item, ProjectOverrideState::Inherit) is Some,
        context.with_project(
            context.overridden(item, ProjectOverrideState::Inherit)->0,
        ).override_state(item) == ProjectOverrideState::Inherit,
{
    let pattern = if context.is_inherited(item) {
        item.path
    } else {
        context.project_pattern(item)
    };
    lemma_kept_inherit(
        context.project.entries(item.resource_type),
        pattern,
        context.override_patterns(item),
        context.is_inherited(item),
    );
}

/// Overriding a resource of a package in a project takes effect: the project's settings then say
/// the state that was asked for. The path of a local package must not read as something to fetch,
/// nor start or end with white space.
pub proof fn package_override_takes_effect(
    context: ConfigContext,
    item: ItemView,
    state: ProjectOverrideState,
)
    requires
        context.write_scope == ConfigWriteScope::Project,
        item.metadata.origin != ResourceOrigin::TopLevel,
        state != ProjectOverrideState::Inherit,
        is_local(item.metadata.source@) ==> is_local(context.override_source(item)) && trim(
            context.override_source(item),
        ) == context.override_source(item),
    ensures
        context.overridden(item, state) is Some,
        context.with_project(context.overridden(item, state)->0).override_state(item) == state,
{
    let paths = context.source_paths;
    let packages = context.project.packages;
    let source = item.metadata.source@;
    let scope = item_scope(item);
    let new_source = context.override_source(item);
    let pattern = context.package_pattern(item);
    let i = matching_package(paths, packages, source, scope, new_source);
    lemma_matching_package_bounds(paths, packages, source, scope, new_source);
    let after = context.overridden(item, state)->0.packages;
    assert(after.len() > i);
    assert(is_package_of(paths, after[i], source, scope, new_source));
    assert forall|j: int| 0 <= j < i implies !is_package_of(
        paths,
        #[trigger] after[j],
        source,
        scope,
        new_source,
    ) by {
        assert(after[j] == packages[j]);
    }
    lemma_matching_package(paths, after, source, scope, new_source, i);
    let entries = if i < packages.len() {
        filters_of(packages[i]).entries(item.resource_type)
    } else {
        Seq::empty()
    };
    toggling_takes_effect(entries, pattern, state == ProjectOverrideState::Load);
    assert(overridden_filter(entries, pattern, state) == toggled_entries(
        entries,
        pattern,
        state == ProjectOverrideState::Load,
    ));
}

/// Going back to what is inherited takes effect for a resource of a package that the project's
/// settings name once.
pub proof fn package_override_is_taken_back(context: ConfigContext, item: ItemView)
    requires
        context.write_scope == ConfigWriteScope::Project,
        item.metadata.origin != ResourceOrigin::TopLevel,
        matching_package(
            context.source_paths,
            context.project.packages,
            item.metadata.source@,
            item_scope(item),
            context.override_source(item),
        ) < context.project.packages.len(),
        forall|j: int|
            matching_package(
                context.source_paths,
                context.project.packages,
                item.metadata.source@,
                item_scope(item),
                context.override_source(item),
            ) < j < context.project.packages.len() ==> !is_package_of(
                context.source_paths,
                #[trigger] context.project.packages[j],
                item.metadata.source@,
                item_scope(item),
                context.override_source(item),
            ),
    ensures
        context.overridden(item, ProjectOverrideState::Inherit) is Some,
        context.with_project(
            context.overridden(item, ProjectOverrideState::Inherit)->0,
        ).override_state(item) == ProjectOverrideState::Inherit,
{
    let paths = context.source_paths;
    let packages = context.project.packages;
    let source = item.metadata.source@;
    let scope = item_scope(item);
    let new_source = context.override_source(item);
    let pattern = context.package_pattern(item);
    let i = matching_package(paths, packages, source, scope, new_source);
    lemma_matching_package_bounds(paths, packages, source, scope, new_source);
    let after = context.overridden(item, ProjectOverrideState::Inherit)->0.packages;
    let filters = filters_of(packages[i]);
    lemma_others_inherit(filters.entries(item.resource_type), pattern);
    if after.len() == packages.len() {
        assert forall|j: int| 0 <= j < i implies !is_package_of(
            paths,
            #[trigger] after[j],
            source,
            scope,
            new_source,
        ) by {
            assert(after[j] == packages[j]);
        }
        lemma_matching_package(paths, after, source, scope, new_source, i);
    } else {
        assert(after == packages.remove(i));
        assert forall|j: int| 0 <= j < after.len() implies !is_package_of(
            paths,
            #[trigger] after[j],
            source,
            scope,
            new_source,
        ) by {
            assert(after[j] == if j < i {
                packages[j]
            } else {
                packages[j + 1]
            });
        }
        lemma_matching_package(paths, after, source, scope, new_source, after.len() as int);
    }
}

impl ResourceList {
    /// The settings that the list works on, and how paths resolve.
    pub open spec fn context(&self) -> ConfigContext {
        ConfigContext {
            project: self.project_settings@,
            project_dir: self.project_dir@,
            agent_dir: self.agent_dir@,
            canonical_paths: self.canonical_paths,
            source_paths: self.source_paths,
            write_scope: self.write_scope,
            inherited: self.inherited_enabled@,
        }
    }

    /// The groups of the settings that are written.
    pub open spec fn groups(&self) -> Seq<GroupView> {
        match self.write_scope {
            ConfigWriteScope::Global => group_views(self.groups_global@),
            ConfigWriteScope::Project => group_views(self.groups_project@),
        }
    }

    /// Whether the shown lines are lines of the groups, and the selection is valid.
    pub open spec fn wf(&self) -> bool {
        &&& self.flat_items@ == group_lines(self.groups(), self.groups().len())
        &&& forall|k: int|
            0 <= k < self.filtered_items@.len() ==> is_line(
                self.groups(),
                #[trigger] self.filtered_items@[k],
            )
        &&& crate::scroll::valid_selection(
            self.selected_index as int,
            self.filtered_items@.len() as int,
        )
    }

    /// The selected item.
    pub open spec fn selected_item(&self) -> Option<ItemView> {
        if self.selected_index < self.filtered_items@.len() {
            match self.filtered_items@[self.selected_index as int] {
                FlatEntry::Item(g, s, i) => Some(item_of(self.groups(), g, s, i)),
                _ => None,
            }
        } else {
            None
        }
    }

    /// The lines that the query selects.
    pub open spec fn lines_for(&self, query: Seq<char>) -> Seq<FlatEntry> {
        let lines = group_lines(self.groups(), self.groups().len());
        if is_blank(query) {
            lines
        } else {
            kept_lines(self.groups(), lines, query)
        }
    }

    /// What has to be written when a resource is enabled or disabled in its own settings: nothing if
    /// they do not name its package.
    pub open spec fn write_of(&self, item: ItemView) -> SettingsWrite {
        let packages = match item_scope(item) {
            SettingsScope::User => self.global_settings@.packages,
            SettingsScope::Project => self.project_settings@.packages,
        };
        if item.metadata.origin == ResourceOrigin::TopLevel {
            SettingsWrite::Paths(item_scope(item), item.resource_type)
        } else if package_at(packages, item.metadata.source@) < packages.len() {
            SettingsWrite::Packages(item_scope(item))
        } else {
            SettingsWrite::Nothing
        }
    }

    fn base_dir(&self, scope: SettingsScope) -> (r: &str)
        ensures
            r@ == self.context().base_dir(scope),
    {
        match scope {
            SettingsScope::Project => self.project_dir.as_str(),
            SettingsScope::User => self.agent_dir.as_str(),
        }
    }

    fn resource_pattern(&self, item: &ResourceItem) -> (r: String)
        ensures
            r@ == self.context().resource_pattern(item@),
    {
        match &item.metadata.base_dir {
            Some(base) => relative_string(base.as_str(), item.path.as_str()),
            None => relative_string(self.base_dir(get_item_scope(item)), item.path.as_str()),
        }
    }

    fn package_resource_pattern(&self, item: &ResourceItem) -> (r: String)
        ensures
            r@ == self.context().package_pattern(item@),
    {
        match &item.metadata.base_dir {
            Some(base) => relative_string(base.as_str(), item.path.as_str()),
            None => relative_string(dirname(item.path.as_str()).as_str(), item.path.as_str()),
        }
    }

    fn project_pattern(&self, item: &ResourceItem) -> (r: String)
        ensures
            r@ == self.context().project_pattern(item@),
    {
        if get_item_scope(item) == SettingsScope::Project {
            self.resource_pattern(item)
        } else {
            item.path.clone()
        }
    }

    fn top_level_override_patterns(&self, item: &ResourceItem) -> (r: Vec<String>)
        ensures
            texts(r@) == self.context().override_patterns(item@),
    {
        let mut r: Vec<String> = Vec::new();
        push_text(&mut r, self.project_pattern(item));
        push_text(&mut r, item.path.clone());
        push_text(&mut r, relative_string(self.project_dir.as_str(), item.path.as_str()));
        if let Some(base) = &item.metadata.base_dir {
            push_text(&mut r, relative_string(base.as_str(), item.path.as_str()));
        }
        assert(texts(r@) =~= self.context().override_patterns(item@));
        r
    }

    /// Whether the resource would be enabled without the project.
    pub fn inherited_enabled(&self, item: &ResourceItem) -> (r: bool)
        ensures
            r == self.context().inherited_enabled(item@),
    {
        let key = get_item_key(&self.canonical_paths, item);
        match self.inherited_enabled.get(key.as_str()) {
            Some(enabled) => *enabled,
            None => if get_item_scope(item) == SettingsScope::User {
                item.enabled
            } else {
                true
            },
        }
    }

    /// Whether the resource is a global one.
    pub fn is_inherited_global_item(&self, item: &ResourceItem) -> (r: bool)
        ensures
            r == self.context().is_inherited(item@),
    {
        let key = get_item_key(&self.canonical_paths, item);
        get_item_scope(item) == SettingsScope::User || self.inherited_enabled.contains_key(
            key.as_str(),
        )
    }

    /// What the project says of a resource.
    pub fn project_override_state(&self, item: &ResourceItem) -> (r: ProjectOverrideState)
        ensures
            r == self.context().override_state(item@),
    {
        if self.write_scope != ConfigWriteScope::Project {
            return ProjectOverrideState::Inherit;
        }
        if item.metadata.origin == ResourceOrigin::TopLevel {
            let patterns = self.top_level_override_patterns(item);
            return override_state_from_entries(
                self.project_settings.entries_for(item.resource_type),
                &patterns,
                false,
            );
        }
        let new_source = self.override_source(item);
        let packages = &self.project_settings.packages;
        let at: usize = find_matching_package(
            &self.source_paths,
            packages,
            item.metadata.source.as_str(),
            get_item_scope(item),
            new_source.as_str(),
        );
        if at >= packages.len() {
            return ProjectOverrideState::Inherit;
        }
        assert(package_views(packages@)[at as int] == packages@[at as int]@);
        match &packages[at] {
            PackageEntry::Filtered(filters) => {
                let filter = match item.resource_type {
                    ResourceType::Extensions => &filters.extensions,
                    ResourceType::Skills => &filters.skills,
                    ResourceType::Prompts => &filters.prompts,
                    ResourceType::Themes => &filters.themes,
                };
                match filter {
                    Some(entries) => {
                        let mut patterns: Vec<String> = Vec::new();
                        push_text(&mut patterns, self.package_resource_pattern(item));
                        assert(texts(patterns@) =~= seq![self.context().package_pattern(item@)]);
                        assert(texts(entries@).len() == entries@.len());
                        override_state_from_entries(entries, &patterns, !filters.autoload_off)
                    },
                    None => ProjectOverrideState::Inherit,
                }
            },
            _ => ProjectOverrideState::Inherit,
        }
    }

    fn override_source(&self, item: &ResourceItem) -> (r: String)
        ensures
            r@ == self.context().override_source(item@),
    {
        let source = item.metadata.source.as_str();
        if !is_local_path(source) {
            return source.to_owned();
        }
        let resolved = self.source_paths.resolve(source, get_item_scope(item));
        let relative = relative_string(self.project_dir.as_str(), resolved.as_str());
        if relative.as_str().is_empty() {
            ".".to_owned()
        } else {
            relative
        }
    }

    /// Overrides a resource in the project's settings. Returns what has to be written, or none when
    /// there is nothing to change.
    pub(crate) fn set_project_resource_override(
        &mut self,
        item: &ResourceItem,
        state: ProjectOverrideState,
    ) -> (r: Option<SettingsWrite>)
        ensures
            match old(self).context().overridden(item@, state) {
                Some(settings) => {
                    &&& final(self).project_settings@ == settings
                    &&& r == Some(
                        if item.metadata.origin == ResourceOrigin::TopLevel {
                            SettingsWrite::Paths(SettingsScope::Project, item.resource_type)
                        } else {
                            SettingsWrite::Packages(SettingsScope::Project)
                        },
                    )
                },
                None => r is None && final(self).project_settings@ == old(self).project_settings@,
            },
            *final(self) == (ResourceList {
                project_settings: final(self).project_settings,
                ..*old(self)
            }),
    {
        if item.metadata.origin == ResourceOrigin::TopLevel {
            let inherited = self.is_inherited_global_item(item);
            let pattern = if inherited {
                item.path.clone()
            } else {
                self.project_pattern(item)
            };
            let patterns = self.top_level_override_patterns(item);
            let updated = override_entries(
                self.project_settings.entries_for(item.resource_type),
                pattern.as_str(),
                &patterns,
                inherited,
                state,
            );
            self.project_settings.set_entries(item.resource_type, updated);
            Some(SettingsWrite::Paths(SettingsScope::Project, item.resource_type))
        } else {
            let pattern = self.package_resource_pattern(item);
            let new_source = self.override_source(item);
            let changed = override_package(
                &self.source_paths,
                &mut self.project_settings.packages,
                item.metadata.source.as_str(),
                get_item_scope(item),
                new_source.as_str(),
                item.resource_type,
                pattern.as_str(),
                state,
            );
            if changed {
                Some(SettingsWrite::Packages(SettingsScope::Project))
            } else {
                None
            }
        }
    }

    /// Enables or disables a resource in its own settings. Returns what has to be written.
    pub(crate) fn toggle_own(&mut self, item: &ResourceItem, enabled: bool) -> (r: SettingsWrite)
        ensures
            match item_scope(item@) {
                SettingsScope::User => {
                    &&& final(self).global_settings@ == toggled_settings(
                        old(self).global_settings@,
                        old(self).context(),
                        item@,
                        enabled,
                    )
                    &&& final(self).project_settings == old(self).project_settings
                },
                SettingsScope::Project => {
                    &&& final(self).project_settings@ == toggled_settings(
                        old(self).project_settings@,
                        old(self).context(),
                        item@,
                        enabled,
                    )
                    &&& final(self).global_settings == old(self).global_settings
                },
            },
            r == old(self).write_of(item@),
            *final(self) == (ResourceList {
                project_settings: final(self).project_settings,
                global_settings: final(self).global_settings,
                ..*old(self)
            }),
    {
        let scope = get_item_scope(item);
        if item.metadata.origin == ResourceOrigin::TopLevel {
            let pattern = self.resource_pattern(item);
            match scope {
                SettingsScope::User => {
                    let updated = toggle_entries(
                        self.global_settings.entries_for(item.resource_type),
                        pattern.as_str(),
                        enabled,
                    );
                    self.global_settings.set_entries(item.resource_type, updated);
                },
                SettingsScope::Project => {
                    let updated = toggle_entries(
                        self.project_settings.entries_for(item.resource_type),
                        pattern.as_str(),
                        enabled,
                    );
                    self.project_settings.set_entries(item.resource_type, updated);
                },
            }
            SettingsWrite::Paths(scope, item.resource_type)
        } else {
            let pattern = self.package_resource_pattern(item);
            let source = item.metadata.source.as_str();
            let found = match scope {
                SettingsScope::User => toggle_package(
                    &mut self.global_settings.packages,
                    source,
                    item.resource_type,
                    pattern.as_str(),
                    enabled,
                ),
                SettingsScope::Project => toggle_package(
                    &mut self.project_settings.packages,
                    source,
                    item.resource_type,
                    pattern.as_str(),
                    enabled,
                ),
            };
            if found {
                SettingsWrite::Packages(scope)
            } else {
                SettingsWrite::Nothing
            }
        }
    }
}

} // verus!
