//! How the resource list reacts to key presses, and what it shows.

use crate::config_selector::{
    check_line, first_item, get_item_scope, group_items, group_lines, is_line, item_of, item_scope,
    kept_lines, lemma_group_lines, lemma_sizes_fit, list_lines, map_enabled, next_item,
    previous_item, seek_item, seek_item_back, toggled_settings, ConfigWriteScope, FlatEntry,
    ResourceList, ResourceSettings, SettingsWrite,
};
use crate::config_selector::enabled_by_key;
use crate::keybinding_hints::KeyMatches;
use crate::resource_settings::{
    next_override_state, next_state, ProjectOverrideState, SettingsScope, SourcePaths,
};
use crate::resources::{
    group_views, item_views, subgroup_views, GroupView, ItemView, ResourceGroup, ResourceItem,
    ResourceSubgroup, ResourceType, SubgroupView,
};
use crate::session::CanonicalPaths;
use crate::text::{chars_of, lemma_trim_empty, lowercase, str_eq, to_lowercase, trim_slice};
use vstd::prelude::*;
use vstd::string::*;

verus! {

broadcast use vstd::string::group_string_axioms;

/// What the resource list asks of its owner.
#[derive(Debug, Clone, Copy, PartialEq, Eq, Structural)]
pub enum ConfigRequest {
    Nothing,
    Close,
    Exit,
    SwitchMode,
    /// The key press goes to the search input.
    Edit,
    /// The selected resource was enabled or disabled; this has to be written.
    Toggled(SettingsWrite),
}

/// What a key press does to the resource list.
#[derive(Debug, Clone, Copy, PartialEq, Eq, Structural)]
pub enum ConfigAction {
    Up,
    Down,
    PageUp,
    PageDown,
    Close,
    Exit,
    SwitchMode,
    Toggle,
    Edit,
}

/// What a key press does: the first of the list's keys that it matches.
pub open spec fn config_action(key: KeyMatches, data: Seq<char>) -> ConfigAction {
    if key.has("tui.select.up"@) {
        ConfigAction::Up
    } else if key.has("tui.select.down"@) {
        ConfigAction::Down
    } else if key.has("tui.select.pageUp"@) {
        ConfigAction::PageUp
    } else if key.has("tui.select.pageDown"@) {
        ConfigAction::PageDown
    } else if key.has("tui.select.cancel"@) {
        ConfigAction::Close
    } else if key.has("ctrl+c"@) {
        ConfigAction::Exit
    } else if key.has("tui.input.tab"@) {
        ConfigAction::SwitchMode
    } else if data == " "@ || key.has("tui.select.confirm"@) {
        ConfigAction::Toggle
    } else {
        ConfigAction::Edit
    }
}

fn classify(key: &KeyMatches, data: &str) -> (r: ConfigAction)
    ensures
        r == config_action(*key, data@),
{
    if key.matches("tui.select.up") {
        ConfigAction::Up
    } else if key.matches("tui.select.down") {
        ConfigAction::Down
    } else if key.matches("tui.select.pageUp") {
        ConfigAction::PageUp
    } else if key.matches("tui.select.pageDown") {
        ConfigAction::PageDown
    } else if key.matches("tui.select.cancel") {
        ConfigAction::Close
    } else if key.matches("ctrl+c") {
        ConfigAction::Exit
    } else if key.matches("tui.input.tab") {
        ConfigAction::SwitchMode
    } else if str_eq(data, " ") || key.matches("tui.select.confirm") {
        ConfigAction::Toggle
    } else {
        ConfigAction::Edit
    }
}

/// Whether the item is the resource of the type at the path.
pub open spec fn is_resource(item: ItemView, path: Seq<char>, resource_type: ResourceType) -> bool {
    item.path == path && item.resource_type == resource_type
}

/// The items with every one that is the given resource enabled or disabled.
pub open spec fn items_with_enabled(
    items: Seq<ItemView>,
    path: Seq<char>,
    resource_type: ResourceType,
    enabled: bool,
) -> Seq<ItemView> {
    items.map_values(
        |item: ItemView|
            if is_resource(item, path, resource_type) {
                ItemView { enabled, ..item }
            } else {
                item
            },
    )
}

/// The subgroups with every item that is the given resource enabled or disabled.
pub open spec fn subgroups_with_enabled(
    subgroups: Seq<SubgroupView>,
    path: Seq<char>,
    resource_type: ResourceType,
    enabled: bool,
) -> Seq<SubgroupView> {
    subgroups.map_values(
        |subgroup: SubgroupView|
            SubgroupView {
                items: items_with_enabled(subgroup.items, path, resource_type, enabled),
                ..subgroup
            },
    )
}

/// The groups with every item that is the given resource enabled or disabled.
pub open spec fn with_enabled(
    groups: Seq<GroupView>,
    path: Seq<char>,
    resource_type: ResourceType,
    enabled: bool,
) -> Seq<GroupView> {
    groups.map_values(
        |group: GroupView|
            GroupView {
                subgroups: subgroups_with_enabled(group.subgroups, path, resource_type, enabled),
                ..group
            },
    )
}

/// Every copy of the resource in the groups shows whether it is enabled, and every other item stays
/// as it is.
pub proof fn every_copy_is_updated(
    groups: Seq<GroupView>,
    path: Seq<char>,
    resource_type: ResourceType,
    enabled: bool,
    g: usize,
    s: usize,
    i: usize,
)
    requires
        is_line(groups, FlatEntry::Item(g, s, i)),
    ensures
        is_line(with_enabled(groups, path, resource_type, enabled), FlatEntry::Item(g, s, i)),
        ({
            let before = item_of(groups, g, s, i);
            let after = item_of(with_enabled(groups, path, resource_type, enabled), g, s, i);
            if is_resource(before, path, resource_type) {
                after.enabled == enabled && after == ItemView { enabled, ..before }
            } else {
                after == before
            }
        }),
{
}

fn enable_items(
    items: &Vec<ResourceItem>,
    path: &str,
    resource_type: ResourceType,
    enabled: bool,
) -> (r: Vec<ResourceItem>)
    ensures
        item_views(r@) == items_with_enabled(item_views(items@), path@, resource_type, enabled),
{
    let ghost wanted = items_with_enabled(item_views(items@), path@, resource_type, enabled);
    let mut r: Vec<ResourceItem> = Vec::new();
    let mut i: usize = 0;
    while i < items.len()
        invariant
            i <= items.len(),
            wanted == items_with_enabled(item_views(items@), path@, resource_type, enabled),
            item_views(r@) =~= wanted.take(i as int),
        decreases items.len() - i,
    {
        let mut item = items[i].clone();
        if str_eq(item.path.as_str(), path) && item.resource_type == resource_type {
            item.enabled = enabled;
        }
        assert(item_views(items@)[i as int] == items@[i as int]@);
        assert(item@ =~= wanted[i as int]);
        let ghost before = r@;
        r.push(item);
        assert(item_views(r@) =~= item_views(before).push(item@));
        i = i + 1;
    }
    assert(wanted.take(i as int) =~= wanted);
    r
}

fn enable_in_subgroups(
    subgroups: &Vec<ResourceSubgroup>,
    path: &str,
    resource_type: ResourceType,
    enabled: bool,
) -> (r: Vec<ResourceSubgroup>)
    ensures
        subgroup_views(r@) == subgroups_with_enabled(
            subgroup_views(subgroups@),
            path@,
            resource_type,
            enabled,
        ),
{
    let ghost wanted = subgroups_with_enabled(
        subgroup_views(subgroups@),
        path@,
        resource_type,
        enabled,
    );
    let mut r: Vec<ResourceSubgroup> = Vec::new();
    let mut s: usize = 0;
    while s < subgroups.len()
        invariant
            s <= subgroups.len(),
            wanted == subgroups_with_enabled(
                subgroup_views(subgroups@),
                path@,
                resource_type,
                enabled,
            ),
            subgroup_views(r@) =~= wanted.take(s as int),
        decreases subgroups.len() - s,
    {
        let subgroup = ResourceSubgroup {
            resource_type: subgroups[s].resource_type,
            label: subgroups[s].label,
            items: enable_items(&subgroups[s].items, path, resource_type, enabled),
        };
        assert(subgroup_views(subgroups@)[s as int] == subgroups@[s as int]@);
        assert(subgroup@ =~= wanted[s as int]);
        let ghost before = r@;
        r.push(subgroup);
        assert(subgroup_views(r@) =~= subgroup_views(before).push(subgroup@));
        s = s + 1;
    }
    assert(wanted.take(s as int) =~= wanted);
    r
}

fn enable_in_groups(
    groups: &Vec<ResourceGroup>,
    path: &str,
    resource_type: ResourceType,
    enabled: bool,
) -> (r: Vec<ResourceGroup>)
    ensures
        group_views(r@) == with_enabled(group_views(groups@), path@, resource_type, enabled),
{
    let ghost wanted = with_enabled(group_views(groups@), path@, resource_type, enabled);
    let mut r: Vec<ResourceGroup> = Vec::new();
    let mut g: usize = 0;
    while g < groups.len()
        invariant
            g <= groups.len(),
            wanted == with_enabled(group_views(groups@), path@, resource_type, enabled),
            group_views(r@) =~= wanted.take(g as int),
        decreases groups.len() - g,
    {
        let subgroups = enable_in_subgroups(&groups[g].subgroups, path, resource_type, enabled);
        let mut group = groups[g].clone();
        group.subgroups = subgroups;
        assert(group_views(groups@)[g as int] == groups@[g as int]@);
        assert(group@ =~= wanted[g as int]);
        let ghost before = r@;
        r.push(group);
        assert(group_views(r@) =~= group_views(before).push(group@));
        g = g + 1;
    }
    assert(wanted.take(g as int) =~= wanted);
    r
}

proof fn lemma_same_lines(
    groups: Seq<GroupView>,
    path: Seq<char>,
    resource_type: ResourceType,
    enabled: bool,
)
    ensures
        forall|entry: FlatEntry|
            #![trigger is_line(with_enabled(groups, path, resource_type, enabled), entry)]
            is_line(groups, entry) == is_line(
                with_enabled(groups, path, resource_type, enabled),
                entry,
            ),
        group_lines(with_enabled(groups, path, resource_type, enabled), groups.len())
            == group_lines(groups, groups.len()),
{
    let changed = with_enabled(groups, path, resource_type, enabled);
    assert forall|entry: FlatEntry|
        #![trigger is_line(changed, entry)]
        is_line(groups, entry) == is_line(changed, entry) by {
        match entry {
            FlatEntry::Group(h) => {},
            FlatEntry::Subgroup(h, t) => {
                if h < groups.len() {
                    assert(changed[h as int].subgroups.len() == groups[h as int].subgroups.len());
                }
            },
            FlatEntry::Item(h, t, j) => {
                if h < groups.len() && t < groups[h as int].subgroups.len() {
                    assert(changed[h as int].subgroups[t as int].items.len()
                        == groups[h as int].subgroups[t as int].items.len());
                }
            },
        }
    }
    lemma_same_group_lines(groups, changed, groups.len());
}

proof fn lemma_same_group_lines(a: Seq<GroupView>, b: Seq<GroupView>, n: nat)
    requires
        a.len() == b.len(),
        n <= a.len(),
        forall|g: int|
            0 <= g < a.len() ==> (#[trigger] a[g]).subgroups.len() == b[g].subgroups.len(),
        forall|g: int, s: int|
            #![trigger a[g].subgroups[s]]
            0 <= g < a.len() && 0 <= s < a[g].subgroups.len() ==> a[g].subgroups[s].items.len()
                == b[g].subgroups[s].items.len(),
    ensures
        group_lines(a, n) == group_lines(b, n),
    decreases n,
{
    if n > 0 {
        lemma_same_group_lines(a, b, (n - 1) as nat);
        assert(a[n - 1].subgroups.len() == b[n - 1].subgroups.len());
        assert forall|s: int| 0 <= s < a[n - 1].subgroups.len() implies (
        #[trigger] a[n - 1].subgroups[s]).items.len() == b[n - 1].subgroups[s].items.len() by {}
        lemma_same_subgroup_lines(
            a[n - 1].subgroups,
            b[n - 1].subgroups,
            (n - 1) as usize,
            a[n - 1].subgroups.len(),
        );
    }
}

proof fn lemma_same_subgroup_lines(
    a: Seq<SubgroupView>,
    b: Seq<SubgroupView>,
    g: usize,
    n: nat,
)
    requires
        a.len() == b.len(),
        n <= a.len(),
        forall|s: int|
            0 <= s < a.len() ==> (#[trigger] a[s]).items.len() == b[s].items.len(),
    ensures
        crate::config_selector::subgroup_lines(g, a, n) == crate::config_selector::subgroup_lines(
            g,
            b,
            n,
        ),
    decreases n,
{
    if n > 0 {
        lemma_same_subgroup_lines(a, b, g, (n - 1) as nat);
        assert(a[n - 1].items.len() == b[n - 1].items.len());
    }
}

proof fn lemma_kept_are_lines(groups: Seq<GroupView>, lines: Seq<FlatEntry>, query: Seq<char>)
    requires
        forall|k: int| 0 <= k < lines.len() ==> is_line(groups, #[trigger] lines[k]),
    ensures
        forall|k: int|
            0 <= k < kept_lines(groups, lines, query).len() ==> is_line(
                groups,
                #[trigger] kept_lines(groups, lines, query)[k],
            ),
    decreases lines.len(),
{
    if lines.len() > 0 {
        let rest = lines.drop_last();
        assert forall|k: int| 0 <= k < rest.len() implies is_line(groups, #[trigger] rest[k]) by {
            assert(rest[k] == lines[k]);
        }
        lemma_kept_are_lines(groups, rest, query);
        let before = kept_lines(groups, rest, query);
        let all = kept_lines(groups, lines, query);
        assert(lines.last() == lines[lines.len() - 1]);
        assert forall|k: int| 0 <= k < all.len() implies is_line(groups, #[trigger] all[k]) by {
            if k < before.len() {
                assert(all[k] == before[k]);
            }
        }
    }
}

/// Whether `after` is `before` with the lines that its query selects, the first item selected.
pub open spec fn research(before: ResourceList, after: ResourceList) -> bool {
    &&& after.filtered_items@ == before.lines_for(before.query@)
    &&& after.selected_index == first_item(after.filtered_items@)
    &&& after == ResourceList {
        filtered_items: after.filtered_items,
        selected_index: after.selected_index,
        ..before
    }
}

/// The lines that the list has room for: what the rest of the selector leaves of the terminal, and
/// at least five.
pub open spec fn room_for(terminal_height: Option<u16>) -> nat {
    let height = match terminal_height {
        Some(height) => height as nat,
        None => 24,
    };
    if height > 13 {
        (height - 8) as nat
    } else {
        5
    }
}

/// Whether a key press turns the list from `before` into `after` and asks for `request`.
pub open spec fn list_responded(
    before: ResourceList,
    after: ResourceList,
    key: KeyMatches,
    data: Seq<char>,
    request: ConfigRequest,
) -> bool {
    match config_action(key, data) {
        ConfigAction::Close => request == ConfigRequest::Close && after == before,
        ConfigAction::Exit => request == ConfigRequest::Exit && after == before,
        ConfigAction::SwitchMode => request == ConfigRequest::SwitchMode && after
            == before,
        ConfigAction::Edit => request == ConfigRequest::Edit && after == before,
        ConfigAction::Toggle => match request {
            ConfigRequest::Toggled(write) => before.can_toggle() && before.toggled(
                after,
                write,
            ),
            _ => {
                &&& request == ConfigRequest::Nothing
                &&& after.groups() == before.groups()
                &&& after.project_settings@ == before.project_settings@
                &&& after == ResourceList {
                    project_settings: after.project_settings,
                    ..before
                }
                &&& before.can_toggle() ==> {
                    let item = before.selected_item()->0;
                    let context = before.context();
                    &&& before.write_scope == ConfigWriteScope::Project
                    &&& context.overridden(
                        item,
                        next_state(
                            context.override_state(item),
                            context.inherited_enabled(item),
                        ),
                    ) is None
                }
            },
        },
        action => {
            &&& request == ConfigRequest::Nothing
            &&& after.selected_index == before.selection_after(action)
            &&& after == ResourceList {
                selected_index: after.selected_index,
                ..before
            }
        },
    }
}

impl ResourceList {
    /// A list of the resources. Neither `global_settings` nor `project_settings` is read before a
    /// resource is toggled.
    pub fn new(
        groups_global: Vec<ResourceGroup>,
        groups_project: Vec<ResourceGroup>,
        global_settings: ResourceSettings,
        project_settings: ResourceSettings,
        project_dir: String,
        agent_dir: String,
        canonical_paths: CanonicalPaths,
        source_paths: SourcePaths,
        terminal_height: Option<u16>,
        write_scope: ConfigWriteScope,
    ) -> (r: Self)
        ensures
            r.wf(),
            r.groups_global == groups_global,
            r.groups_project == groups_project,
            r.filtered_items@ == group_lines(r.groups(), r.groups().len()),
            r.selected_index == first_item(r.filtered_items@),
            r.query@.len() == 0,
            r.max_visible == room_for(terminal_height),
            r.global_settings == global_settings,
            r.project_settings == project_settings,
            r.project_dir == project_dir,
            r.agent_dir == agent_dir,
            r.canonical_paths == canonical_paths,
            r.source_paths == source_paths,
            r.write_scope == write_scope,
            r.inherited_enabled@ == enabled_by_key(
                canonical_paths,
                group_items(group_views(groups_global@), groups_global@.len()),
            ),
    {
        let inherited_enabled = map_enabled(&canonical_paths, &groups_global);
        let height: u16 = match terminal_height {
            Some(height) => height,
            None => 24,
        };
        let max_visible: usize = if height > 13 {
            (height - 8) as usize
        } else {
            5
        };
        let lines = match write_scope {
            ConfigWriteScope::Global => list_lines(&groups_global),
            ConfigWriteScope::Project => list_lines(&groups_project),
        };
        let shown = vstd::slice::slice_to_vec(lines.as_slice());
        let first: usize = seek_item(&shown, 0);
        let selected_index: usize = if first < shown.len() {
            first
        } else {
            0
        };
        proof {
            lemma_sizes_fit(&groups_global);
            lemma_sizes_fit(&groups_project);
            lemma_group_lines(group_views(groups_global@), groups_global@.len());
            lemma_group_lines(group_views(groups_project@), groups_project@.len());
        }
        ResourceList {
            groups_global,
            groups_project,
            flat_items: lines,
            filtered_items: shown,
            selected_index,
            query: String::new(),
            max_visible,
            global_settings,
            project_settings,
            project_dir,
            agent_dir,
            canonical_paths,
            source_paths,
            write_scope,
            inherited_enabled,
        }
    }

    /// Lists the lines that the query selects.
    fn filter_items(&mut self)
        requires
            old(self).flat_items@ == group_lines(old(self).groups(), old(self).groups().len()),
        ensures
            final(self).wf(),
            research(*old(self), *final(self)),
    {
        proof {
            lemma_trim_empty(self.query@);
            lemma_sizes_fit(&self.groups_global);
            lemma_sizes_fit(&self.groups_project);
            lemma_group_lines(self.groups(), self.groups().len());
        }
        let chars = chars_of(self.query.as_str());
        let ghost all = self.flat_items@;
        if trim_slice(chars.as_slice()).len() == 0 {
            self.filtered_items = vstd::slice::slice_to_vec(self.flat_items.as_slice());
        } else {
            let needle = to_lowercase(self.query.as_str());
            let mut kept: Vec<FlatEntry> = Vec::new();
            let mut i: usize = 0;
            assert(all.take(0) =~= Seq::empty());
            while i < self.flat_items.len()
                invariant
                    i <= self.flat_items.len(),
                    *self == *old(self),
                    all == self.flat_items@,
                    needle@ == lowercase(self.query@),
                    forall|k: int| 0 <= k < all.len() ==> is_line(self.groups(), #[trigger] all[k]),
                    kept@ =~= kept_lines(self.groups(), all.take(i as int), self.query@),
                decreases self.flat_items.len() - i,
            {
                assert(all.take(i as int + 1).drop_last() =~= all.take(i as int));
                let entry = self.flat_items[i];
                assert(is_line(self.groups(), all[i as int]));
                let keep = match self.write_scope {
                    ConfigWriteScope::Global => check_line(
                        &self.groups_global,
                        entry,
                        needle.as_str(),
                        self.query.as_str(),
                    ),
                    ConfigWriteScope::Project => check_line(
                        &self.groups_project,
                        entry,
                        needle.as_str(),
                        self.query.as_str(),
                    ),
                };
                if keep {
                    kept.push(entry);
                }
                i = i + 1;
            }
            assert(all.take(i as int) =~= all);
            proof {
                lemma_kept_are_lines(self.groups(), all, self.query@);
            }
            self.filtered_items = kept;
        }
        let first: usize = seek_item(&self.filtered_items, 0);
        self.selected_index = if first < self.filtered_items.len() {
            first
        } else {
            0
        };
    }

    /// Changes the query.
    pub fn set_query(&mut self, query: String)
        requires
            old(self).wf(),
        ensures
            final(self).wf(),
            research(ResourceList { query, ..*old(self) }, *final(self)),
    {
        self.query = query;
        self.filter_items();
    }

    /// Changes which settings are written.
    pub fn set_write_scope(&mut self, write_scope: ConfigWriteScope)
        ensures
            final(self).wf(),
            research(
                ResourceList { write_scope, flat_items: final(self).flat_items, ..*old(self) },
                *final(self),
            ),
    {
        self.write_scope = write_scope;
        self.flat_items = match write_scope {
            ConfigWriteScope::Global => list_lines(&self.groups_global),
            ConfigWriteScope::Project => list_lines(&self.groups_project),
        };
        self.filter_items();
    }

    /// Where a key press leaves the selection.
    pub open spec fn selection_after(&self, action: ConfigAction) -> int {
        let lines = self.filtered_items@;
        let at = self.selected_index as int;
        match action {
            ConfigAction::Up => if previous_item(lines, at - 1) >= 0 {
                previous_item(lines, at - 1)
            } else {
                at
            },
            ConfigAction::Down => if next_item(lines, at + 1) < lines.len() {
                next_item(lines, at + 1)
            } else {
                at
            },
            ConfigAction::PageUp => {
                let target = if at > self.max_visible {
                    at - self.max_visible
                } else {
                    0
                };
                if next_item(lines, target) < lines.len() {
                    next_item(lines, target)
                } else {
                    at
                }
            },
            ConfigAction::PageDown => {
                let last = lines.len() - 1;
                let target = if at + self.max_visible < last {
                    at + self.max_visible
                } else {
                    last
                };
                if previous_item(lines, target) >= 0 {
                    previous_item(lines, target)
                } else {
                    at
                }
            },
            _ => at,
        }
    }

    /// Whether the selected item can be toggled in the settings that are written.
    pub open spec fn can_toggle(&self) -> bool {
        match self.selected_item() {
            Some(item) => self.write_scope == ConfigWriteScope::Project || item_scope(item)
                == SettingsScope::User,
            None => false,
        }
    }

    /// Whether `after` is `self` with the resource toggled: in the project the next override state is
    /// written, otherwise the opposite of what is enabled. Every item that is the resource shows the
    /// result.
    pub open spec fn toggled(&self, after: ResourceList, write: SettingsWrite) -> bool {
        let item = self.selected_item()->0;
        let context = self.context();
        let state = next_state(context.override_state(item), context.inherited_enabled(item));
        let enabled = if self.write_scope == ConfigWriteScope::Project {
            context.enabled_in(item, state)
        } else {
            !item.enabled
        };
        &&& if self.write_scope == ConfigWriteScope::Project {
            &&& context.overridden(item, state) is Some
            &&& after.project_settings@ == context.overridden(item, state)->0
            &&& after.global_settings == self.global_settings
            &&& write == if item.metadata.origin == crate::resources::ResourceOrigin::TopLevel {
                SettingsWrite::Paths(SettingsScope::Project, item.resource_type)
            } else {
                SettingsWrite::Packages(SettingsScope::Project)
            }
        } else {
            &&& after.global_settings@ == toggled_settings(
                self.global_settings@,
                context,
                item,
                enabled,
            )
            &&& after.project_settings == self.project_settings
            &&& write == self.write_of(item)
        }
        &&& after.groups() == with_enabled(
            self.groups(),
            item.path,
            item.resource_type,
            enabled,
        )
        &&& after == ResourceList {
            groups_global: after.groups_global,
            groups_project: after.groups_project,
            global_settings: after.global_settings,
            project_settings: after.project_settings,
            ..*self
        }
        &&& self.write_scope == ConfigWriteScope::Project ==> after.groups_global
            == self.groups_global
        &&& self.write_scope == ConfigWriteScope::Global ==> after.groups_project
            == self.groups_project
    }

    /// The selected item.
    fn get_selected(&self) -> (r: Option<ResourceItem>)
        requires
            self.wf(),
        ensures
            match r {
                Some(item) => self.selected_item() == Some(item@),
                None => self.selected_item() is None,
            },
            r is Some ==> self.selected_index < self.filtered_items@.len()
                && self.filtered_items@[self.selected_index as int] is Item,
    {
        if self.selected_index >= self.filtered_items.len() {
            return None;
        }
        let entry = self.filtered_items[self.selected_index];
        assert(is_line(self.groups(), self.filtered_items@[self.selected_index as int]));
        match entry {
            FlatEntry::Item(g, s, i) => {
                let groups = match self.write_scope {
                    ConfigWriteScope::Global => &self.groups_global,
                    ConfigWriteScope::Project => &self.groups_project,
                };
                proof {
                    let views = group_views(groups@);
                    assert(views == self.groups());
                    assert(views[g as int] == groups@[g as int]@);
                    assert(views[g as int].subgroups[s as int]
                        == groups@[g as int].subgroups@[s as int]@);
                    assert(views[g as int].subgroups[s as int].items[i as int]
                        == groups@[g as int].subgroups@[s as int].items@[i as int]@);
                }
                Some(groups[g].subgroups[s].items[i].clone())
            },
            _ => None,
        }
    }

    /// Shows whether the resource is enabled, at every item that is the resource.
    fn update_item(&mut self, item: &ResourceItem, enabled: bool)
        requires
            old(self).wf(),
        ensures
            final(self).wf(),
            final(self).groups() == with_enabled(
                old(self).groups(),
                item@.path,
                item@.resource_type,
                enabled,
            ),
            old(self).write_scope == ConfigWriteScope::Project ==> final(self).groups_global == old(
                self,
            ).groups_global,
            old(self).write_scope == ConfigWriteScope::Global ==> final(self).groups_project == old(
                self,
            ).groups_project,
            *final(self) == (ResourceList {
                groups_global: final(self).groups_global,
                groups_project: final(self).groups_project,
                ..*old(self)
            }),
    {
        proof {
            lemma_same_lines(self.groups(), item@.path, item@.resource_type, enabled);
        }
        match self.write_scope {
            ConfigWriteScope::Global => {
                self.groups_global = enable_in_groups(
                    &self.groups_global,
                    item.path.as_str(),
                    item.resource_type,
                    enabled,
                );
            },
            ConfigWriteScope::Project => {
                self.groups_project = enable_in_groups(
                    &self.groups_project,
                    item.path.as_str(),
                    item.resource_type,
                    enabled,
                );
            },
        }
        proof {
            assert forall|k: int| 0 <= k < self.filtered_items@.len() implies is_line(
                self.groups(),
                #[trigger] self.filtered_items@[k],
            ) by {
                assert(is_line(old(self).groups(), old(self).filtered_items@[k]));
            }
        }
    }

    /// Toggles the selected resource. Returns what has to be written, or none when nothing changed.
    fn toggle_selected(&mut self) -> (r: Option<SettingsWrite>)
        requires
            old(self).wf(),
        ensures
            final(self).wf(),
            match r {
                Some(write) => old(self).can_toggle() && old(self).toggled(*final(self), write),
                None => {
                    &&& final(self).groups() == old(self).groups()
                    &&& final(self).project_settings@ == old(self).project_settings@
                    &&& *final(self) == ResourceList {
                        project_settings: final(self).project_settings,
                        ..*old(self)
                    }
                    &&& old(self).can_toggle() ==> {
                        let item = old(self).selected_item()->0;
                        let context = old(self).context();
                        &&& old(self).write_scope == ConfigWriteScope::Project
                        &&& context.overridden(
                            item,
                            next_state(
                                context.override_state(item),
                                context.inherited_enabled(item),
                            ),
                        ) is None
                    }
                },
            },
    {
        let item = match self.get_selected() {
            Some(item) => item,
            None => {
                return None;
            },
        };
        if self.write_scope == ConfigWriteScope::Project {
            let inherited = self.inherited_enabled(&item);
            let state = next_override_state(self.project_override_state(&item), inherited);
            match self.set_project_resource_override(&item, state) {
                Some(write) => {
                    let enabled = match state {
                        ProjectOverrideState::Inherit => inherited,
                        ProjectOverrideState::Load => true,
                        ProjectOverrideState::Unload => false,
                    };
                    self.update_item(&item, enabled);
                    Some(write)
                },
                None => None,
            }
        } else if get_item_scope(&item) == SettingsScope::User {
            let enabled = !item.enabled;
            let write = self.toggle_own(&item, enabled);
            self.update_item(&item, enabled);
            Some(write)
        } else {
            None
        }
    }

    /// Reacts to a key press. `data` is what the terminal sent for it.
    pub fn handle_input(&mut self, key: &KeyMatches, data: &str) -> (request: ConfigRequest)
        requires
            old(self).wf(),
        ensures
            final(self).wf(),
            list_responded(*old(self), *final(self), *key, data@, request),
    {
        let len: usize = self.filtered_items.len();
        match classify(key, data) {
            ConfigAction::Up => {
                if self.selected_index > 0 {
                    if let Some(i) = seek_item_back(&self.filtered_items, self.selected_index - 1) {
                        self.selected_index = i;
                    }
                }
                ConfigRequest::Nothing
            },
            ConfigAction::Down => {
                if self.selected_index < len {
                    let i: usize = seek_item(&self.filtered_items, self.selected_index + 1);
                    if i < len {
                        self.selected_index = i;
                    }
                }
                ConfigRequest::Nothing
            },
            ConfigAction::PageUp => {
                let target: usize = if self.selected_index > self.max_visible {
                    self.selected_index - self.max_visible
                } else {
                    0
                };
                let i: usize = seek_item(&self.filtered_items, target);
                if i < len {
                    self.selected_index = i;
                }
                ConfigRequest::Nothing
            },
            ConfigAction::PageDown => {
                if len > 0 {
                    let last: usize = len - 1;
                    let target: usize = if self.max_visible < last - self.selected_index {
                        self.selected_index + self.max_visible
                    } else {
                        last
                    };
                    if let Some(i) = seek_item_back(&self.filtered_items, target) {
                        self.selected_index = i;
                    }
                }
                ConfigRequest::Nothing
            },
            ConfigAction::Close => ConfigRequest::Close,
            ConfigAction::Exit => ConfigRequest::Exit,
            ConfigAction::SwitchMode => ConfigRequest::SwitchMode,
            ConfigAction::Toggle => {
                match self.toggle_selected() {
                    Some(write) => ConfigRequest::Toggled(write),
                    None => ConfigRequest::Nothing,
                }
            },
            ConfigAction::Edit => ConfigRequest::Edit,
        }
    }
}

} // verus!
