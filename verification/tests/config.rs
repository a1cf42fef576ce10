use pi_interactive::config_list::ConfigRequest;
use pi_interactive::config_selector::{
    check_texts, ConfigWriteScope, FlatEntry, ResourceList, ResourceSettings, SettingsWrite,
};
use pi_interactive::config_view::ConfigSelectorComponent;
use pi_interactive::keybinding_hints::{KeyMatches, KeyTable};
use pi_interactive::resource_settings::{
    next_override_state, override_entries, override_package, override_state_from_entries,
    pattern_entry_target, toggle_entries, toggle_package, PackageEntry, PackageFilters,
    ProjectOverrideState, SettingsScope, SourcePaths,
};
use pi_interactive::resources::{
    basename, build_groups, dirname, format_base_dir, is_local_path, relative_string,
    PackageScope, PathMetadata, ResolvedPaths, ResolvedResource, ResourceOrigin, ResourceType,
    ScopedResolvedPaths,
};
use pi_interactive::session::CanonicalPaths;
use pi_interactive::style::plain_text;
use pi_interactive::transcript::Piece;

fn resource(path: &str, scope: PackageScope, origin: ResourceOrigin) -> ResolvedResource {
    ResolvedResource {
        path: path.to_owned(),
        enabled: true,
        metadata: PathMetadata {
            source: "auto".to_owned(),
            scope,
            origin,
            base_dir: None,
        },
    }
}

fn user_extension_paths() -> ResolvedPaths {
    ResolvedPaths {
        extensions: vec![resource(
            "/agent/extensions/foo.ts",
            PackageScope::User,
            ResourceOrigin::TopLevel,
        )],
        skills: vec![resource(
            "/agent/skills/writer/SKILL.md",
            PackageScope::User,
            ResourceOrigin::TopLevel,
        )],
        prompts: Vec::new(),
        themes: Vec::new(),
    }
}

fn no_settings() -> ResourceSettings {
    ResourceSettings {
        extensions: Vec::new(),
        skills: Vec::new(),
        prompts: Vec::new(),
        themes: Vec::new(),
        packages: Vec::new(),
    }
}

fn no_paths() -> CanonicalPaths {
    CanonicalPaths { entries: Vec::new() }
}

fn make_list(write_scope: ConfigWriteScope) -> ResourceList {
    let paths = user_extension_paths();
    ResourceList::new(
        build_groups(&paths, "/agent", "/home/u"),
        build_groups(&paths, "/agent", "/home/u"),
        no_settings(),
        no_settings(),
        "/proj".to_owned(),
        "/agent".to_owned(),
        no_paths(),
        SourcePaths { user: no_paths(), project: no_paths() },
        Some(24),
        write_scope,
    )
}

fn press(ids: &[&str]) -> KeyMatches {
    KeyMatches { ids: ids.iter().map(|s| (*s).to_owned()).collect() }
}

#[test]
fn relative_string_matches_node_semantics() {
    assert_eq!(relative_string("/agent", "/agent/extensions/foo.ts"), "extensions/foo.ts");
    assert_eq!(relative_string("/a/b", "/a/c/d.ts"), "../c/d.ts");
    assert_eq!(relative_string("/a", "/a"), "");
}

#[test]
fn pattern_targets_strip_override_prefixes() {
    assert_eq!(pattern_entry_target("+foo"), "foo");
    assert_eq!(pattern_entry_target("-foo"), "foo");
    assert_eq!(pattern_entry_target("!foo"), "foo");
    assert_eq!(pattern_entry_target("foo"), "foo");
}

#[test]
fn override_state_resolution() {
    let patterns = vec!["foo.ts".to_owned()];
    assert_eq!(
        override_state_from_entries(&vec![], &patterns, true),
        ProjectOverrideState::Unload
    );
    assert_eq!(
        override_state_from_entries(&vec![], &patterns, false),
        ProjectOverrideState::Inherit
    );
    assert_eq!(
        override_state_from_entries(&vec!["+foo.ts".to_owned()], &patterns, false),
        ProjectOverrideState::Load
    );
    assert_eq!(
        override_state_from_entries(&vec!["-foo.ts".to_owned()], &patterns, false),
        ProjectOverrideState::Unload
    );
    assert_eq!(
        override_state_from_entries(&vec!["other".to_owned()], &patterns, false),
        ProjectOverrideState::Inherit
    );
}

#[test]
fn groups_use_skill_folder_names_and_sorted_subgroups() {
    let groups = build_groups(&user_extension_paths(), "/agent", "/home/u");
    assert_eq!(groups.len(), 1);
    let group = &groups[0];
    assert_eq!(group.subgroups.len(), 2);
    assert_eq!(group.subgroups[0].resource_type, ResourceType::Extensions);
    assert_eq!(group.subgroups[1].resource_type, ResourceType::Skills);
    // SKILL.md items display the parent folder name.
    assert_eq!(group.subgroups[1].items[0].display_name, "writer");
    assert_eq!(group.subgroups[0].items[0].display_name, "foo.ts");
}

#[test]
fn global_toggle_writes_disable_pattern() {
    let mut list = make_list(ConfigWriteScope::Global);
    // Space toggles the first item (extensions/foo.ts, enabled -> disabled).
    let request = list.handle_input(&press(&[]), " ");
    assert!(matches!(
        request,
        ConfigRequest::Toggled(SettingsWrite::Paths(
            SettingsScope::User,
            ResourceType::Extensions
        ))
    ));
    assert_eq!(list.global_settings.extensions, vec!["-extensions/foo.ts".to_owned()]);
}

#[test]
fn project_override_cycles_from_inherit_to_unload() {
    let mut list = make_list(ConfigWriteScope::Project);
    list.handle_input(&press(&[]), " ");
    // Inherited-global item: absolute path pinned, then unload override.
    assert_eq!(
        list.project_settings.extensions,
        vec![
            "/agent/extensions/foo.ts".to_owned(),
            "-/agent/extensions/foo.ts".to_owned(),
        ]
    );
}

#[test]
fn search_filters_items() {
    let mut list = make_list(ConfigWriteScope::Global);
    assert_eq!(list.filtered_items.len(), 5); // group + 2 subgroups + 2 items
    list.set_query("writer".to_owned());
    // Only the skills subtree remains: group + subgroup + item.
    assert_eq!(list.filtered_items.len(), 3);
    assert!(matches!(list.filtered_items[2], FlatEntry::Item(0, _, 0)));
}

#[test]
fn paths_have_names_and_folders() {
    assert_eq!(basename("/a/b.ts"), "b.ts");
    assert_eq!(basename("a\\b.ts"), "b.ts");
    assert_eq!(dirname("/a"), "/");
    assert_eq!(dirname("/a/b"), "/a");
    assert_eq!(dirname("a"), ".");
    assert!(!is_local_path("npm:thing"));
    assert!(is_local_path("./thing"));
    assert_eq!(format_base_dir("/home/u", "/home/u"), "~/");
}

#[test]
fn override_states_cycle_around() {
    let mut state = ProjectOverrideState::Inherit;
    state = next_override_state(state, true);
    assert_eq!(state, ProjectOverrideState::Unload);
    state = next_override_state(state, true);
    state = next_override_state(state, true);
    assert_eq!(state, ProjectOverrideState::Inherit);
    assert_eq!(
        next_override_state(ProjectOverrideState::Inherit, false),
        ProjectOverrideState::Load
    );
}

#[test]
fn toggling_replaces_earlier_entries() {
    let entries = vec!["!foo".to_owned(), "bar".to_owned(), "-foo".to_owned()];
    assert_eq!(toggle_entries(&entries, "foo", true), vec!["bar", "+foo"]);
    assert_eq!(toggle_entries(&entries, "foo", false), vec!["bar", "-foo"]);
}

#[test]
fn overriding_writes_and_takes_back_entries() {
    let patterns = vec!["foo".to_owned()];
    let none: Vec<String> = Vec::new();
    let loaded = override_entries(&none, "foo", &patterns, false, ProjectOverrideState::Load);
    assert_eq!(loaded, vec!["+foo"]);
    assert_eq!(
        override_state_from_entries(&loaded, &patterns, false),
        ProjectOverrideState::Load
    );
    let back = override_entries(&loaded, "foo", &patterns, false, ProjectOverrideState::Inherit);
    assert!(back.is_empty());
}

#[test]
fn packages_get_filters() {
    let mut packages = vec![PackageEntry::Source("npm:x".to_owned())];
    assert!(toggle_package(&mut packages, "npm:x", ResourceType::Skills, "s/SKILL.md", false));
    match &packages[0] {
        PackageEntry::Filtered(PackageFilters { skills, .. }) => {
            assert_eq!(skills.as_ref().map(Vec::len), Some(1));
            assert_eq!(skills.as_ref().map(|s| s[0].as_str()), Some("-s/SKILL.md"));
        }
        _ => panic!("the entry holds filters now"),
    }
    assert!(!toggle_package(&mut packages, "npm:y", ResourceType::Skills, "s", false));

    let paths = SourcePaths { user: no_paths(), project: no_paths() };
    let mut project: Vec<PackageEntry> = Vec::new();
    assert!(override_package(
        &paths,
        &mut project,
        "npm:x",
        SettingsScope::User,
        "npm:x",
        ResourceType::Skills,
        "s/SKILL.md",
        ProjectOverrideState::Unload,
    ));
    assert_eq!(project.len(), 1);
    assert!(override_package(
        &paths,
        &mut project,
        "npm:x",
        SettingsScope::User,
        "npm:x",
        ResourceType::Skills,
        "s/SKILL.md",
        ProjectOverrideState::Inherit,
    ));
    assert!(project.is_empty());
}

#[test]
fn inheriting_again_drops_the_override() {
    let mut list = make_list(ConfigWriteScope::Project);
    for _ in 0..3 {
        list.handle_input(&press(&[]), " ");
    }
    assert!(list.project_settings.extensions.is_empty());
}

#[test]
fn list_keys_move_close_and_switch() {
    let mut list = make_list(ConfigWriteScope::Global);
    let start = list.selected_index;
    list.handle_input(&press(&["tui.select.down"]), "");
    assert!(list.selected_index > start);
    assert!(matches!(
        list.handle_input(&press(&["tui.input.tab"]), ""),
        ConfigRequest::SwitchMode
    ));
    assert!(matches!(
        list.handle_input(&press(&["tui.select.cancel"]), ""),
        ConfigRequest::Close
    ));
    assert!(matches!(list.handle_input(&press(&["ctrl+c"]), ""), ConfigRequest::Exit));
    assert!(matches!(list.handle_input(&press(&[]), "x"), ConfigRequest::Edit));
}

#[test]
fn searches_look_at_name_type_and_path() {
    assert!(check_texts("one", "skills", "/a/x.md", "ne"));
    assert!(check_texts("one", "skills", "/a/x.md", "skill"));
    assert!(check_texts("one", "skills", "/a/x.md", "x.m"));
    assert!(!check_texts("one", "skills", "/a/x.md", "two"));
    assert!(check_texts("", "", "", ""));
}

fn shown(piece: &Piece) -> String {
    match piece {
        Piece::Line(spans) | Piece::Row { spans, .. } => plain_text(spans),
        Piece::Input => "input".to_owned(),
        _ => String::new(),
    }
}

#[test]
fn resources_are_shown_below_the_search() {
    let mut list = make_list(ConfigWriteScope::Global);
    let pieces = list.render();
    let lines: Vec<String> = pieces.iter().map(shown).collect();
    assert_eq!(lines[..2], ["input", ""]);
    assert_eq!(lines[3..], ["    Extensions", ">     [x] foo.ts", "    Skills", "      [x] writer"]);
    assert!(matches!(&pieces[3], Piece::Row { ellipsis, .. } if ellipsis.is_empty()));
    assert!(matches!(&pieces[4], Piece::Row { ellipsis, .. } if ellipsis == "..."));
    list.set_query("nothing".to_owned());
    let lines: Vec<String> = list.render().iter().map(shown).collect();
    assert_eq!(lines, ["input", "", "  No resources found"]);
    let project = make_list(ConfigWriteScope::Project);
    assert_eq!(shown(&project.render()[4]), ">     [x] foo.ts  inherited global");
}

#[test]
fn the_header_tells_which_settings_are_written() {
    let component = ConfigSelectorComponent::new(
        &ScopedResolvedPaths { global: user_extension_paths(), project: user_extension_paths() },
        no_settings(),
        no_settings(),
        "/proj".to_owned(),
        "/agent".to_owned(),
        "/home/u",
        no_paths(),
        SourcePaths { user: no_paths(), project: no_paths() },
        Some(24),
        ConfigWriteScope::Global,
        false,
    );
    let keys = KeyTable { bindings: Vec::new(), macos: false };
    assert_eq!(
        plain_text(&component.first_line(&keys, 16, 24, 45)),
        "Global Resources     space toggle · esc close"
    );
    assert_eq!(component.scope_hint().text, "~/.pi/agent/settings.json");
    let lines: Vec<String> = component.render(&keys, 16, 24, 45).iter().map(shown).collect();
    assert_eq!(lines[3], "Global Resources     space toggle · esc close");
    assert_eq!(lines[4..7], ["~/.pi/agent/settings.json", "", "input"]);
    let mut component = component;
    let (request, draw) = component.handle_input(&press(&["tui.input.tab"]), "\t");
    assert_eq!(request, ConfigRequest::Nothing);
    assert!(draw);
    assert_eq!(component.write_scope(), ConfigWriteScope::Global);
    component.project_mode_available = true;
    component.handle_input(&press(&["tui.input.tab"]), "\t");
    assert_eq!(component.write_scope(), ConfigWriteScope::Project);
    let (request, draw) = component.handle_input(&press(&[]), " ");
    assert!(matches!(request, ConfigRequest::Toggled(_)));
    assert!(draw);
    let (request, draw) = component.handle_input(&press(&["tui.select.cancel"]), "");
    assert_eq!(request, ConfigRequest::Close);
    assert!(!draw);
}

#[test]
fn every_copy_of_a_resource_is_updated() {
    let mut copied = user_extension_paths();
    copied.extensions.push(ResolvedResource {
        metadata: PathMetadata {
            source: "npm:x".to_owned(),
            ..resource("", PackageScope::User, ResourceOrigin::Package).metadata
        },
        ..resource("/agent/extensions/foo.ts", PackageScope::User, ResourceOrigin::Package)
    });
    let groups = || build_groups(&copied, "/agent", "/home/u");
    assert_eq!(groups().len(), 2);
    let mut list = ResourceList::new(
        groups(),
        groups(),
        no_settings(),
        no_settings(),
        "/proj".to_owned(),
        "/agent".to_owned(),
        no_paths(),
        SourcePaths { user: no_paths(), project: no_paths() },
        Some(24),
        ConfigWriteScope::Project,
    );
    list.handle_input(&press(&[]), " ");
    let items: Vec<(&str, bool)> = list
        .groups_project
        .iter()
        .flat_map(|g| &g.subgroups)
        .flat_map(|s| &s.items)
        .map(|i| (i.path.as_str(), i.enabled))
        .collect();
    assert_eq!(items.iter().filter(|i| i.0.ends_with("foo.ts") && !i.1).count(), 2);
    assert!(items.iter().any(|i| i.0.ends_with("SKILL.md") && i.1));
    assert!(list.groups_global[0].subgroups[0].items[0].enabled);
}

#[test]
fn a_local_package_is_found_under_its_new_source() {
    let mut prompt = resource("/agent/pack/p.md", PackageScope::User, ResourceOrigin::Package);
    prompt.metadata.source = "./pack".to_owned();
    prompt.metadata.base_dir = Some("/agent/pack".to_owned());
    let paths = ResolvedPaths {
        extensions: Vec::new(),
        skills: Vec::new(),
        prompts: vec![prompt],
        themes: Vec::new(),
    };
    let user = CanonicalPaths {
        entries: vec![("./pack".to_owned(), "/agent/pack".to_owned())],
    };
    let mut list = ResourceList::new(
        build_groups(&paths, "/agent", "/home/u"),
        build_groups(&paths, "/agent", "/home/u"),
        no_settings(),
        no_settings(),
        "/proj/.pi".to_owned(),
        "/agent".to_owned(),
        no_paths(),
        SourcePaths { user, project: no_paths() },
        Some(24),
        ConfigWriteScope::Project,
    );
    let filters = |list: &ResourceList| -> Vec<(Option<String>, Option<Vec<String>>)> {
        list.project_settings
            .packages
            .iter()
            .map(|entry| match entry {
                PackageEntry::Filtered(f) => (
                    f.source.as_ref().map(|s| s.clone()),
                    f.prompts.as_ref().map(|p| p.clone()),
                ),
                _ => panic!("the entry holds filters"),
            })
            .collect()
    };
    let source = || Some("../../agent/pack".to_owned());
    list.handle_input(&press(&[]), " ");
    assert_eq!(filters(&list), vec![(source(), Some(vec!["-p.md".to_owned()]))]);
    list.handle_input(&press(&[]), " ");
    assert_eq!(filters(&list), vec![(source(), Some(vec!["+p.md".to_owned()]))]);
    list.handle_input(&press(&[]), " ");
    assert!(filters(&list).iter().all(|(_, prompts)| prompts.iter().all(|p| p.is_empty())));
    assert!(list.project_settings.packages.len() <= 1);
}
