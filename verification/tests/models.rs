use pi_interactive::fuzzy_list::narrow;
use pi_interactive::keybinding_hints::{BoundKeys, KeyMatches, KeyTable};
use pi_interactive::model_scope::{
    clear_all, enable_all, is_enabled, move_enabled, sorted_ids, toggle,
};
use pi_interactive::model_selector::{
    renew_scoped, selector_search_text, ModelScope, ModelSelectorAction, ModelSelectorComponent,
};
use pi_interactive::models::Model;
use pi_interactive::oauth_selector::{
    provider_search_text, status_indicator, AuthStatusSource, AuthType, OAuthAction,
    OAuthProvider, OAuthSelector, OAuthSelectorMode,
};
use pi_interactive::scoped_models_selector::{
    model_search_text, ModelsConfig, ScopedModelsAction, ScopedModelsSelectorComponent,
};
use pi_interactive::scroll::{
    clamp_selection, move_down, move_up, visible_range, wrap_down, wrap_up,
};
use pi_interactive::style::plain_text;
use pi_interactive::transcript::Piece;

fn press(ids: &[&str]) -> KeyMatches {
    KeyMatches { ids: ids.iter().map(|s| (*s).to_owned()).collect() }
}

fn text(piece: &Piece) -> String {
    match piece {
        Piece::Text { spans, .. } | Piece::Line(spans) => plain_text(spans),
        Piece::Border(_) => "---".to_owned(),
        Piece::Input => "input".to_owned(),
        _ => String::new(),
    }
}

fn model(provider: &str, id: &str) -> Model {
    Model { provider: provider.to_owned(), id: id.to_owned(), name: format!("Name {id}") }
}

fn strings(list: &[&str]) -> Vec<String> {
    list.iter().map(|s| (*s).to_owned()).collect()
}

fn table() -> KeyTable {
    KeyTable {
        bindings: vec![BoundKeys {
            id: "app.models.save".to_owned(),
            keys: vec!["ctrl+s".to_owned()],
        }],
        macos: false,
    }
}

#[test]
fn toggling_lists_and_unlists_a_model() {
    assert!(is_enabled(&None, "a"));
    let only = toggle(&None, "a");
    assert_eq!(only, Some(strings(&["a"])));
    let both = toggle(&only, "b");
    assert_eq!(both, Some(strings(&["a", "b"])));
    assert!(is_enabled(&both, "b"));
    assert_eq!(toggle(&both, "a"), Some(strings(&["b"])));
    assert_eq!(toggle(&both, "b"), only);
}

#[test]
fn all_models_are_switched_at_once() {
    let all = strings(&["a", "b", "c"]);
    assert_eq!(enable_all(&None, &all, &None), None);
    assert_eq!(enable_all(&Some(strings(&["c"])), &all, &None), None);
    assert_eq!(
        enable_all(&Some(strings(&["c"])), &all, &Some(strings(&["a"]))),
        Some(strings(&["c", "a"]))
    );
    assert_eq!(clear_all(&None, &all, &None), Some(Vec::new()));
    assert_eq!(clear_all(&None, &all, &Some(strings(&["b"]))), Some(strings(&["a", "c"])));
    assert_eq!(
        clear_all(&Some(strings(&["c", "a"])), &all, &Some(strings(&["a"]))),
        Some(strings(&["c"]))
    );
}

#[test]
fn enabled_models_move_and_come_first() {
    let enabled = Some(strings(&["c", "a"]));
    assert_eq!(move_enabled(&enabled, "a", -1), Some(strings(&["a", "c"])));
    assert_eq!(move_enabled(&enabled, "a", 1), enabled);
    assert_eq!(move_enabled(&enabled, "x", -1), enabled);
    assert_eq!(move_enabled(&None, "a", -1), None);
    let back = move_enabled(&move_enabled(&enabled, "a", -1), "a", 1);
    let three = Some(strings(&["a", "b", "c"]));
    assert_eq!(move_enabled(&three, "a", 2), Some(strings(&["c", "b", "a"])));
    assert_eq!(move_enabled(&move_enabled(&three, "a", 2), "a", -2), three);
    assert_eq!(move_enabled(&three, "a", 3), three);
    assert_eq!(move_enabled(&three, "a", isize::MIN), three);
    assert_eq!(back, enabled);
    let all = strings(&["a", "b", "c"]);
    assert_eq!(sorted_ids(&enabled, &all), strings(&["c", "a", "b"]));
    assert_eq!(sorted_ids(&None, &all), all);
}

fn scoped() -> ScopedModelsSelectorComponent {
    ScopedModelsSelectorComponent::new(ModelsConfig {
        all_models: vec![model("p", "a"), model("q", "b"), model("p", "c")],
        enabled_model_ids: Some(strings(&["q/b"])),
    })
}

#[test]
fn scoped_models_are_toggled_by_keys() {
    let mut selector = scoped();
    assert_eq!(selector.filtered_items, vec![1, 0, 2]);
    selector.handle_input(&press(&["tui.select.down"]));
    assert_eq!(
        selector.handle_input(&press(&["tui.select.confirm"])),
        ScopedModelsAction::Change
    );
    assert_eq!(selector.enabled_model_ids(), &Some(strings(&["q/b", "p/a"])));
    assert!(selector.is_dirty);
    assert_eq!(
        selector.handle_input(&press(&["app.models.reorderUp"])),
        ScopedModelsAction::Change
    );
    assert_eq!(selector.enabled_model_ids(), &Some(strings(&["p/a", "q/b"])));
    assert_eq!(selector.selected_index, 0);
    assert_eq!(
        selector.handle_input(&press(&["app.models.reorderUp"])),
        ScopedModelsAction::Nothing
    );
    assert_eq!(
        selector.handle_input(&press(&["app.models.save"])),
        ScopedModelsAction::Persist
    );
    assert!(!selector.is_dirty);
}

#[test]
fn a_whole_provider_is_toggled() {
    let mut selector = scoped();
    selector.handle_input(&press(&["tui.select.down"]));
    selector.handle_input(&press(&["app.models.toggleProvider"]));
    // All models are listed, so the list is dropped.
    assert_eq!(selector.enabled_model_ids(), &None);
    selector.handle_input(&press(&["app.models.toggleProvider"]));
    assert_eq!(selector.enabled_model_ids(), &Some(strings(&["p/a", "p/c"])));
}

#[test]
fn searches_limit_what_is_switched() {
    let mut selector = scoped();
    selector.set_query("c", vec![None, None, Some(1)]);
    assert_eq!(selector.filtered_items, vec![2]);
    selector.handle_input(&press(&["app.models.enableAll"]));
    assert_eq!(selector.enabled_model_ids(), &Some(strings(&["q/b", "p/c"])));
    assert_eq!(selector.handle_input(&press(&["ctrl+c"])), ScopedModelsAction::Nothing);
    assert_eq!(selector.query, "");
    selector.handle_input(&press(&["app.models.clearAll"]));
    assert_eq!(selector.enabled_model_ids(), &Some(Vec::new()));
    assert_eq!(selector.handle_input(&press(&["ctrl+c"])), ScopedModelsAction::Cancel);
    assert_eq!(selector.handle_input(&press(&["escape"])), ScopedModelsAction::Cancel);
    assert_eq!(selector.handle_input(&press(&[])), ScopedModelsAction::Search);
}

#[test]
fn scoped_models_are_shown() {
    let mut selector = scoped();
    let lines = selector.render_list();
    assert_eq!(plain_text(&lines[0]), "→ b [q] ✓");
    assert_eq!(plain_text(&lines[1]), "  a [p] ✗");
    assert_eq!(plain_text(&lines[4]), "  Model Name: Name b");
    assert!(plain_text(&selector.footer_text(&table())).ends_with("ctrl+s save · 1/3 enabled"));
    let screen = selector.render(&table());
    assert_eq!(text(&screen[2]), "Model Configuration");
    assert_eq!(text(&screen[5]), "input");
    assert_eq!(text(&screen[7]), "→ b [q] ✓");
    selector.handle_input(&press(&["app.models.enableAll"]));
    assert!(plain_text(&selector.footer_text(&table())).ends_with("all enabled (unsaved)"));
    selector.set_query("zzz", Vec::new());
    assert_eq!(plain_text(&selector.render_list()[0]), "  No matching models");
    assert_eq!(model_search_text(&model("p", "a")), "a p p/a p a Name a");
    assert_eq!(
        plain_text(&ScopedModelsSelectorComponent::subtitle(&table())),
        "Session-only. ctrl+s to save to settings."
    );
}

#[test]
fn the_current_model_comes_first() {
    let selector = ModelSelectorComponent::new(
        Some(model("z", "cur")),
        None,
        vec![model("b", "1"), model("a", "2"), model("z", "cur"), model("a", "3")],
        Vec::new(),
    );
    let ids: Vec<&str> = selector.all_models.iter().map(|m| m.id.as_str()).collect();
    assert_eq!(ids, vec!["cur", "2", "3", "1"]);
    assert_eq!(selector.scope, ModelScope::All);
    let lines = selector.render_list();
    assert_eq!(plain_text(&lines[0]), "→ cur [z] ✓");
    assert_eq!(selector.heading(&table()).len(), 1);
    let screen = selector.render(&table());
    let shown: Vec<String> = screen.iter().map(text).collect();
    assert_eq!(shown[..2], ["---", ""]);
    assert_eq!(shown[3..7], ["", "input", "", "→ cur [z] ✓"]);
    assert_eq!(shown[shown.len() - 2..], ["", "---"]);
}

#[test]
fn scopes_switch_with_tab() {
    let mut selector = ModelSelectorComponent::new(
        Some(model("p", "b")),
        None,
        vec![model("p", "a"), model("p", "b")],
        vec![model("p", "a")],
    );
    assert_eq!(selector.scope, ModelScope::Scoped);
    assert_eq!(selector.filtered.len(), 1);
    selector.handle_input(&press(&["tui.input.tab"]));
    assert_eq!(selector.scope, ModelScope::All);
    assert_eq!(selector.filtered.len(), 2);
    assert_eq!(selector.selected_index, 0);
    match selector.handle_input(&press(&["tui.select.confirm"])) {
        ModelSelectorAction::Select(m) => assert_eq!(m.id, "b"),
        _ => panic!("a model is selected"),
    }
    selector.set_query("a", vec![None, Some(3)], vec![Some(3)]);
    assert_eq!(selector.filtered, vec![1]);
    assert_eq!(plain_text(&selector.scope_text()), "Scope: all | scoped");
    assert!(matches!(
        selector.handle_input(&press(&["tui.select.cancel"])),
        ModelSelectorAction::Cancel
    ));
    assert!(matches!(selector.handle_input(&press(&[])), ModelSelectorAction::Search));
}

#[test]
fn registry_errors_are_shown_by_line() {
    let selector = ModelSelectorComponent::new(
        None,
        Some("bad\nworse".to_owned()),
        Vec::new(),
        Vec::new(),
    );
    let lines = selector.render_list();
    assert_eq!(lines.len(), 2);
    assert_eq!(plain_text(&lines[1]), "worse");
    assert_eq!(selector_search_text(&model("p", "a")), "p p/a p a Name a");
    let renewed = renew_scoped(
        vec![model("p", "a"), model("p", "b")],
        &vec![None, Some(Model { name: "new".to_owned(), ..model("p", "b") })],
    );
    assert_eq!(renewed[0].name, "Name a");
    assert_eq!(renewed[1].name, "new");
}

fn provider(name: &str, auth_type: AuthType) -> OAuthProvider {
    OAuthProvider {
        id: name.to_lowercase(),
        name: name.to_owned(),
        auth_type,
        configured_credential: None,
        auth_status: None,
    }
}

#[test]
fn providers_are_listed_and_selected() {
    let mut selector = OAuthSelector::new(
        OAuthSelectorMode::Login,
        vec![provider("One", AuthType::OAuth), provider("Two", AuthType::ApiKey)],
    );
    assert!(selector.show_auth_type_labels);
    assert_eq!(plain_text(&selector.render_list()[1]), "  Two [API key] • unconfigured");
    let screen = selector.render();
    assert_eq!(text(&screen[4]), "input");
    assert_eq!(text(&screen[7]), "  Two [API key] • unconfigured");
    selector.handle_input(&press(&["tui.select.down"]));
    selector.handle_input(&press(&["tui.select.down"]));
    assert_eq!(
        selector.handle_input(&press(&["tui.select.confirm"])),
        OAuthAction::Select("two".to_owned(), AuthType::ApiKey)
    );
    selector.set_query("one", vec![Some(1), None]);
    assert_eq!(selector.filtered, vec![0]);
    assert_eq!(selector.selected, 0);
    selector.set_query("zzz", vec![None, None]);
    assert_eq!(plain_text(&selector.render_list()[0]), "  No matching providers");
    assert_eq!(selector.handle_input(&press(&["tui.select.confirm"])), OAuthAction::Nothing);
    assert_eq!(selector.handle_input(&press(&["tui.select.cancel"])), OAuthAction::Cancel);
    assert_eq!(selector.handle_input(&press(&[])), OAuthAction::Search);
    assert_eq!(
        provider_search_text(&provider("One", AuthType::ApiKey)),
        "One one api_key API key"
    );
    let empty = OAuthSelector::new(OAuthSelectorMode::Logout, Vec::new());
    assert_eq!(
        plain_text(&empty.render_list()[0]),
        "  No providers logged in. Use /login first."
    );
    assert_eq!(empty.title().text, "Select provider to logout:");
}

#[test]
fn credentials_are_indicated() {
    let mut p = provider("One", AuthType::ApiKey);
    p.auth_status = Some(AuthStatusSource::Environment(Some("KEY".to_owned())));
    assert_eq!(plain_text(&status_indicator(&p)), " ✓ env: KEY");
    p.auth_status = Some(AuthStatusSource::Environment(None));
    assert_eq!(plain_text(&status_indicator(&p)), " ✓ env: API key");
    p.auth_status = Some(AuthStatusSource::ModelsJsonCommand);
    assert_eq!(plain_text(&status_indicator(&p)), " ✓ command in models.json");
    p.configured_credential = Some(AuthType::OAuth);
    assert_eq!(plain_text(&status_indicator(&p)), " • subscription configured");
    p.configured_credential = Some(AuthType::ApiKey);
    assert_eq!(plain_text(&status_indicator(&p)), " ✓ configured");
    let mut q = provider("Two", AuthType::OAuth);
    q.auth_status = Some(AuthStatusSource::Runtime);
    assert_eq!(plain_text(&status_indicator(&q)), " • unconfigured");
}

#[test]
fn lists_narrow_to_the_best_matches() {
    let scores = vec![Some(5), None, Some(-1), Some(5)];
    assert_eq!(narrow(vec![0, 1, 2, 3], "q", &scores), vec![2, 0, 3]);
    assert_eq!(narrow(vec![3, 0], "q", &scores), vec![3, 0]);
    assert_eq!(narrow(vec![1, 9], "", &scores), vec![1, 9]);
    assert!(narrow(vec![9], "q", &scores).is_empty());
}

#[test]
fn windows_follow_the_selection() {
    assert_eq!(visible_range(0, 30, 10), (0, 10));
    assert_eq!(visible_range(15, 30, 10), (10, 20));
    assert_eq!(visible_range(29, 30, 10), (20, 30));
    assert_eq!(visible_range(2, 3, 10), (0, 3));
    assert_eq!(wrap_up(0, 5), 4);
    assert_eq!(wrap_down(4, 5), 0);
    assert_eq!(wrap_down(wrap_up(2, 5), 5), 2);
    assert_eq!(move_up(1, 5), 0);
    assert_eq!(move_down(1, 4, 9), 3);
    assert_eq!(clamp_selection(9, 0), 0);
}
