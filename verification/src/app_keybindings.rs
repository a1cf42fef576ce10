//! App-level keybinding catalog.

use crate::json::{
    is_json, json_field, json_items, json_keys, json_string, opt_texts, read_json_field,
    read_json_items, read_json_keys, read_json_string, JsonField, JsonFieldView,
};
use crate::text::{push_text, str_eq, texts};
use vstd::prelude::*;

verus! {

broadcast use vstd::string::group_string_axioms;

/// An action with the keys that are bound to it by default.
#[derive(Debug)]
pub struct KeybindingDefinition {
    pub id: String,
    pub default_keys: Vec<String>,
    pub description: Option<String>,
}

/// The content of a definition.
#[verifier::ext_equal]
pub struct DefinitionView {
    pub id: Seq<char>,
    pub default_keys: Seq<Seq<char>>,
    pub description: Option<Seq<char>>,
}

impl View for KeybindingDefinition {
    type V = DefinitionView;

    open spec fn view(&self) -> DefinitionView {
        DefinitionView {
            id: self.id@,
            default_keys: texts(self.default_keys@),
            description: match self.description {
                Some(d) => Some(d@),
                None => None,
            },
        }
    }
}

/// The contents of definitions.
pub open spec fn definition_views(list: Seq<KeybindingDefinition>) -> Seq<DefinitionView> {
    list.map_values(|d: KeybindingDefinition| d@)
}

/// A definition with a description.
pub open spec fn definition(
    id: Seq<char>,
    default_keys: Seq<Seq<char>>,
    description: Seq<char>,
) -> DefinitionView {
    DefinitionView { id, default_keys, description: Some(description) }
}

/// The actions of the app and of sessions.
pub open spec fn session_actions() -> Seq<DefinitionView> {
    seq![
        definition("app.interrupt"@, seq!["escape"@], "Cancel or abort"@),
        definition("app.clear"@, seq!["ctrl+c"@], "Clear editor"@),
        definition("app.exit"@, seq!["ctrl+d"@], "Exit when editor is empty"@),
        definition("app.suspend"@, seq!["ctrl+z"@], "Suspend to background"@),
        definition("app.thinking.cycle"@, seq!["shift+tab"@], "Cycle thinking level"@),
        definition("app.model.cycleForward"@, seq!["ctrl+p"@], "Cycle to next model"@),
        definition("app.model.cycleBackward"@, seq!["shift+ctrl+p"@], "Cycle to previous model"@),
        definition("app.model.select"@, seq!["ctrl+l"@], "Open model selector"@),
        definition("app.tools.expand"@, seq!["ctrl+o"@], "Toggle tool output"@),
        definition("app.thinking.toggle"@, seq!["ctrl+t"@], "Toggle thinking blocks"@),
        definition("app.session.toggleNamedFilter"@, seq!["ctrl+n"@], "Toggle named session filter"@),
        definition("app.editor.external"@, seq!["ctrl+g"@], "Open external editor"@),
        definition("app.message.copy"@, seq!["ctrl+x"@], "Copy message to clipboard"@),
        definition("app.message.followUp"@, seq!["alt+enter"@], "Queue follow-up message"@),
        definition("app.message.dequeue"@, seq!["alt+up"@], "Restore queued messages"@),
        definition("app.clipboard.pasteImage"@, seq!["ctrl+v"@], "Paste image from clipboard (text fallback)"@),
        definition("app.session.new"@, Seq::empty(), "Start a new session"@),
        definition("app.session.tree"@, Seq::empty(), "Open session tree"@),
        definition("app.session.fork"@, Seq::empty(), "Fork current session"@),
        definition("app.session.resume"@, Seq::empty(), "Resume a session"@),
    ]
}

/// The actions that move in the tree. The keys are tried in the order that suits the system.
pub open spec fn fold_actions(macos: bool) -> Seq<DefinitionView> {
    seq![
        definition(
            "app.tree.foldOrUp"@,
            if macos {
                seq!["alt+left"@, "ctrl+left"@]
            } else {
                seq!["ctrl+left"@, "alt+left"@]
            },
            "Fold tree branch or move up"@,
        ),
        definition(
            "app.tree.unfoldOrDown"@,
            if macos {
                seq!["alt+right"@, "ctrl+right"@]
            } else {
                seq!["ctrl+right"@, "alt+right"@]
            },
            "Unfold tree branch or move down"@,
        ),
    ]
}

/// The actions of the selectors.
pub open spec fn selector_actions() -> Seq<DefinitionView> {
    seq![
        definition("app.tree.editLabel"@, seq!["shift+l"@], "Edit tree label"@),
        definition("app.tree.toggleLabelTimestamp"@, seq!["shift+t"@], "Toggle tree label timestamps"@),
        definition("app.session.togglePath"@, seq!["ctrl+p"@], "Toggle session path display"@),
        definition("app.session.toggleSort"@, seq!["ctrl+s"@], "Toggle session sort mode"@),
        definition("app.session.rename"@, seq!["ctrl+r"@], "Rename session"@),
        definition("app.session.delete"@, seq!["ctrl+d"@], "Delete session"@),
        definition("app.session.deleteNoninvasive"@, seq!["ctrl+backspace"@], "Delete session when query is empty"@),
        definition("app.models.save"@, seq!["ctrl+s"@], "Save model selection"@),
        definition("app.models.enableAll"@, seq!["ctrl+a"@], "Enable all models"@),
        definition("app.models.clearAll"@, seq!["ctrl+x"@], "Clear all models"@),
        definition("app.models.toggleProvider"@, seq!["ctrl+p"@], "Toggle all models for provider"@),
        definition("app.models.reorderUp"@, seq!["alt+up"@], "Move model up in order"@),
        definition("app.models.reorderDown"@, seq!["alt+down"@], "Move model down in order"@),
        definition("app.tree.filter.default"@, seq!["ctrl+d"@], "Tree filter: default view"@),
        definition("app.tree.filter.noTools"@, seq!["ctrl+t"@], "Tree filter: hide tool results"@),
        definition("app.tree.filter.userOnly"@, seq!["ctrl+u"@], "Tree filter: user messages only"@),
        definition("app.tree.filter.labeledOnly"@, seq!["ctrl+l"@], "Tree filter: labeled entries only"@),
        definition("app.tree.filter.all"@, seq!["ctrl+a"@], "Tree filter: show all entries"@),
        definition("app.tree.filter.cycleForward"@, seq!["ctrl+o"@], "Tree filter: cycle forward"@),
        definition("app.tree.filter.cycleBackward"@, seq!["shift+ctrl+o"@], "Tree filter: cycle backward"@),
    ]
}

/// All actions of the app.
pub open spec fn app_actions(macos: bool) -> Seq<DefinitionView> {
    session_actions() + fold_actions(macos) + selector_actions()
}

fn key_list(keys: &[&str]) -> (r: Vec<String>)
    ensures
        texts(r@) == keys@.map_values(|k: &str| k@),
{
    let mut r: Vec<String> = Vec::new();
    let mut i: usize = 0;
    while i < keys.len()
        invariant
            i <= keys.len(),
            texts(r@) =~= keys@.map_values(|k: &str| k@).take(i as int),
        decreases keys.len() - i,
    {
        push_text(&mut r, keys[i].to_owned());
        i = i + 1;
    }
    r
}

fn push_definition(list: &mut Vec<KeybindingDefinition>, id: &str, keys: &[&str], description: &str)
    ensures
        definition_views(final(list)@) == definition_views(old(list)@).push(
            definition(id@, keys@.map_values(|k: &str| k@), description@),
        ),
{
    let added = KeybindingDefinition {
        id: id.to_owned(),
        default_keys: key_list(keys),
        description: Some(description.to_owned()),
    };
    list.push(added);
    assert(definition_views(list@) =~= definition_views(old(list)@).push(added@));
}

fn push_session_actions(list: &mut Vec<KeybindingDefinition>)
    ensures
        definition_views(final(list)@) == definition_views(old(list)@) + session_actions(),
{
    push_definition(list, "app.interrupt", &["escape"], "Cancel or abort");
    push_definition(list, "app.clear", &["ctrl+c"], "Clear editor");
    push_definition(list, "app.exit", &["ctrl+d"], "Exit when editor is empty");
    push_definition(list, "app.suspend", &["ctrl+z"], "Suspend to background");
    push_definition(list, "app.thinking.cycle", &["shift+tab"], "Cycle thinking level");
    push_definition(list, "app.model.cycleForward", &["ctrl+p"], "Cycle to next model");
    push_definition(list, "app.model.cycleBackward", &["shift+ctrl+p"], "Cycle to previous model");
    push_definition(list, "app.model.select", &["ctrl+l"], "Open model selector");
    push_definition(list, "app.tools.expand", &["ctrl+o"], "Toggle tool output");
    push_definition(list, "app.thinking.toggle", &["ctrl+t"], "Toggle thinking blocks");
    push_definition(list, "app.session.toggleNamedFilter", &["ctrl+n"], "Toggle named session filter");
    push_definition(list, "app.editor.external", &["ctrl+g"], "Open external editor");
    push_definition(list, "app.message.copy", &["ctrl+x"], "Copy message to clipboard");
    push_definition(list, "app.message.followUp", &["alt+enter"], "Queue follow-up message");
    push_definition(list, "app.message.dequeue", &["alt+up"], "Restore queued messages");
    push_definition(list, "app.clipboard.pasteImage", &["ctrl+v"], "Paste image from clipboard (text fallback)");
    push_definition(list, "app.session.new", &[], "Start a new session");
    push_definition(list, "app.session.tree", &[], "Open session tree");
    push_definition(list, "app.session.fork", &[], "Fork current session");
    push_definition(list, "app.session.resume", &[], "Resume a session");
    assert(definition_views(list@) =~~= definition_views(old(list)@) + session_actions());
}

fn push_fold_actions(list: &mut Vec<KeybindingDefinition>, macos: bool)
    ensures
        definition_views(final(list)@) == definition_views(old(list)@) + fold_actions(macos),
{
    if macos {
        push_definition(
            list,
            "app.tree.foldOrUp",
            &["alt+left", "ctrl+left"],
            "Fold tree branch or move up",
        );
        push_definition(
            list,
            "app.tree.unfoldOrDown",
            &["alt+right", "ctrl+right"],
            "Unfold tree branch or move down",
        );
    } else {
        push_definition(
            list,
            "app.tree.foldOrUp",
            &["ctrl+left", "alt+left"],
            "Fold tree branch or move up",
        );
        push_definition(
            list,
            "app.tree.unfoldOrDown",
            &["ctrl+right", "alt+right"],
            "Unfold tree branch or move down",
        );
    }
    assert(definition_views(list@) =~~= definition_views(old(list)@) + fold_actions(macos));
}

fn push_selector_actions(list: &mut Vec<KeybindingDefinition>)
    ensures
        definition_views(final(list)@) == definition_views(old(list)@) + selector_actions(),
{
    push_definition(list, "app.tree.editLabel", &["shift+l"], "Edit tree label");
    push_definition(list, "app.tree.toggleLabelTimestamp", &["shift+t"], "Toggle tree label timestamps");
    push_definition(list, "app.session.togglePath", &["ctrl+p"], "Toggle session path display");
    push_definition(list, "app.session.toggleSort", &["ctrl+s"], "Toggle session sort mode");
    push_definition(list, "app.session.rename", &["ctrl+r"], "Rename session");
    push_definition(list, "app.session.delete", &["ctrl+d"], "Delete session");
    push_definition(list, "app.session.deleteNoninvasive", &["ctrl+backspace"], "Delete session when query is empty");
    push_definition(list, "app.models.save", &["ctrl+s"], "Save model selection");
    push_definition(list, "app.models.enableAll", &["ctrl+a"], "Enable all models");
    push_definition(list, "app.models.clearAll", &["ctrl+x"], "Clear all models");
    push_definition(list, "app.models.toggleProvider", &["ctrl+p"], "Toggle all models for provider");
    push_definition(list, "app.models.reorderUp", &["alt+up"], "Move model up in order");
    push_definition(list, "app.models.reorderDown", &["alt+down"], "Move model down in order");
    push_definition(list, "app.tree.filter.default", &["ctrl+d"], "Tree filter: default view");
    push_definition(list, "app.tree.filter.noTools", &["ctrl+t"], "Tree filter: hide tool results");
    push_definition(list, "app.tree.filter.userOnly", &["ctrl+u"], "Tree filter: user messages only");
    push_definition(list, "app.tree.filter.labeledOnly", &["ctrl+l"], "Tree filter: labeled entries only");
    push_definition(list, "app.tree.filter.all", &["ctrl+a"], "Tree filter: show all entries");
    push_definition(list, "app.tree.filter.cycleForward", &["ctrl+o"], "Tree filter: cycle forward");
    push_definition(list, "app.tree.filter.cycleBackward", &["shift+ctrl+o"], "Tree filter: cycle backward");
    assert(definition_views(list@) =~~= definition_views(old(list)@) + selector_actions());
}

/// Whether one of the definitions has the id.
pub open spec fn defines(list: Seq<DefinitionView>, id: Seq<char>) -> bool {
    exists|i: int| 0 <= i < list.len() && (#[trigger] list[i]).id == id
}

/// The definitions whose ids are not among the others.
pub open spec fn not_redefined(list: Seq<DefinitionView>, others: Seq<DefinitionView>) -> Seq<
    DefinitionView,
>
    decreases list.len(),
{
    if list.len() == 0 {
        Seq::empty()
    } else {
        let r = not_redefined(list.drop_last(), others);
        if defines(others, list.last().id) {
            r
        } else {
            r.push(list.last())
        }
    }
}

fn has_definition(list: &Vec<KeybindingDefinition>, id: &str) -> (r: bool)
    ensures
        r == defines(definition_views(list@), id@),
{
    let ghost views = definition_views(list@);
    let mut i: usize = 0;
    while i < list.len()
        invariant
            i <= list.len(),
            views == definition_views(list@),
            forall|j: int| 0 <= j < i ==> (#[trigger] views[j]).id != id@,
        decreases list.len() - i,
    {
        assert(views[i as int] == list[i as int]@);
        if str_eq(list[i].id.as_str(), id) {
            return true;
        }
        i = i + 1;
    }
    false
}

/// The actions of the terminal interface, where the app does not redefine them, and those of the
/// app.
#[must_use]
pub fn app_keybinding_definitions(tui: Vec<KeybindingDefinition>, macos: bool) -> (r: Vec<
    KeybindingDefinition,
>)
    ensures
        definition_views(r@) == not_redefined(definition_views(tui@), app_actions(macos))
            + app_actions(macos),
{
    let mut app: Vec<KeybindingDefinition> = Vec::new();
    push_session_actions(&mut app);
    push_fold_actions(&mut app, macos);
    push_selector_actions(&mut app);
    assert(definition_views(app@) =~= app_actions(macos));
    let ghost views = definition_views(tui@);
    let mut r: Vec<KeybindingDefinition> = Vec::new();
    let mut i: usize = 0;
    assert(definition_views(r@) =~= not_redefined(views.take(0), app_actions(macos)));
    while i < tui.len()
        invariant
            i <= tui.len(),
            views == definition_views(tui@),
            definition_views(app@) == app_actions(macos),
            definition_views(r@) == not_redefined(views.take(i as int), app_actions(macos)),
        decreases tui.len() - i,
    {
        proof {
            assert(views.take(i + 1).drop_last() =~= views.take(i as int));
            assert(views.take(i + 1).last() == tui@[i as int]@);
        }
        if !has_definition(&app, tui[i].id.as_str()) {
            let ghost before = r@;
            let kept = copy_definition(&tui[i]);
            r.push(kept);
            assert(definition_views(r@) =~= definition_views(before).push(kept@));
        }
        i = i + 1;
    }
    assert(views.take(i as int) =~= views);
    let ghost kept = r@;
    let ghost added = app@;
    r.append(&mut app);
    assert(definition_views(r@) =~= definition_views(kept) + definition_views(added));
    r
}

fn copy_definition(d: &KeybindingDefinition) -> (r: KeybindingDefinition)
    ensures
        r@ == d@,
{
    let mut keys: Vec<String> = Vec::new();
    let mut i: usize = 0;
    while i < d.default_keys.len()
        invariant
            i <= d.default_keys.len(),
            texts(keys@) =~= texts(d.default_keys@).take(i as int),
        decreases d.default_keys.len() - i,
    {
        push_text(&mut keys, d.default_keys[i].clone());
        i = i + 1;
    }
    assert(texts(keys@) =~= texts(d.default_keys@));
    KeybindingDefinition {
        id: d.id.clone(),
        default_keys: keys,
        description: crate::session::clone_opt(&d.description),
    }
}

/// No action of the app is defined twice.
pub proof fn app_actions_are_distinct(macos: bool, i: int, j: int)
    requires
        0 <= i < j < app_actions(macos).len(),
    ensures
        app_actions(macos)[i].id != app_actions(macos)[j].id,
{
    reveal_strlit("app.interrupt");
    reveal_strlit("app.clear");
    reveal_strlit("app.exit");
    reveal_strlit("app.suspend");
    reveal_strlit("app.thinking.cycle");
    reveal_strlit("app.model.cycleForward");
    reveal_strlit("app.model.cycleBackward");
    reveal_strlit("app.model.select");
    reveal_strlit("app.tools.expand");
    reveal_strlit("app.thinking.toggle");
    reveal_strlit("app.session.toggleNamedFilter");
    reveal_strlit("app.editor.external");
    reveal_strlit("app.message.copy");
    reveal_strlit("app.message.followUp");
    reveal_strlit("app.message.dequeue");
    reveal_strlit("app.clipboard.pasteImage");
    reveal_strlit("app.session.new");
    reveal_strlit("app.session.tree");
    reveal_strlit("app.session.fork");
    reveal_strlit("app.session.resume");
    reveal_strlit("app.tree.foldOrUp");
    reveal_strlit("app.tree.unfoldOrDown");
    reveal_strlit("app.tree.editLabel");
    reveal_strlit("app.tree.toggleLabelTimestamp");
    reveal_strlit("app.session.togglePath");
    reveal_strlit("app.session.toggleSort");
    reveal_strlit("app.session.rename");
    reveal_strlit("app.session.delete");
    reveal_strlit("app.session.deleteNoninvasive");
    reveal_strlit("app.models.save");
    reveal_strlit("app.models.enableAll");
    reveal_strlit("app.models.clearAll");
    reveal_strlit("app.models.toggleProvider");
    reveal_strlit("app.models.reorderUp");
    reveal_strlit("app.models.reorderDown");
    reveal_strlit("app.tree.filter.default");
    reveal_strlit("app.tree.filter.noTools");
    reveal_strlit("app.tree.filter.userOnly");
    reveal_strlit("app.tree.filter.labeledOnly");
    reveal_strlit("app.tree.filter.all");
    reveal_strlit("app.tree.filter.cycleForward");
    reveal_strlit("app.tree.filter.cycleBackward");
    assert("app.interrupt"@.len() == 13);
    assert("app.clear"@.len() == 9);
    assert("app.exit"@.len() == 8);
    assert("app.suspend"@.len() == 11);
    assert("app.thinking.cycle"@.len() == 18 && "app.thinking.cycle"@[14] == 'y');
    assert("app.model.cycleForward"@.len() == 22 && "app.model.cycleForward"@[14] == 'e' && "app.model.cycleForward"@[18] == 'w');
    assert("app.model.cycleBackward"@.len() == 23 && "app.model.cycleBackward"@[14] == 'e' && "app.model.cycleBackward"@[18] == 'k');
    assert("app.model.select"@.len() == 16 && "app.model.select"@[14] == 'c');
    assert("app.tools.expand"@.len() == 16 && "app.tools.expand"@[14] == 'n');
    assert("app.thinking.toggle"@.len() == 19 && "app.thinking.toggle"@[14] == 'o' && "app.thinking.toggle"@[18] == 'e');
    assert("app.session.toggleNamedFilter"@.len() == 29 && "app.session.toggleNamedFilter"@[14] == 'g' && "app.session.toggleNamedFilter"@[18] == 'N');
    assert("app.editor.external"@.len() == 19 && "app.editor.external"@[14] == 'e' && "app.editor.external"@[18] == 'l');
    assert("app.message.copy"@.len() == 16 && "app.message.copy"@[14] == 'p');
    assert("app.message.followUp"@.len() == 20 && "app.message.followUp"@[14] == 'l' && "app.message.followUp"@[18] == 'U');
    assert("app.message.dequeue"@.len() == 19 && "app.message.dequeue"@[14] == 'q' && "app.message.dequeue"@[18] == 'e');
    assert("app.clipboard.pasteImage"@.len() == 24 && "app.clipboard.pasteImage"@[14] == 'p' && "app.clipboard.pasteImage"@[18] == 'e');
    assert("app.session.new"@.len() == 15 && "app.session.new"@[14] == 'w');
    assert("app.session.tree"@.len() == 16 && "app.session.tree"@[14] == 'e');
    assert("app.session.fork"@.len() == 16 && "app.session.fork"@[14] == 'r');
    assert("app.session.resume"@.len() == 18 && "app.session.resume"@[14] == 's');
    assert("app.tree.foldOrUp"@.len() == 17 && "app.tree.foldOrUp"@[14] == 'r');
    assert("app.tree.unfoldOrDown"@.len() == 21 && "app.tree.unfoldOrDown"@[14] == 'd' && "app.tree.unfoldOrDown"@[18] == 'o');
    assert("app.tree.editLabel"@.len() == 18 && "app.tree.editLabel"@[14] == 'a');
    assert("app.tree.toggleLabelTimestamp"@.len() == 29 && "app.tree.toggleLabelTimestamp"@[14] == 'e' && "app.tree.toggleLabelTimestamp"@[18] == 'e');
    assert("app.session.togglePath"@.len() == 22 && "app.session.togglePath"@[14] == 'g' && "app.session.togglePath"@[18] == 'P');
    assert("app.session.toggleSort"@.len() == 22 && "app.session.toggleSort"@[14] == 'g' && "app.session.toggleSort"@[18] == 'S');
    assert("app.session.rename"@.len() == 18 && "app.session.rename"@[14] == 'n');
    assert("app.session.delete"@.len() == 18 && "app.session.delete"@[14] == 'l');
    assert("app.session.deleteNoninvasive"@.len() == 29 && "app.session.deleteNoninvasive"@[14] == 'l' && "app.session.deleteNoninvasive"@[18] == 'N');
    assert("app.models.save"@.len() == 15 && "app.models.save"@[14] == 'e');
    assert("app.models.enableAll"@.len() == 20 && "app.models.enableAll"@[14] == 'b' && "app.models.enableAll"@[18] == 'l');
    assert("app.models.clearAll"@.len() == 19 && "app.models.clearAll"@[14] == 'a' && "app.models.clearAll"@[18] == 'l');
    assert("app.models.toggleProvider"@.len() == 25 && "app.models.toggleProvider"@[14] == 'g' && "app.models.toggleProvider"@[18] == 'r');
    assert("app.models.reorderUp"@.len() == 20 && "app.models.reorderUp"@[14] == 'r' && "app.models.reorderUp"@[18] == 'U');
    assert("app.models.reorderDown"@.len() == 22 && "app.models.reorderDown"@[14] == 'r' && "app.models.reorderDown"@[18] == 'D');
    assert("app.tree.filter.default"@.len() == 23 && "app.tree.filter.default"@[14] == 'r' && "app.tree.filter.default"@[18] == 'f');
    assert("app.tree.filter.noTools"@.len() == 23 && "app.tree.filter.noTools"@[14] == 'r' && "app.tree.filter.noTools"@[18] == 'T');
    assert("app.tree.filter.userOnly"@.len() == 24 && "app.tree.filter.userOnly"@[14] == 'r' && "app.tree.filter.userOnly"@[18] == 'e');
    assert("app.tree.filter.labeledOnly"@.len() == 27 && "app.tree.filter.labeledOnly"@[14] == 'r' && "app.tree.filter.labeledOnly"@[18] == 'b');
    assert("app.tree.filter.all"@.len() == 19 && "app.tree.filter.all"@[14] == 'r' && "app.tree.filter.all"@[18] == 'l');
    assert("app.tree.filter.cycleForward"@.len() == 28 && "app.tree.filter.cycleForward"@[14] == 'r' && "app.tree.filter.cycleForward"@[18] == 'c');
    assert("app.tree.filter.cycleBackward"@.len() == 29 && "app.tree.filter.cycleBackward"@[14] == 'r' && "app.tree.filter.cycleBackward"@[18] == 'c');
}

/// The keys that a JSON value names: a string is one key, and of an array each string is one. Other
/// values name none.
pub open spec fn named_keys(field: JsonFieldView, items: Option<Seq<Option<Seq<char>>>>) -> Option<
    Seq<Seq<char>>,
> {
    match field {
        JsonFieldView::Text(key) => Some(seq![key]),
        JsonFieldView::Other(_) => match items {
            Some(items) => Some(strings_among(items)),
            None => None,
        },
        _ => None,
    }
}

/// The strings among items.
pub open spec fn strings_among(items: Seq<Option<Seq<char>>>) -> Seq<Seq<char>>
    decreases items.len(),
{
    if items.len() == 0 {
        Seq::empty()
    } else {
        match items.last() {
            Some(text) => strings_among(items.drop_last()).push(text),
            None => strings_among(items.drop_last()),
        }
    }
}

/// The contents of optional texts.
pub open spec fn opt_views(items: Seq<Option<String>>) -> Seq<Option<Seq<char>>> {
    items.map_values(
        |s: Option<String>|
            match s {
                Some(text) => Some(text@),
                None => None,
            },
    )
}

/// The keys that a JSON value names; `items` are those of an array, with the strings among them.
pub fn binding_keys(field: &JsonField, items: &Option<Vec<Option<String>>>) -> (r: Option<
    Vec<String>,
>)
    ensures
        opt_texts(r) == named_keys(
            field@,
            match items {
                Some(items) => Some(opt_views(items@)),
                None => None,
            },
        ),
{
    match field {
        JsonField::Text(key) => {
            let mut keys: Vec<String> = Vec::new();
            push_text(&mut keys, key.clone());
            assert(texts(keys@) =~= seq![key@]);
            Some(keys)
        },
        JsonField::Other(_) => match items {
            Some(items) => {
                let ghost views = opt_views(items@);
                let mut keys: Vec<String> = Vec::new();
                let mut i: usize = 0;
                assert(texts(keys@) =~= strings_among(views.take(0)));
                while i < items.len()
                    invariant
                        i <= items.len(),
                        views == opt_views(items@),
                        texts(keys@) == strings_among(views.take(i as int)),
                    decreases items.len() - i,
                {
                    proof {
                        assert(views.take(i + 1).drop_last() =~= views.take(i as int));
                        assert(views.take(i + 1).last() == views[i as int]);
                    }
                    if let Some(text) = &items[i] {
                        push_text(&mut keys, text.clone());
                    }
                    i = i + 1;
                }
                assert(views.take(i as int) =~= views);
                Some(keys)
            },
            None => None,
        },
        _ => None,
    }
}

/// The strings of the array in a JSON text, with the items that are none.
pub open spec fn array_strings(json: Seq<char>) -> Option<Seq<Option<Seq<char>>>> {
    match json_items(json) {
        Some(items) => Some(items.map_values(|item: Seq<char>| json_string(item))),
        None => None,
    }
}

/// The items of the array that a field holds.
pub open spec fn field_items(field: JsonFieldView) -> Option<Seq<Option<Seq<char>>>> {
    match field {
        JsonFieldView::Other(json) => array_strings(json),
        _ => None,
    }
}

/// The keys that the user binds to each of the actions; values that name no keys are left out.
pub open spec fn bindings_among(raw: Seq<char>, ids: Seq<Seq<char>>) -> Seq<
    (Seq<char>, Seq<Seq<char>>),
>
    decreases ids.len(),
{
    if ids.len() == 0 {
        Seq::empty()
    } else {
        let before = bindings_among(raw, ids.drop_last());
        let field = json_field(raw, ids.last());
        match named_keys(field, field_items(field)) {
            Some(keys) => before.push((ids.last(), keys)),
            None => before,
        }
    }
}

/// The keys that the user binds to actions. Text that is no JSON object binds none.
pub open spec fn user_bindings(raw: Seq<char>) -> Seq<(Seq<char>, Seq<Seq<char>>)> {
    match json_keys(raw) {
        Some(ids) => bindings_among(raw, ids),
        None => Seq::empty(),
    }
}

/// The contents of bindings.
pub open spec fn binding_views(bindings: Seq<(String, Vec<String>)>) -> Seq<
    (Seq<char>, Seq<Seq<char>>),
> {
    bindings.map_values(|b: (String, Vec<String>)| (b.0@, texts(b.1@)))
}

fn read_items(field: &JsonField) -> (r: Option<Vec<Option<String>>>)
    ensures
        match r {
            Some(items) => field_items(field@) == Some(opt_views(items@)),
            None => field_items(field@) is None,
        },
{
    let json = match field {
        JsonField::Other(json) => json,
        _ => {
            return None;
        },
    };
    let items = match read_json_items(json.as_str()) {
        Some(items) => items,
        None => {
            return None;
        },
    };
    let ghost wanted = texts(items@).map_values(|item: Seq<char>| json_string(item));
    let mut r: Vec<Option<String>> = Vec::new();
    let mut i: usize = 0;
    while i < items.len()
        invariant
            i <= items.len(),
            wanted == texts(items@).map_values(|item: Seq<char>| json_string(item)),
            opt_views(r@) =~= wanted.take(i as int),
        decreases items.len() - i,
    {
        let ghost before = r@;
        let item = read_json_string(items[i].as_str());
        r.push(item);
        assert(texts(items@)[i as int] == items@[i as int]@);
        assert(opt_views(r@) =~= opt_views(before).push(wanted[i as int]));
        i = i + 1;
    }
    assert(opt_views(r@) =~= wanted);
    Some(r)
}

/// The keys that the user binds to actions, from the text of the keybindings file. A malformed file
/// binds none.
pub fn load_user_bindings(raw: &str) -> (r: Vec<(String, Vec<String>)>)
    ensures
        binding_views(r@) == user_bindings(raw@),
        !is_json(raw@) ==> r@.len() == 0,
{
    let mut r: Vec<(String, Vec<String>)> = Vec::new();
    assert(binding_views(r@) =~= Seq::empty());
    let ids = match read_json_keys(raw) {
        Some(ids) => ids,
        None => {
            return r;
        },
    };
    let mut i: usize = 0;
    assert(binding_views(r@) =~= bindings_among(raw@, texts(ids@).take(0)));
    while i < ids.len()
        invariant
            i <= ids.len(),
            binding_views(r@) == bindings_among(raw@, texts(ids@).take(i as int)),
        decreases ids.len() - i,
    {
        proof {
            let longer = texts(ids@).take(i + 1);
            assert(longer.drop_last() =~= texts(ids@).take(i as int));
            assert(longer.last() == ids@[i as int]@);
        }
        let field = read_json_field(raw, ids[i].as_str());
        let items = read_items(&field);
        if let Some(keys) = binding_keys(&field, &items) {
            let ghost before = r@;
            let binding = (ids[i].clone(), keys);
            r.push(binding);
            assert(binding_views(r@) =~= binding_views(before).push(
                (binding.0@, texts(binding.1@)),
            ));
        }
        i = i + 1;
    }
    assert(texts(ids@).take(i as int) =~= texts(ids@));
    r
}

/// The actions with their default keys, and the keys that the user binds to them.
#[derive(Debug)]
pub struct AppKeybindings {
    pub definitions: Vec<KeybindingDefinition>,
    pub user_bindings: Vec<(String, Vec<String>)>,
}

/// The keybindings of the app, with the text of the user's keybindings file, if there is one.
#[must_use]
pub fn create_app_keybindings(
    tui: Vec<KeybindingDefinition>,
    macos: bool,
    user_file: Option<&str>,
) -> (r: AppKeybindings)
    ensures
        definition_views(r.definitions@) == not_redefined(
            definition_views(tui@),
            app_actions(macos),
        ) + app_actions(macos),
        binding_views(r.user_bindings@) == match user_file {
            Some(raw) => user_bindings(raw@),
            None => Seq::empty(),
        },
        match user_file {
            Some(raw) => !is_json(raw@) ==> r.user_bindings@.len() == 0,
            None => r.user_bindings@.len() == 0,
        },
{
    let user_bindings = match user_file {
        Some(raw) => load_user_bindings(raw),
        None => {
            let none: Vec<(String, Vec<String>)> = Vec::new();
            assert(binding_views(none@) =~= Seq::empty());
            none
        },
    };
    AppKeybindings { definitions: app_keybinding_definitions(tui, macos), user_bindings }
}

} // verus!
