//! What choices in the smaller components come to: themes, warnings, overlays, labels, copied texts and
//! keybindings.

use crate::app_keybindings::{
    app_actions, bindings_among, defines, field_items, named_keys, not_redefined, user_bindings,
    DefinitionView,
};
use crate::config_list::{list_responded, ConfigRequest};
use crate::config_selector::{ConfigWriteScope, FlatEntry, ResourceList};
use crate::entries::{copy_text, Content, EntryKind};
use crate::extension_ui::{anchor_named, overlay_of_fields, OverlayAnchor, OverlayValue, SizeView};
use crate::json::{json_field, json_keys};
use crate::keybinding_hints::KeyMatches;
use crate::resource_settings::ProjectOverrideState;
use crate::resources::ItemView;
use crate::settings_changes::{warning_rows, warnings_after};
use crate::settings_selector::{TerminalTheme, WarningSettings};
use crate::text::{is_blank, trim};
use crate::theme_submenu::{stepped, Appearance, ThemeEvent, ThemeMode, ThemeView};
use crate::tree_component::{responded, TreeSelectorComponent, TreeSelectorRequest};
use crate::tree_navigation::first_with_id;
use vstd::prelude::*;

verus! {

/// The list of warnings shows the value that was chosen for a warning; other ids change nothing.
pub proof fn chosen_warnings_are_shown(warnings: WarningSettings, id: Seq<char>, value: Seq<char>)
    requires
        value == "true"@ || value == "false"@,
    ensures
        id == warning_rows(warnings)[0].id ==> warning_rows(warnings_after(warnings, id, value))[0].current_value
            == value,
        id != warning_rows(warnings)[0].id ==> warnings_after(warnings, id, value) == warnings,
        warning_rows(warnings)[0].values.contains(value),
{
    reveal_strlit("true");
    reveal_strlit("false");
    assert("true"@.len() == 4 && "false"@.len() == 5);
    let values = warning_rows(warnings)[0].values;
    assert(values[0] == "true"@ && values[1] == "false"@);
}

/// Among single themes, moving to one shows what choosing it keeps; moving to the automatic mode shows
/// what choosing that shows. Choosing the automatic mode keeps nothing yet.
pub proof fn themes_show_what_choosing_them_keeps(menu: ThemeView, value: String)
    requires
        menu.mode == ThemeMode::Single,
    ensures
        ({
            let moved = stepped(menu, ThemeEvent::Highlight(value));
            let chosen = stepped(menu, ThemeEvent::Choose(value));
            &&& moved.0 == menu
            &&& moved.1.done is None
            &&& value@ != "/"@ ==> {
                &&& moved.1.preview == Some(value@)
                &&& chosen.1.done == Some(Some(value@))
                &&& chosen.0.mode == ThemeMode::Single
            }
            &&& value@ == "/"@ ==> {
                &&& moved.1.preview == chosen.1.preview
                &&& chosen.1.done is None
                &&& chosen.0.mode == ThemeMode::Automatic
                &&& chosen.0.light_theme == menu.light_theme
                &&& chosen.0.dark_theme == menu.dark_theme
            }
        }),
{
}

/// Choosing a theme for light or dark terminals changes that one alone and shows both; moving to one
/// only shows it, and leaving the choice shows what was there. Applying keeps the light theme before the
/// dark one.
pub proof fn themes_are_chosen_for_an_appearance(
    menu: ThemeView,
    appearance: Appearance,
    value: String,
    apply: String,
)
    requires
        menu.mode == ThemeMode::Automatic,
        apply@ == "apply"@,
    ensures
        ({
            let both = |light: Seq<char>, dark: Seq<char>| light + seq!['/'] + dark;
            let moved = stepped(menu, ThemeEvent::HighlightFor(appearance, value));
            let chosen = stepped(menu, ThemeEvent::ChooseFor(appearance, value));
            let left = stepped(menu, ThemeEvent::LeaveChoice);
            let applied = stepped(menu, ThemeEvent::Activate(apply));
            &&& moved.0 == menu
            &&& moved.1.preview == Some(value@)
            &&& moved.1.done is None
            &&& chosen.1.done is None
            &&& chosen.0.mode == ThemeMode::Automatic
            &&& chosen.0.light_theme == if appearance == Appearance::Light {
                value@
            } else {
                menu.light_theme
            }
            &&& chosen.0.dark_theme == if appearance == Appearance::Dark {
                value@
            } else {
                menu.dark_theme
            }
            &&& chosen.1.preview == Some(both(chosen.0.light_theme, chosen.0.dark_theme))
            &&& left.0 == menu
            &&& left.1.preview == Some(both(menu.light_theme, menu.dark_theme))
            &&& left.1.done is None
            &&& applied.1.done == Some(Some(both(menu.light_theme, menu.dark_theme)))
        }),
{
    reveal_strlit("apply");
    reveal_strlit("single-mode");
    assert("apply"@.len() == 5 && "single-mode"@.len() == 11);
}

/// Going back to a single theme shows and selects the one that the terminal showed, and keeps nothing.
pub proof fn going_back_to_one_theme_keeps_the_look(menu: ThemeView, row: String)
    requires
        menu.mode == ThemeMode::Automatic,
        row@ == "single-mode"@,
    ensures
        ({
            let (after, step) = stepped(menu, ThemeEvent::Activate(row));
            let shown = match menu.terminal_theme {
                TerminalTheme::Light => menu.light_theme,
                TerminalTheme::Dark => menu.dark_theme,
            };
            &&& after.mode == ThemeMode::Single
            &&& after.single_theme == shown
            &&& step.preview == Some(shown)
            &&& step.done is None
        }),
{
}

/// The name of an anchor.
pub open spec fn anchor_name(anchor: OverlayAnchor) -> Seq<char> {
    match anchor {
        OverlayAnchor::Center => "center"@,
        OverlayAnchor::TopLeft => "top-left"@,
        OverlayAnchor::TopRight => "top-right"@,
        OverlayAnchor::BottomLeft => "bottom-left"@,
        OverlayAnchor::BottomRight => "bottom-right"@,
        OverlayAnchor::TopCenter => "top-center"@,
        OverlayAnchor::BottomCenter => "bottom-center"@,
        OverlayAnchor::LeftCenter => "left-center"@,
        OverlayAnchor::RightCenter => "right-center"@,
    }
}

/// Each anchor is what its own name gives, and a name that is none of theirs gives the center.
pub proof fn anchors_are_named_after_their_place(anchor: OverlayAnchor, name: Seq<char>)
    ensures
        anchor_named(anchor_name(anchor)) == anchor,
        anchor_named(name) != OverlayAnchor::Center ==> name == anchor_name(anchor_named(name)),
{
    reveal_strlit("center");
    reveal_strlit("top-left");
    reveal_strlit("top-right");
    reveal_strlit("bottom-left");
    reveal_strlit("bottom-right");
    reveal_strlit("top-center");
    reveal_strlit("bottom-center");
    reveal_strlit("left-center");
    reveal_strlit("right-center");
    assert("center"@.len() == 6 && "top-left"@.len() == 8 && "top-right"@.len() == 9);
    assert("bottom-left"@.len() == 11 && "bottom-left"@[0] == 'b');
    assert("bottom-right"@.len() == 12 && "bottom-right"@[0] == 'b');
    assert("top-center"@.len() == 10 && "bottom-center"@.len() == 13);
    assert("left-center"@.len() == 11 && "left-center"@[0] == 'l');
    assert("right-center"@.len() == 12 && "right-center"@[0] == 'r');
}

/// How the names of the overlay options differ from each other.
proof fn lemma_option_names()
    ensures
        "width"@.len() == 5,
        "minWidth"@.len() == 8,
        "maxHeight"@.len() == 9,
        "anchor"@.len() == 6,
        "offsetX"@.len() == 7,
        "offsetX"@[6] == 'X',
        "offsetY"@.len() == 7,
        "offsetY"@[6] == 'Y',
        "row"@.len() == 3,
        "row"@[0] == 'r',
        "col"@.len() == 3,
        "col"@[0] == 'c',
        "nonCapturing"@.len() == 12,
{
    reveal_strlit("width");
    reveal_strlit("minWidth");
    reveal_strlit("maxHeight");
    reveal_strlit("anchor");
    reveal_strlit("offsetX");
    reveal_strlit("offsetY");
    reveal_strlit("row");
    reveal_strlit("col");
    reveal_strlit("nonCapturing");
}

/// A field sets the option of its own name and no other: a number sets a size in cells, a least width or
/// an offset, a text an anchor, and a switch whether keys are left to others.
pub proof fn fields_set_their_own_options(
    fields: Seq<(String, OverlayValue)>,
    key: String,
    value: OverlayValue,
)
    ensures
        ({
            let before = overlay_of_fields(fields);
            let after = overlay_of_fields(seq![(key, value)] + fields);
            &&& key@ != "width"@ ==> after.width == before.width
            &&& key@ != "minWidth"@ ==> after.min_width == before.min_width
            &&& key@ != "maxHeight"@ ==> after.max_height == before.max_height
            &&& key@ != "anchor"@ ==> after.anchor == before.anchor
            &&& key@ != "offsetX"@ ==> after.offset_x == before.offset_x
            &&& key@ != "offsetY"@ ==> after.offset_y == before.offset_y
            &&& key@ != "row"@ ==> after.row == before.row
            &&& key@ != "col"@ ==> after.col == before.col
            &&& key@ != "nonCapturing"@ ==> after.non_capturing == before.non_capturing
            &&& value matches OverlayValue::Number(n) ==> {
                &&& key@ == "width"@ ==> after.width == Some(SizeView::Abs(n.whole))
                &&& key@ == "maxHeight"@ ==> after.max_height == Some(SizeView::Abs(n.whole))
                &&& key@ == "row"@ ==> after.row == Some(SizeView::Abs(n.whole))
                &&& key@ == "col"@ ==> after.col == Some(SizeView::Abs(n.whole))
                &&& key@ == "minWidth"@ && (n.unsigned matches Some(w) && w <= usize::MAX)
                    ==> after.min_width is Some && after.min_width->0 == n.unsigned->0
                &&& key@ == "offsetX"@ && (n.signed matches Some(x) && i32::MIN <= x <= i32::MAX)
                    ==> after.offset_x == n.signed->0
                &&& key@ == "offsetY"@ && (n.signed matches Some(y) && i32::MIN <= y <= i32::MAX)
                    ==> after.offset_y == n.signed->0
            }
            &&& value matches OverlayValue::Text(name) ==> key@ == "anchor"@ ==> after.anchor
                == anchor_named(name@)
            &&& value matches OverlayValue::Bool(on) ==> key@ == "nonCapturing"@
                ==> after.non_capturing == on
        }),
{
    lemma_option_names();
    let more = seq![(key, value)] + fields;
    assert(more[0].0@ == key@ && more[0].1 == value);
    assert(more.skip(1) =~= fields);
}

/// What is copied from an entry is the text that it holds: the command of a bash message, the summary of
/// a summary, and otherwise the text of the message; from an assistant message without text its error.
/// Nothing is copied from bookkeeping, nor where there is only space.
pub proof fn copies_are_of_the_entrys_text(kind: EntryKind)
    ensures
        copy_text(kind) matches Some(text) ==> !is_blank(text),
        kind matches EntryKind::Compaction { summary, .. } ==> !is_blank(summary@) ==> copy_text(kind)
            == Some(summary@),
        kind matches EntryKind::BranchSummary { summary } ==> !is_blank(summary@) ==> copy_text(kind)
            == Some(summary@),
        kind is Label || kind is Custom || kind is ModelChange || kind is ThinkingLevelChange
            || kind is SessionInfo ==> copy_text(kind) is None,
        kind matches EntryKind::Message(message) ==> {
            &&& message.role@ == "bashExecution"@ ==> (message.command matches Some(command)
                ==> !is_blank(command@) ==> copy_text(kind) == Some(command@))
            &&& message.role@ != "bashExecution"@ ==> (message.content matches Content::Text(text)
                ==> !is_blank(text@) ==> copy_text(kind) == Some(text@))
            &&& message.role@ == "assistant"@ && (message.content matches Content::Text(text)
                && text@.len() == 0) ==> (message.error_message matches Some(error) ==> !is_blank(
                error@,
            ) ==> copy_text(kind) == Some(error@))
        },
        kind matches EntryKind::CustomMessage { content: Content::Text(text), .. } ==> !is_blank(text@)
            ==> copy_text(kind) == Some(text@),
{
    reveal_strlit("bashExecution");
    reveal_strlit("assistant");
    assert("bashExecution"@.len() == 13 && "assistant"@.len() == 9);
}

proof fn lemma_first_with_id(
    arena: Seq<crate::tree_arena::ArenaNode>,
    id: Seq<char>,
    k: int,
)
    requires
        0 <= k < arena.len(),
        arena[k].entry.id@ == id,
        forall|j: int| 0 <= j < k ==> (#[trigger] arena[j]).entry.id@ != id,
    ensures
        first_with_id(arena, id) == k,
    decreases k,
{
    if k > 0 {
        assert(arena[0].entry.id@ != id);
        let rest = arena.skip(1);
        assert forall|j: int| 0 <= j < k - 1 implies (#[trigger] rest[j]).entry.id@ != id by {
            assert(rest[j] == arena[j + 1]);
        }
        lemma_first_with_id(rest, id, k - 1);
    }
}

/// Confirming a label sets it on the entry that it was asked for, without the space around it, or takes
/// it away where nothing was entered; every other entry keeps its own. Cancelling changes none.
pub proof fn labels_are_set_on_their_entry(
    before: TreeSelectorComponent,
    after: TreeSelectorComponent,
    key: KeyMatches,
    data: Seq<char>,
    label_value: Seq<char>,
    now: Seq<char>,
    request: TreeSelectorRequest,
    k: int,
    other: int,
)
    requires
        responded(before, after, key, data, label_value, now, request),
        before.label_entry is Some,
        0 <= k < before.tree_list.arena@.len(),
        before.tree_list.arena@[k].entry.id@ == before.label_entry->0@,
        forall|j: int|
            0 <= j < k ==> (#[trigger] before.tree_list.arena@[j]).entry.id@
                != before.label_entry->0@,
        0 <= other < before.tree_list.arena@.len(),
        other != k,
    ensures
        after.tree_list.arena@[other] == before.tree_list.arena@[other],
        key.has("tui.select.confirm"@) ==> {
            &&& request is LabelChanged
            &&& request->LabelChanged_id@ == before.label_entry->0@
            &&& after.label_entry is None
            &&& is_blank(label_value) ==> after.tree_list.arena@[k].label is None
            &&& !is_blank(label_value) ==> after.tree_list.arena@[k].label is Some
                && after.tree_list.arena@[k].label->0@ == trim(label_value)
        },
        !key.has("tui.select.confirm"@) ==> after.tree_list == before.tree_list && !(
        request is LabelChanged),
        !key.has("tui.select.confirm"@) ==> (after.label_entry is None) == key.has(
            "tui.select.cancel"@,
        ),
{
    lemma_first_with_id(before.tree_list.arena@, before.label_entry->0@, k);
    crate::text::lemma_trim_empty(label_value);
}

/// In a project the space key goes on to the next state of the selected resource: first the opposite of
/// what it inherits, then what it inherits but said by the project, then nothing said. The list shows it
/// on where the project loads it, off where the project unloads it, and otherwise as it is inherited.
pub proof fn projects_go_through_the_states(
    before: ResourceList,
    after: ResourceList,
    key: KeyMatches,
    data: Seq<char>,
    request: ConfigRequest,
)
    requires
        before.wf(),
        before.write_scope == ConfigWriteScope::Project,
        before.selected_item() is Some,
        list_responded(before, after, key, data, request),
        request is Toggled,
    ensures
        ({
            let item = before.selected_item()->0;
            let inherited = before.context().inherited_enabled(item);
            let said = before.context().override_state(item);
            let opposite = if inherited {
                ProjectOverrideState::Unload
            } else {
                ProjectOverrideState::Load
            };
            let shown = if said == ProjectOverrideState::Inherit {
                !inherited
            } else {
                inherited
            };
            &&& after.selected_item() == Some(ItemView { enabled: shown, ..item })
            &&& said == ProjectOverrideState::Inherit ==> before.context().overridden(item, opposite)
                == Some(after.project_settings@)
            &&& said != ProjectOverrideState::Inherit && said != opposite
                ==> before.context().overridden(item, ProjectOverrideState::Inherit) == Some(
                after.project_settings@,
            )
        }),
{
    let item = before.selected_item()->0;
    let inherited = before.context().inherited_enabled(item);
    match before.filtered_items@[before.selected_index as int] {
        FlatEntry::Item(g, s, i) => {
            crate::config_list::every_copy_is_updated(
                before.groups(),
                item.path,
                item.resource_type,
                if before.context().override_state(item) == ProjectOverrideState::Inherit {
                    !inherited
                } else {
                    inherited
                },
                g,
                s,
                i,
            );
        },
        _ => {},
    }
}

proof fn lemma_not_redefined(
    list: Seq<DefinitionView>,
    others: Seq<DefinitionView>,
    definition: DefinitionView,
)
    ensures
        not_redefined(list, others).contains(definition) <==> list.contains(definition) && !defines(
            others,
            definition.id,
        ),
    decreases list.len(),
{
    if list.len() > 0 {
        let rest = list.drop_last();
        let last = list.last();
        lemma_not_redefined(rest, others, definition);
        let before = not_redefined(rest, others);
        let all = not_redefined(list, others);
        assert(list[list.len() - 1] == last);
        if list.contains(definition) && definition != last {
            assert(rest[list.index_of(definition)] == definition);
        }
        if rest.contains(definition) {
            assert(list[rest.index_of(definition)] == definition);
        }
        if !defines(others, last.id) {
            assert(all == before.push(last));
            assert(all[before.len() as int] == last);
            if before.contains(definition) {
                assert(all[before.index_of(definition)] == definition);
            }
            if all.contains(definition) {
                let k = all.index_of(definition);
                if k < before.len() {
                    assert(before[k] == definition);
                }
            }
        }
    }
}

/// The app's own actions stand beside those of the toolkit, and in place of the ones with the same ids.
pub proof fn app_actions_stand_beside_the_toolkits(
    toolkit: Seq<DefinitionView>,
    macos: bool,
    definition: DefinitionView,
)
    ensures
        ({
            let all = not_redefined(toolkit, app_actions(macos)) + app_actions(macos);
            all.contains(definition) <==> app_actions(macos).contains(definition) || (
            toolkit.contains(definition) && forall|i: int|
                0 <= i < app_actions(macos).len() ==> (#[trigger] app_actions(macos)[i]).id
                    != definition.id)
        }),
{
    lemma_not_redefined(toolkit, app_actions(macos), definition);
    let kept = not_redefined(toolkit, app_actions(macos));
    let all = kept + app_actions(macos);
    if kept.contains(definition) {
        assert(all[kept.index_of(definition)] == definition);
    }
    if app_actions(macos).contains(definition) {
        assert(all[kept.len() + app_actions(macos).index_of(definition)] == definition);
    }
    if all.contains(definition) {
        let k = all.index_of(definition);
        if k < kept.len() {
            assert(kept[k] == definition);
        } else {
            assert(app_actions(macos)[k - kept.len()] == definition);
        }
    }
}

proof fn lemma_bindings_among(
    raw: Seq<char>,
    ids: Seq<Seq<char>>,
    id: Seq<char>,
    keys: Seq<Seq<char>>,
)
    ensures
        bindings_among(raw, ids).contains((id, keys)) <==> ids.contains(id) && named_keys(
            json_field(raw, id),
            field_items(json_field(raw, id)),
        ) == Some(keys),
    decreases ids.len(),
{
    if ids.len() > 0 {
        let rest = ids.drop_last();
        let last = ids.last();
        lemma_bindings_among(raw, rest, id, keys);
        let before = bindings_among(raw, rest);
        let all = bindings_among(raw, ids);
        assert(ids[ids.len() - 1] == last);
        if ids.contains(id) && id != last {
            assert(rest[ids.index_of(id)] == id);
        }
        if rest.contains(id) {
            assert(ids[rest.index_of(id)] == id);
        }
        let named = named_keys(json_field(raw, last), field_items(json_field(raw, last)));
        if named is Some {
            assert(all == before.push((last, named->0)));
            assert(all[before.len() as int] == (last, named->0));
            if before.contains((id, keys)) {
                assert(all[before.index_of((id, keys))] == (id, keys));
            }
            if all.contains((id, keys)) {
                let k = all.index_of((id, keys));
                if k < before.len() {
                    assert(before[k] == (id, keys));
                }
            }
        }
    }
}

/// The user's file binds each action that it names to the keys that it gives, and no other action.
pub proof fn the_users_keys_are_taken_over(raw: Seq<char>, id: Seq<char>, keys: Seq<Seq<char>>)
    ensures
        user_bindings(raw).contains((id, keys)) <==> json_keys(raw) is Some && json_keys(
            raw,
        )->0.contains(id) && named_keys(
            json_field(raw, id),
            field_items(json_field(raw, id)),
        ) == Some(keys),
{
    if let Some(ids) = json_keys(raw) {
        lemma_bindings_among(raw, ids, id, keys);
    }
}

} // verus!
