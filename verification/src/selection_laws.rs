//! What the keys of lists do: where they leave the selection, and what they choose.

use crate::extension_dialogs::{DialogActionView, ExtensionSelector};
use crate::first_time_setup::{setup_responded, step_labels, FirstTimeSetup, SetupAction, SetupStep};
use crate::keybinding_hints::KeyMatches;
use crate::model_selector::{ModelActionView, ModelScope, ModelSelectorView};
use crate::oauth_selector::{providers_responded, OAuthAction, OAuthSelector};
use crate::scroll::{moved_down, moved_up, window_end, window_start, wrapped_down, wrapped_up};
use crate::session_selector::{event_views, list_reacted, EventView, SessionList};
use crate::settings_selector::TerminalTheme;
use crate::trust_selector::{choices_responded, update_views, TrustAction, TrustSelectorComponent};
use crate::user_message_selector::{messages_responded, UserMessageAction, UserMessageList};
use vstd::prelude::*;

verus! {

/// With wrapping, a step down leads to the next item and a step up to the one before; the ends are
/// neighbours of each other.
pub proof fn wrapping_steps_lead_to_neighbours(selected: int, len: int)
    requires
        0 <= selected < len,
    ensures
        selected + 1 < len ==> wrapped_down(selected, len) == selected + 1,
        selected + 1 == len ==> wrapped_down(selected, len) == 0,
        selected > 0 ==> wrapped_up(selected, len) == selected - 1,
        selected == 0 ==> wrapped_up(selected, len) == len - 1,
{
}

/// Without wrapping, steps lead as far as the list goes and no further.
pub proof fn steps_stop_at_the_ends(selected: int, len: int, step: int)
    requires
        0 <= selected < len,
        0 <= step,
    ensures
        selected + step < len ==> moved_down(selected, len, step) == selected + step,
        selected + step >= len ==> moved_down(selected, len, step) == len - 1,
        selected >= step ==> moved_up(selected, step) == selected - step,
        selected < step ==> moved_up(selected, step) == 0,
{
}

/// Moving the selection by one moves the window by no more than one, and the window starts at the
/// top for the first item and ends at the bottom for the last.
pub proof fn windows_follow_the_selection(selected: int, len: int, room: int)
    requires
        0 <= selected < len,
        0 < room,
    ensures
        window_start(0, len, room) == 0,
        window_end(len - 1, len, room) == len,
        selected + 1 < len ==> window_start(selected, len, room) <= window_start(
            selected + 1,
            len,
            room,
        ) <= window_start(selected, len, room) + 1,
{
}

/// In the list of models the down key selects the next one and the up key the one before, around the
/// ends; nothing else changes and nothing is asked for.
pub proof fn arrows_select_the_next_model(v: ModelSelectorView, keys: KeyMatches)
    requires
        0 <= v.selected < v.filtered.len(),
        !keys.has("tui.input.tab"@),
        keys.has("tui.select.up"@) || keys.has("tui.select.down"@),
    ensures
        ({
            let (after, action) = v.pressed(keys);
            let len = v.filtered.len() as int;
            &&& action == ModelActionView::Nothing
            &&& after == (ModelSelectorView { selected: after.selected, ..v })
            &&& keys.has("tui.select.up"@) ==> after.selected == if v.selected > 0 {
                v.selected - 1
            } else {
                len - 1
            }
            &&& !keys.has("tui.select.up"@) ==> after.selected == if v.selected + 1 < len {
                v.selected + 1
            } else {
                0
            }
        }),
{
}

/// Confirming chooses the model that is listed at the selection; after the down key that is the one
/// listed right below. Cancelling gives up, and any other key goes to the search.
pub proof fn confirming_chooses_the_selected_model(
    v: ModelSelectorView,
    down: KeyMatches,
    confirm: KeyMatches,
    other: KeyMatches,
)
    requires
        0 <= v.selected,
        v.selected + 1 < v.filtered.len(),
        !down.has("tui.input.tab"@),
        !down.has("tui.select.up"@),
        down.has("tui.select.down"@),
        !confirm.has("tui.input.tab"@),
        !confirm.has("tui.select.up"@),
        !confirm.has("tui.select.down"@),
        confirm.has("tui.select.confirm"@),
        !other.has("tui.input.tab"@),
        !other.has("tui.select.up"@),
        !other.has("tui.select.down"@),
        !other.has("tui.select.confirm"@),
    ensures
        ({
            let listed = match v.scope {
                ModelScope::All => v.all,
                ModelScope::Scoped => v.scoped,
            };
            &&& v.pressed(confirm) == (
                v,
                ModelActionView::Select(listed[v.filtered[v.selected] as int]),
            )
            &&& v.pressed(down).0.pressed(confirm).1 == ModelActionView::Select(
                listed[v.filtered[v.selected + 1] as int],
            )
            &&& v.pressed(other).0 == v
            &&& v.pressed(other).1 == if other.has("tui.select.cancel"@) {
                ModelActionView::Cancel
            } else {
                ModelActionView::Search
            }
        }),
{
}

/// The tab key lists the models of the other scope, if the session is limited to some, and asks for
/// nothing.
pub proof fn tab_lists_the_other_models(v: ModelSelectorView, keys: KeyMatches)
    requires
        keys.has("tui.input.tab"@),
    ensures
        v.pressed(keys).1 == ModelActionView::Nothing,
        v.scoped.len() == 0 ==> v.pressed(keys).0 == v,
        v.scoped.len() > 0 ==> v.pressed(keys).0.scope != v.scope,
        v.pressed(keys).0.all == v.all,
        v.pressed(keys).0.scoped == v.scoped,
        v.pressed(keys).0.query == v.query,
        v.pressed(keys).0.current == v.current,
{
}

/// In the list of user messages the arrows select the neighbours, around the ends; confirming chooses
/// the message at the selection and cancelling gives up.
pub proof fn arrows_select_the_next_message(
    before: UserMessageList,
    after: UserMessageList,
    keys: KeyMatches,
    r: UserMessageAction,
)
    requires
        before.selected_index < before.messages.len(),
        messages_responded(before, after, keys, r),
    ensures
        after.messages == before.messages,
        ({
            let from = before.selected_index as int;
            let to = after.selected_index as int;
            let len = before.messages.len() as int;
            if keys.has("tui.select.up"@) {
                r is Nothing && to == if from > 0 {
                    from - 1
                } else {
                    len - 1
                }
            } else if keys.has("tui.select.down"@) {
                r is Nothing && to == if from + 1 < len {
                    from + 1
                } else {
                    0
                }
            } else {
                &&& to == from
                &&& (r is Select) == keys.has("tui.select.confirm"@)
                &&& (r is Cancel) == (keys.has("tui.select.cancel"@) && !keys.has(
                    "tui.select.confirm"@,
                ))
                &&& r matches UserMessageAction::Select(id) ==> id@ == before.messages[from].id@
            }
        }),
{
}

/// In the list of providers the arrows select the neighbours, up to the ends; confirming chooses the
/// provider at the selection, cancelling gives up, and any other key goes to the search.
pub proof fn arrows_select_the_next_provider(
    before: OAuthSelector,
    after: OAuthSelector,
    keys: KeyMatches,
    r: OAuthAction,
)
    requires
        before.selected < before.filtered.len(),
        providers_responded(before, after, keys, r),
    ensures
        after.filtered == before.filtered,
        after.providers == before.providers,
        ({
            let from = before.selected as int;
            let to = after.selected as int;
            let len = before.filtered.len() as int;
            if keys.has("tui.select.up"@) {
                r is Nothing && to == if from > 0 {
                    from - 1
                } else {
                    0
                }
            } else if keys.has("tui.select.down"@) {
                r is Nothing && to == if from + 1 < len {
                    from + 1
                } else {
                    from
                }
            } else if keys.has("tui.select.confirm"@) {
                let provider = before.providers[before.filtered[from] as int];
                &&& to == from
                &&& r is Select
                &&& r matches OAuthAction::Select(id, auth_type) ==> id@ == provider.id@
                    && auth_type == provider.auth_type
            } else {
                to == from && (r is Cancel) == keys.has("tui.select.cancel"@) && (r is Search)
                    == !keys.has("tui.select.cancel"@)
            }
        }),
{
}

/// In the trust chooser the arrows, or `k` and `j`, select the neighbours, up to the ends; confirming
/// gives the decision of the choice at the selection.
pub proof fn arrows_select_the_next_choice(
    before: TrustSelectorComponent,
    after: TrustSelectorComponent,
    keys: KeyMatches,
    data: Seq<char>,
    r: TrustAction,
)
    requires
        before.selected < before.trust_options.len(),
        choices_responded(before, after, keys, data, r),
    ensures
        after.trust_options == before.trust_options,
        ({
            let from = before.selected as int;
            let to = after.selected as int;
            let len = before.trust_options.len() as int;
            if keys.has("tui.select.up"@) || data == "k"@ {
                r is Nothing && to == if from > 0 {
                    from - 1
                } else {
                    0
                }
            } else if keys.has("tui.select.down"@) || data == "j"@ {
                r is Nothing && to == if from + 1 < len {
                    from + 1
                } else {
                    from
                }
            } else if keys.has("tui.select.confirm"@) || data == "\n"@ {
                let choice = before.trust_options[from];
                &&& to == from
                &&& r is Select
                &&& r matches TrustAction::Select(selection) ==> selection.trusted == choice.trusted
                    && update_views(selection.updates@) == update_views(choice.updates@)
            } else {
                to == from && (r is Cancel) == keys.has("tui.select.cancel"@) && !(r is Select)
            }
        }),
{
}

/// In an extension's list the arrows, or `k` and `j`, select the neighbours, up to the ends; confirming
/// hands over the option at the selection.
pub proof fn arrows_select_the_next_option(
    list: ExtensionSelector,
    keys: KeyMatches,
    data: Seq<char>,
)
    requires
        list.selected < list.options.len(),
        !keys.has("app.tools.expand"@),
    ensures
        ({
            let from = list.selected as int;
            let len = list.options.len() as int;
            let (to, action) = list.pressed(keys, data);
            if keys.has("tui.select.up"@) || data == "k"@ {
                action == DialogActionView::Nothing && to == if from > 0 {
                    from - 1
                } else {
                    0
                }
            } else if keys.has("tui.select.down"@) || data == "j"@ {
                action == DialogActionView::Nothing && to == if from + 1 < len {
                    from + 1
                } else {
                    from
                }
            } else if keys.has("tui.select.confirm"@) || data == "\n"@ {
                to == from && action == DialogActionView::Submit(list.options[from]@)
            } else {
                to == from && (action == DialogActionView::Cancel) == keys.has("tui.select.cancel"@)
                    && !(action is Submit)
            }
        }),
{
}

/// The label of the row that is selected in the first setup.
pub open spec fn selected_label(setup: FirstTimeSetup) -> Seq<char> {
    let labels = step_labels(setup.step);
    let at = match setup.step {
        SetupStep::Theme => setup.theme_index,
        SetupStep::Analytics => setup.analytics_index,
    };
    if at == 0 {
        labels.0
    } else {
        labels.1
    }
}

/// In the first setup the up key selects the first row and the down key the second. What is submitted
/// is what the selected rows say: the theme of the first step, and whether usage data is shared.
pub proof fn setup_gives_what_its_rows_say(
    before: FirstTimeSetup,
    after: FirstTimeSetup,
    keys: KeyMatches,
    data: Seq<char>,
    r: SetupAction,
)
    requires
        before.wf(),
        setup_responded(before, after, keys, data, r),
    ensures
        ({
            let up = keys.has("tui.select.up"@) || data == "k"@;
            let down = !up && (keys.has("tui.select.down"@) || data == "j"@);
            &&& up ==> after.step == before.step && selected_label(after) == step_labels(
                before.step,
            ).0
            &&& down ==> after.step == before.step && selected_label(after) == step_labels(
                before.step,
            ).1
            &&& r is Submit ==> before.step == SetupStep::Analytics && !up && !down
            &&& r matches SetupAction::Submit(result) ==> {
                &&& result.share_analytics == (selected_label(before)
                    == "Share anonymous usage data"@)
                &&& (result.theme == TerminalTheme::Dark) == (selected_label(
                    FirstTimeSetup { step: SetupStep::Theme, ..before },
                ) == "Dark"@)
            }
            &&& r matches SetupAction::Preview(theme) ==> (theme == TerminalTheme::Dark) == (
            selected_label(after) == "Dark"@)
            &&& r is Preview ==> selected_label(after) != selected_label(before)
            &&& r matches SetupAction::Cancel(theme) ==> theme == before.original_theme
            &&& (keys.has("tui.select.confirm"@) && !up && !down && before.step == SetupStep::Theme)
                ==> after.step == SetupStep::Analytics && after.theme_index == before.theme_index
        }),
{
    reveal_strlit("Dark");
    reveal_strlit("Light");
    reveal_strlit("Share anonymous usage data");
    reveal_strlit("Don't share");
    assert("Dark"@.len() == 4 && "Light"@.len() == 5 && "Share anonymous usage data"@.len() == 26
        && "Don't share"@.len() == 11);
}

/// Whether a key press matches none of the keys that the session list has besides moving, choosing and
/// cancelling.
pub open spec fn is_plain_press(key: KeyMatches) -> bool {
    &&& !key.has("tui.input.tab"@)
    &&& !key.has("app.session.toggleSort"@)
    &&& !key.has("app.session.toggleNamedFilter"@)
    &&& !key.has("app.session.togglePath"@)
    &&& !key.has("app.session.delete"@)
    &&& !key.has("app.session.rename"@)
    &&& !key.has("app.session.deleteNoninvasive"@)
}

/// In the list of sessions the arrows select the neighbours and the page keys move by ten, up to the
/// ends; confirming chooses the session at the selection and cancelling gives up.
pub proof fn arrows_select_the_next_session(
    before: SessionList,
    after: SessionList,
    key: KeyMatches,
)
    requires
        before.selected_index < before.filtered_sessions@.len(),
        before.confirming_delete_path is None,
        before.events@.len() == 0,
        is_plain_press(key),
        list_reacted(before, after, key),
    ensures
        after.filtered_sessions == before.filtered_sessions,
        after.confirming_delete_path is None,
        ({
            let from = before.selected_index as int;
            let to = after.selected_index as int;
            let len = before.filtered_sessions@.len() as int;
            let events = event_views(after.events@);
            if key.has("tui.select.up"@) {
                events.len() == 0 && to == if from > 0 {
                    from - 1
                } else {
                    0
                }
            } else if key.has("tui.select.down"@) {
                events.len() == 0 && to == if from + 1 < len {
                    from + 1
                } else {
                    from
                }
            } else if key.has("tui.select.pageUp"@) {
                events.len() == 0 && to == if from >= 10 {
                    from - 10
                } else {
                    0
                }
            } else if key.has("tui.select.pageDown"@) {
                events.len() == 0 && to == if from + 10 < len {
                    from + 10
                } else {
                    len - 1
                }
            } else if key.has("tui.select.confirm"@) {
                to == from && events == seq![
                    EventView::Select(before.filtered_sessions@[from].session.path@),
                ]
            } else if key.has("tui.select.cancel"@) {
                to == from && events == seq![EventView::Cancel]
            } else {
                to == from && events.len() == 0
            }
        }),
{
    assert(event_views(before.events@) =~= Seq::empty());
    assert(event_views(after.events@) =~= before.events_of(before.action_for(key)));
}

/// Each of the other keys of the session list raises its own event and leaves the selection: switching
/// between the folder and all sessions, the order, the named ones, the paths, and renaming.
pub proof fn session_keys_raise_their_events(
    before: SessionList,
    after: SessionList,
    key: KeyMatches,
    event: EventView,
)
    requires
        before.selected_index < before.filtered_sessions@.len(),
        before.confirming_delete_path is None,
        before.events@.len() == 0,
        list_reacted(before, after, key),
        event_views(after.events@).contains(event),
    ensures
        event is ToggleScope ==> key.has("tui.input.tab"@),
        event is ToggleSort ==> key.has("app.session.toggleSort"@),
        event is ToggleNameFilter ==> key.has("app.session.toggleNamedFilter"@),
        event is TogglePath ==> key.has("app.session.togglePath"@) && event == EventView::TogglePath(
            after.show_path,
        ) && after.show_path != before.show_path,
        event matches EventView::RenameSession(path) ==> key.has("app.session.rename"@) && path
            == before.filtered_sessions@[before.selected_index as int].session.path@,
        event matches EventView::Select(path) ==> key.has("tui.select.confirm"@) && path
            == before.filtered_sessions@[before.selected_index as int].session.path@,
        event is Cancel ==> key.has("tui.select.cancel"@),
        !(event is DeleteSession),
        event matches EventView::DeleteConfirmationChange(path) ==> (key.has("app.session.delete"@)
            || key.has("app.session.deleteNoninvasive"@)) && path == Some(
            before.filtered_sessions@[before.selected_index as int].session.path@,
        ),
        after.selected_index == before.selected_index,
{
    assert(event_views(before.events@) =~= Seq::empty());
    assert(event_views(after.events@) =~= before.events_of(before.action_for(key)));
}

/// The other keys of the session list are not without effect: pressed alone, each raises an event.
pub proof fn session_keys_have_effect(before: SessionList, after: SessionList, key: KeyMatches)
    requires
        before.selected_index < before.filtered_sessions@.len(),
        before.confirming_delete_path is None,
        before.events@.len() == 0,
        list_reacted(before, after, key),
    ensures
        key.has("tui.input.tab"@) ==> event_views(after.events@) == seq![EventView::ToggleScope],
        key.has("app.session.toggleSort"@) && !key.has("tui.input.tab"@) ==> event_views(
            after.events@,
        ) == seq![EventView::ToggleSort],
        !is_plain_press(key) && !key.has("app.session.deleteNoninvasive"@) ==> event_views(
            after.events@,
        ).len() == 1,
        key.has("app.session.deleteNoninvasive"@) && before.query@.len() == 0 ==> event_views(
            after.events@,
        ).len() == 1,
{
    assert(event_views(before.events@) =~= Seq::empty());
    assert(event_views(after.events@) =~= before.events_of(before.action_for(key)));
}

/// While a deletion waits for confirmation, confirming deletes that session and no other, cancelling
/// deletes none, and no other key counts.
pub proof fn deletions_wait_for_confirmation(
    before: SessionList,
    after: SessionList,
    key: KeyMatches,
    path: Seq<char>,
)
    requires
        before.confirming_delete_path matches Some(waiting) && waiting@ == path,
        before.events@.len() == 0,
        list_reacted(before, after, key),
    ensures
        after.selected_index == before.selected_index,
        key.has("tui.select.confirm"@) ==> event_views(after.events@).contains(
            EventView::DeleteSession(path),
        ) && after.confirming_delete_path is None,
        !key.has("tui.select.confirm"@) ==> forall|other: Seq<char>|
            !(#[trigger] event_views(after.events@).contains(EventView::DeleteSession(other))),
        !key.has("tui.select.confirm"@) && key.has("tui.select.cancel"@)
            ==> after.confirming_delete_path is None,
        !key.has("tui.select.confirm"@) && !key.has("tui.select.cancel"@) ==> after.events@.len() == 0
            && after.confirming_delete_path is Some && after.confirming_delete_path->0@ == path,
        forall|other: Seq<char>|
            #[trigger] event_views(after.events@).contains(EventView::DeleteSession(other)) ==> other
                == path,
{
    assert(event_views(before.events@) =~= Seq::empty());
    let events = event_views(after.events@);
    assert(events =~= before.events_of(before.action_for(key)));
    if key.has("tui.select.confirm"@) {
        assert(events[1] == EventView::DeleteSession(path));
    }
    assert(event_views(after.events@).len() == after.events@.len());
}

} // verus!
