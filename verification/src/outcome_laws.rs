//! What things lead to: loading, deleting and renaming sessions, logging in, labelling entries, and
//! stepping through the branches of the tree.

use crate::assistant_message::{AssistantMessageComponent, MessagePart};
use crate::config_list::ConfigRequest;
use crate::config_view::{selector_responded, ConfigSelectorComponent};
use crate::countdown_timer::{timer_ticked, CountdownStep, CountdownTimer};
use crate::keybinding_hints::KeyMatches;
use crate::login_dialog::{login_responded, LoginAction, LoginView};
use crate::session::SessionInfo;
use crate::session_selector::{relisted, SessionScope};
use crate::session_selector_component::{
    deleted, is_unlink_result, loaded, or_empty, rename_confirmed, trash_complaint, without_path,
    DeleteMethod, DeleteResult, LoadReason, SessionSelectorComponent, TrashOutcome,
};
use crate::text::trim;
use crate::tree_arena::ArenaNode;
use crate::tree_component::{label_answered, LabelAction};
use crate::tree_navigation::{position_or, segment_down, segment_up};
use crate::tree_selector::{shown_parent, shown_under};
use vstd::prelude::*;
use vstd::string::*;

verus! {

broadcast use vstd::string::group_string_axioms;

/// Loaded sessions are kept for their scope and listed, and the other scope keeps its own. The folders
/// are shown where the sessions of all of them are listed.
pub proof fn loaded_sessions_are_listed(
    before: SessionSelectorComponent,
    after: SessionSelectorComponent,
    scope: SessionScope,
    reason: LoadReason,
    sessions: Vec<SessionInfo>,
    fuzzy: Seq<Vec<Option<i64>>>,
    now_ms: u64,
)
    requires
        loaded(before, after, scope, reason, Ok(sessions), fuzzy, now_ms),
    ensures
        after.session_list.all_sessions@ == sessions@,
        after.session_list.show_cwd == (scope == SessionScope::All),
        after.session_list.query == before.session_list.query,
        after.session_list.sort_mode == before.session_list.sort_mode,
        !after.header.loading,
        after.header.status_message == before.header.status_message,
        after.scope == before.scope,
        scope == SessionScope::Current ==> after.current_sessions is Some
            && after.current_sessions->0@ == sessions@ && after.all_sessions == before.all_sessions
            && !after.current_loading && after.all_loading == before.all_loading,
        scope == SessionScope::All ==> after.all_sessions is Some && after.all_sessions->0@
            == sessions@ && after.current_sessions == before.current_sessions && !after.all_loading
            && after.current_loading == before.current_loading,
{
    reveal(relisted);
}

/// Sessions that cannot be loaded are reported as an error with its cause. What was loaded before
/// stays; only the first load leaves an empty list.
pub proof fn failed_loads_are_reported(
    before: SessionSelectorComponent,
    after: SessionSelectorComponent,
    scope: SessionScope,
    reason: LoadReason,
    message: String,
    fuzzy: Seq<Vec<Option<i64>>>,
    now_ms: u64,
)
    requires
        loaded(before, after, scope, reason, Err(message), fuzzy, now_ms),
    ensures
        after.header.status_message is Some,
        after.header.status_message->0.is_error,
        message@.is_suffix_of(after.header.status_message->0.message@),
        after.header.status_deadline is Some && after.header.status_deadline->0 >= now_ms,
        !after.header.loading,
        after.current_sessions == before.current_sessions,
        after.all_sessions == before.all_sessions,
        reason == LoadReason::Initial ==> after.session_list.all_sessions@.len() == 0,
        reason != LoadReason::Initial ==> after.session_list == before.session_list,
{
    let text = after.header.status_message->0.message@;
    assert(text.skip(text.len() - message@.len()) =~= message@);
}

proof fn lemma_kept(sessions: Seq<SessionInfo>, path: Seq<char>, s: SessionInfo)
    ensures
        without_path(sessions, path).contains(s) <==> sessions.contains(s) && s.path@ != path,
    decreases sessions.len(),
{
    reveal(Seq::filter);
    let kept = without_path(sessions, path);
    if sessions.len() > 0 {
        let shorter = sessions.drop_last();
        let before = without_path(shorter, path);
        let last = sessions.last();
        lemma_kept(shorter, path, s);
        assert(kept == if last.path@ != path {
            before.push(last)
        } else {
            before
        });
        if kept.contains(s) {
            let k = choose|k: int| 0 <= k < kept.len() && kept[k] == s;
            if k < before.len() {
                assert(before[k] == s);
                let i = choose|i: int| 0 <= i < shorter.len() && shorter[i] == s;
                assert(sessions[i] == s);
            } else {
                assert(sessions[sessions.len() - 1] == s);
            }
        }
        if sessions.contains(s) && s.path@ != path {
            let i = choose|i: int| 0 <= i < sessions.len() && sessions[i] == s;
            if i < shorter.len() {
                assert(shorter[i] == s);
                let k = choose|k: int| 0 <= k < before.len() && before[k] == s;
                assert(kept[k] == s);
            } else {
                assert(kept[kept.len() - 1] == s);
            }
        }
    }
}

/// A deleted session is gone from the list and from what was loaded of both scopes, and every other
/// session is still there. The header tells whether it can be taken back from the trash.
pub proof fn deleted_sessions_are_gone(
    before: SessionSelectorComponent,
    after: SessionSelectorComponent,
    path: Seq<char>,
    result: DeleteResult,
    fuzzy: Seq<Vec<Option<i64>>>,
    now_ms: u64,
    s: SessionInfo,
)
    requires
        deleted(before, after, path, result, fuzzy, now_ms),
        result.ok,
    ensures
        or_empty(after.current_sessions).contains(s) <==> or_empty(before.current_sessions).contains(s)
            && s.path@ != path,
        or_empty(after.all_sessions).contains(s) <==> or_empty(before.all_sessions).contains(s)
            && s.path@ != path,
        after.session_list.all_sessions@.contains(s) ==> s.path@ != path,
        before.scope == SessionScope::All ==> after.session_list.all_sessions@ == or_empty(
            after.all_sessions,
        ),
        before.scope == SessionScope::Current ==> after.session_list.all_sessions@ == or_empty(
            after.current_sessions,
        ),
        after.header.status_message is Some,
        !after.header.status_message->0.is_error,
        after.header.status_message->0.message@ == if result.method == DeleteMethod::Trash {
            "Session moved to trash"@
        } else {
            "Session deleted"@
        },
{
    lemma_kept(or_empty(before.current_sessions), path, s);
    lemma_kept(or_empty(before.all_sessions), path, s);
}

/// A session that could not be deleted stays where it is, and the header tells why.
pub proof fn failed_deletions_change_nothing(
    before: SessionSelectorComponent,
    after: SessionSelectorComponent,
    path: Seq<char>,
    result: DeleteResult,
    fuzzy: Seq<Vec<Option<i64>>>,
    now_ms: u64,
)
    requires
        deleted(before, after, path, result, fuzzy, now_ms),
        !result.ok,
    ensures
        after == before.with_header(after.header),
        after.header.status_message is Some,
        after.header.status_message->0.is_error,
        result.error matches Some(error) ==> error@.is_suffix_of(
            after.header.status_message->0.message@,
        ),
{
    let text = after.header.status_message->0.message@;
    if let Some(error) = result.error {
        assert(text.skip(text.len() - error@.len()) =~= error@);
    }
}

/// Removing a file succeeds where there is no error, and a failure is told with its cause first.
pub proof fn failed_removals_tell_their_cause(
    cause: Option<String>,
    outcome: TrashOutcome,
    r: DeleteResult,
)
    requires
        is_unlink_result(cause, outcome, r),
    ensures
        r.ok == cause is None,
        r.error is Some == cause is Some,
        cause is Some ==> cause->0@.is_prefix_of(r.error->0@),
        cause is Some && trash_complaint(outcome) is None ==> r.error->0@ == cause->0@,
{
}

/// A session is renamed to what was typed, without the space around it; a blank name is not taken, and
/// the input stays.
pub proof fn names_are_given_as_typed(
    before: SessionSelectorComponent,
    after: SessionSelectorComponent,
    value: Seq<char>,
    r: Option<(String, String)>,
)
    requires
        rename_confirmed(before, after, value, r),
        before.can_rename,
        before.rename_target_path is Some,
    ensures
        after == before,
        r is Some == (trim(value).len() > 0),
        r matches Some((path, name)) ==> path == before.rename_target_path->0 && name@ == trim(value),
{
}

/// Cancelling a login fails it, but once only; confirming hands over what was typed and hides the input;
/// other keys are typed.
pub proof fn logins_are_submitted_or_cancelled(
    before: LoginView,
    after: LoginView,
    keys: KeyMatches,
    data: Seq<char>,
    r: LoginAction,
)
    requires
        login_responded(before, after, keys, data, r),
        data != "\n"@,
    ensures
        r is Fail == (keys.has("tui.select.cancel"@) && !before.cancelled),
        keys.has("tui.select.cancel"@) ==> after.cancelled && after.input == before.input,
        !keys.has("tui.select.cancel"@) ==> after.cancelled == before.cancelled,
        r is Submit == (!keys.has("tui.select.cancel"@) && before.input_visible && keys.has(
            "tui.select.confirm"@,
        )),
        r is Submit ==> r->Submit_0@ == before.input && !after.input_visible,
        r is Edit ==> before.input_visible && after == before,
        after.title == before.title,
        after.content.len() == before.content.len() + if r is Submit {
            1int
        } else {
            0
        },
{
}

/// Confirming a label sets what was typed on the entry, without the space around it; a blank one takes
/// the label away.
pub proof fn labels_are_what_was_typed(
    entry_id: Seq<char>,
    key: KeyMatches,
    value: Seq<char>,
    r: LabelAction,
)
    requires
        label_answered(entry_id, key, value, r),
    ensures
        r is Submit == key.has("tui.select.confirm"@),
        r is Submit ==> r->id@ == entry_id && r->label is Some == (trim(value).len() > 0),
        r is Submit && r->label is Some ==> r->label->0@ == trim(value),
        r is Cancel == (key.has("tui.select.cancel"@) && !key.has("tui.select.confirm"@)),
{
}

/// The tab key changes between the settings of the user and of the project, if there is one; no other
/// key does.
pub proof fn only_tab_changes_the_settings_written(
    before: ConfigSelectorComponent,
    after: ConfigSelectorComponent,
    key: KeyMatches,
    data: Seq<char>,
    request: ConfigRequest,
    redraw: bool,
)
    requires
        selector_responded(before, after, key, data, request, redraw),
        !key.has("tui.select.up"@),
        !key.has("tui.select.down"@),
        !key.has("tui.select.pageUp"@),
        !key.has("tui.select.pageDown"@),
        !key.has("tui.select.cancel"@),
        !key.has("ctrl+c"@),
    ensures
        after.project_mode_available == before.project_mode_available,
        !key.has("tui.input.tab"@) || !before.project_mode_available ==> after.write_scope
            == before.write_scope,
        key.has("tui.input.tab"@) && before.project_mode_available ==> after.write_scope
            != before.write_scope && after.resource_list.write_scope == after.write_scope && redraw,
        key.has("tui.input.tab"@) ==> request == ConfigRequest::Nothing,
{
}

/// A timer expires in one step only, at its deadline or later, and tells the seconds that are left
/// whenever they have changed.
pub proof fn timers_expire_once(
    first: CountdownTimer,
    second: CountdownTimer,
    third: CountdownTimer,
    now_ms: u64,
    later_ms: u64,
    r: CountdownStep,
    s: CountdownStep,
)
    requires
        timer_ticked(first, second, now_ms, r),
        timer_ticked(second, third, later_ms, s),
    ensures
        r.done == (now_ms >= first.deadline_ms),
        r.expire ==> r.done && !first.expired && !s.expire,
        r.done && !first.expired ==> r.expire,
        r.tick is None ==> second.last_seconds == first.last_seconds,
        r.tick matches Some(seconds) ==> seconds == second.last_seconds && seconds
            != first.last_seconds,
        now_ms == later_ms ==> s.tick is None,
{
}

/// Going down a branch leads through entries with one reply, to the first reply of the next entry with
/// several, or to the end.
pub proof fn branches_are_followed_down_to_a_fork(
    arena: Seq<ArenaNode>,
    keys: Seq<usize>,
    selected: int,
    k: usize,
    steps: nat,
)
    requires
        steps > 0,
    ensures
        ({
            let replies = shown_under(arena, keys, Some(k), keys.len());
            let to = segment_down(arena, keys, selected, k, steps);
            &&& replies.len() == 0 ==> to == position_or(keys, k, selected)
            &&& replies.len() == 1 ==> to == segment_down(
                arena,
                keys,
                selected,
                replies[0],
                (steps - 1) as nat,
            )
            &&& replies.len() > 1 ==> to == position_or(keys, replies[0], selected)
        }),
{
}

/// Going up a branch leads through entries that are the only reply to theirs, to the next one above that
/// has siblings, or to the root.
pub proof fn branches_are_followed_up_to_their_start(
    arena: Seq<ArenaNode>,
    keys: Seq<usize>,
    selected: int,
    k: usize,
    steps: nat,
)
    requires
        steps > 0,
    ensures
        ({
            let to = segment_up(arena, keys, selected, k, steps);
            let place = position_or(keys, k, selected);
            &&& shown_parent(arena, keys, k) is None ==> to == place
            &&& shown_parent(arena, keys, k) matches Some(p) ==> {
                let siblings = shown_under(arena, keys, Some(p), keys.len()).len();
                let above = segment_up(arena, keys, selected, p, (steps - 1) as nat);
                &&& siblings > 1 && place < selected ==> to == place
                &&& siblings <= 1 || place >= selected ==> to == above
            }
        }),
{
}

proof fn lemma_text_is_shown(
    component: AssistantMessageComponent,
    content: Seq<MessagePart>,
    i: int,
    n: nat,
)
    requires
        0 <= i < n <= content.len(),
        content[i] is Text,
        content[i]->Text_0@.len() > 0,
    ensures
        exists|k: int|
            0 <= k < component.content_pieces(content, n).len() && (
            #[trigger] component.content_pieces(content, n)[k]) is Markdown
                && component.content_pieces(content, n)[k]->Markdown_text == content[i]->Text_0@,
    decreases n,
{
    let before = component.content_pieces(content, (n - 1) as nat);
    let all = component.content_pieces(content, n);
    if i < n - 1 {
        lemma_text_is_shown(component, content, i, (n - 1) as nat);
        let k = choose|k: int|
            0 <= k < before.len() && (#[trigger] before[k]) is Markdown && before[k]->Markdown_text
                == content[i]->Text_0@;
        assert(all[k] == before[k]);
    } else {
        let k = before.len() as int;
        assert(all[k] == component.part_pieces(content, i)[0]);
        assert(all[k] is Markdown);
    }
}

/// Every text of a response is shown in it.
pub proof fn responses_show_their_texts(component: AssistantMessageComponent, i: int)
    requires
        component.message is Some,
        0 <= i < component.message->0.content@.len(),
        component.message->0.content@[i] is Text,
        component.message->0.content@[i]->Text_0@.len() > 0,
    ensures
        exists|k: int|
            0 <= k < component.block().len() && (#[trigger] component.block()[k]) is Markdown
                && component.block()[k]->Markdown_text
                == component.message->0.content@[i]->Text_0@,
{
    let content = component.message->0.content@;
    let pieces = component.content_pieces(content, content.len());
    lemma_text_is_shown(component, content, i, content.len());
    let k = choose|k: int|
        0 <= k < pieces.len() && (#[trigger] pieces[k]) is Markdown && pieces[k]->Markdown_text
            == content[i]->Text_0@;
    let above = if crate::assistant_message::any_shown(content, 0) {
        1int
    } else {
        0
    };
    assert(component.block()[above + k] == pieces[k]);
}

} // verus!
