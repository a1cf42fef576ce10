//! What the session selector asks for and shows: which sessions stay listed, under which session a fork
//! stands, and what a phrase finds.

use crate::session::{CanonicalPaths, SessionInfo};
use crate::session_rows::{display_text, right_text};
use crate::session_selector::{
    relisted, session_age, shortened_path, SessionListEvent, SessionScope,
};
use crate::session_selector_component::{
    handled, or_empty, without_path, SelectorMode, SelectorRequest, SessionSelectorComponent,
};
use crate::session_selector_search::{
    normalized, passes_name_filter, token_score, NameFilter, SortMode, TokenKind, TokenView,
};
use crate::session_tree::{last_at_path, session_links};
use crate::text::{decimal, is_blank, lemma_find_from, occurs_at};
use vstd::prelude::*;

verus! {

/// Each request is for what its event is about: choosing and deleting name the session of the event,
/// and nothing else deletes, chooses or gives up.
pub proof fn requests_are_for_their_events(
    before: SessionSelectorComponent,
    after: SessionSelectorComponent,
    event: SessionListEvent,
    fuzzy: Seq<Vec<Option<i64>>>,
    now_ms: u64,
    request: SelectorRequest,
)
    requires
        handled(before, after, event, fuzzy, now_ms, request),
    ensures
        event matches SessionListEvent::Select(path) ==> request == SelectorRequest::Select(path),
        request is Select ==> event is Select,
        event matches SessionListEvent::DeleteSession(path) ==> request == SelectorRequest::Delete(
            path,
        ),
        request is Delete ==> event is DeleteSession,
        (event is Cancel) == (request is Cancel),
        request is EditName ==> event is RenameSession && after.mode == SelectorMode::Rename,
        request is LoadAll ==> event is ToggleScope && after.scope == SessionScope::All,
        after.current_sessions == before.current_sessions,
        after.all_sessions == before.all_sessions,
        event matches SessionListEvent::RenameSession(path) ==> before.can_rename
            && !before.current_loading && !before.all_loading ==> {
            &&& request is EditName
            &&& after.rename_target_path is Some
            &&& after.rename_target_path->0@ == path@
        },
        event matches SessionListEvent::DeleteConfirmationChange(path)
            ==> after.header.confirming_delete_path == path,
        event matches SessionListEvent::TogglePath(show) ==> after.header.show_path == show,
{
}

/// The sort key goes from threads on to the most recent and to the most relevant sessions, and around;
/// the name key shows named sessions only, and all of them again. The header, the list and the selector
/// agree.
pub proof fn toggles_change_what_they_are_for(
    before: SessionSelectorComponent,
    after: SessionSelectorComponent,
    event: SessionListEvent,
    fuzzy: Seq<Vec<Option<i64>>>,
    now_ms: u64,
    request: SelectorRequest,
)
    requires
        handled(before, after, event, fuzzy, now_ms, request),
    ensures
        event is ToggleSort ==> {
            &&& (before.sort_mode == SortMode::Threaded) == (after.sort_mode == SortMode::Recent)
            &&& (before.sort_mode == SortMode::Recent) == (after.sort_mode == SortMode::Relevance)
            &&& after.header.sort_mode == after.sort_mode
            &&& after.session_list.sort_mode == after.sort_mode
            &&& after.name_filter == before.name_filter
        },
        event is ToggleNameFilter ==> {
            &&& after.name_filter != before.name_filter
            &&& after.header.name_filter == after.name_filter
            &&& after.session_list.name_filter == after.name_filter
            &&& after.sort_mode == before.sort_mode
        },
        !(event is ToggleSort) ==> after.sort_mode == before.sort_mode,
        !(event is ToggleNameFilter) ==> after.name_filter == before.name_filter,
        (event is ToggleScope) == (after.scope != before.scope),
        event is ToggleScope ==> after.header.scope == after.scope,
        event is ToggleScope && after.scope == SessionScope::Current
            ==> after.session_list.all_sessions@ == or_empty(before.current_sessions),
        event is ToggleScope && after.scope == SessionScope::All && before.all_sessions is Some
            ==> after.session_list.all_sessions@ == or_empty(before.all_sessions),
{
    reveal(relisted);
}

/// Deleting a file leaves every session of another file, and none of that one.
pub proof fn deleting_leaves_other_files(
    sessions: Seq<SessionInfo>,
    path: Seq<char>,
    session: SessionInfo,
)
    ensures
        without_path(sessions, path).contains(session) <==> sessions.contains(session)
            && session.path@ != path,
    decreases sessions.len(),
{
    reveal(Seq::filter);
    if sessions.len() > 0 {
        let rest = sessions.drop_last();
        let last = sessions.last();
        deleting_leaves_other_files(rest, path, session);
        let before = without_path(rest, path);
        let kept = without_path(sessions, path);
        assert(sessions[sessions.len() - 1] == last);
        if sessions.contains(session) && session != last {
            assert(rest[sessions.index_of(session)] == session);
        }
        if rest.contains(session) {
            assert(sessions[rest.index_of(session)] == session);
        }
        if last.path@ != path {
            assert(kept == before.push(last));
            assert(kept[before.len() as int] == last);
            if before.contains(session) {
                assert(kept[before.index_of(session)] == session);
            }
            if kept.contains(session) {
                let k = kept.index_of(session);
                if k < before.len() {
                    assert(before[k] == session);
                }
            }
        } else {
            assert(kept == before);
        }
    }
}

/// With the name filter only sessions with a name other than spaces pass, without it all of them.
pub proof fn only_named_sessions_pass(session: SessionInfo)
    ensures
        passes_name_filter(session, NameFilter::All),
        passes_name_filter(session, NameFilter::Named) <==> session.name is Some && !is_blank(
            session.name->0@,
        ),
{
}

proof fn lemma_last_at_path(
    sessions: Seq<SessionInfo>,
    paths: CanonicalPaths,
    path: Seq<char>,
    n: nat,
)
    requires
        n <= sessions.len() <= usize::MAX,
    ensures
        match last_at_path(sessions, paths, path, n) {
            Some(i) => i < n && paths.canonical(sessions[i as int].path@) == path,
            None => forall|j: int|
                0 <= j < n ==> paths.canonical((#[trigger] sessions[j]).path@) != path,
        },
    decreases n,
{
    if n > 0 {
        lemma_last_at_path(sessions, paths, path, (n - 1) as nat);
    }
}

/// A fork stands under the session whose file it names as its parent, however the path is written, and
/// at the top if there is no such session.
pub proof fn forks_stand_under_their_parents(
    sessions: Seq<SessionInfo>,
    paths: CanonicalPaths,
    i: int,
)
    requires
        0 <= i < sessions.len() <= usize::MAX,
    ensures
        ({
            let link = session_links(sessions, paths)[i];
            &&& link.node < sessions.len()
            &&& paths.canonical(sessions[link.node as int].path@) == paths.canonical(
                sessions[i].path@,
            )
            &&& sessions[i].parent_session_path is None ==> link.parent is None
            &&& sessions[i].parent_session_path matches Some(parent) ==> match link.parent {
                Some(p) => p < sessions.len() && paths.canonical(sessions[p as int].path@)
                    == paths.canonical(parent@),
                None => forall|j: int|
                    0 <= j < sessions.len() ==> paths.canonical((#[trigger] sessions[j]).path@)
                        != paths.canonical(parent@),
            }
        }),
{
    let own = paths.canonical(sessions[i].path@);
    lemma_last_at_path(sessions, paths, own, sessions.len());
    if let Some(parent) = sessions[i].parent_session_path {
        lemma_last_at_path(sessions, paths, paths.canonical(parent@), sessions.len());
    }
}

/// A quoted phrase matches the sessions whose text holds it, with runs of spaces taken as one and in
/// any case of letters; a word matches where the fuzzy search finds it.
pub proof fn phrases_match_where_they_stand(
    text: Seq<char>,
    token: TokenView,
    fuzzy: Option<i64>,
)
    ensures
        token.kind == TokenKind::Phrase ==> (token_score(text, token, fuzzy) is Some <==> normalized(
            token.value,
        ).len() == 0 || exists|k: int|
            0 <= k <= normalized(text).len() - normalized(token.value).len() && #[trigger] occurs_at(
                normalized(text),
                normalized(token.value),
                k,
            )),
        token.kind == TokenKind::Fuzzy ==> (token_score(text, token, fuzzy) is Some) == (fuzzy is Some)
            && (fuzzy matches Some(score) ==> token_score(text, token, fuzzy) == Some(score as int)),
{
    lemma_find_from(normalized(text), normalized(token.value), 0);
}

/// A session is shown by its name, or else by its first message; its row ends with how many messages it
/// has and how long ago it was changed, after its folder and its file where those are shown.
pub proof fn rows_tell_of_their_sessions(
    session: SessionInfo,
    show_cwd: bool,
    show_path: bool,
    now_ms: int,
    home: Option<Seq<char>>,
)
    ensures
        session.name matches Some(name) ==> display_text(session) == name@,
        session.name is None ==> display_text(session) == session.first_message@,
        ({
            let right = right_text(session, show_cwd, show_path, now_ms, home);
            let tail = decimal(session.message_count as nat) + seq![' '] + session_age(
                now_ms - session.modified_ms,
            );
            let cwd = shortened_path(session.cwd@, home);
            let file = shortened_path(session.path@, home);
            &&& right.len() >= tail.len()
            &&& right.skip(right.len() - tail.len()) == tail
            &&& !show_cwd && !show_path ==> right == tail
            &&& show_path ==> file.is_prefix_of(right)
            &&& show_cwd && !show_path && session.cwd@.len() > 0 ==> cwd.is_prefix_of(right)
        }),
{
    let right = right_text(session, show_cwd, show_path, now_ms, home);
    let tail = decimal(session.message_count as nat) + seq![' '] + session_age(
        now_ms - session.modified_ms,
    );
    assert(right.skip(right.len() - tail.len()) =~= tail);
}

} // verus!
