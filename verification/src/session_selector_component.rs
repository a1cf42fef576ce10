//! The session selector as a whole: which scope is loaded and shown, renaming
//! and deleting sessions.

use crate::session::{CanonicalPaths, SessionInfo};
use crate::session_header::SessionSelectorHeader;
use crate::session_selector::{
    lemma_no_rows, relisted, SessionList, SessionListEvent, SessionScope, StatusMessage,
};
use crate::session_selector_search::{NameFilter, SortMode};
use crate::session_tree::flat_views;
use crate::text::{
    chars_of, index_of_char, position_of, push_text, str_eq, string_of, texts, trim, trim_slice,
    trim_str,
};
use vstd::prelude::*;
use vstd::slice::slice_subrange;
use vstd::string::*;

verus! {


/// How a session file was removed.
#[derive(Debug, Clone, Copy, PartialEq, Eq, Structural)]
pub enum DeleteMethod {
    Trash,
    Unlink,
}

/// The result of deleting a session file.
#[derive(Debug)]
pub struct DeleteResult {
    pub ok: bool,
    pub method: DeleteMethod,
    pub error: Option<String>,
}

/// What came of running the `trash` command.
#[derive(Debug)]
pub enum TrashOutcome {
    /// It could not be started, with the error's message.
    NotStarted(String),
    /// It ran.
    Ran { success: bool, stderr: String },
}

/// What to do once the `trash` command has run.
#[derive(Debug)]
pub enum AfterTrash {
    Done(DeleteResult),
    Unlink,
}

/// The arguments of the `trash` command: a path that looks like an option is set apart.
pub fn trash_arguments(path: &str) -> (r: Vec<String>)
    ensures
        texts(r@) == if path@.len() > 0 && path@[0] == '-' {
            seq!["--"@, path@]
        } else {
            seq![path@]
        },
{
    let chars = chars_of(path);
    let mut args: Vec<String> = Vec::new();
    if chars.len() > 0 && chars[0] == '-' {
        push_text(&mut args, "--".to_owned());
    }
    push_text(&mut args, path.to_owned());
    assert(texts(args@) =~= if path@.len() > 0 && path@[0] == '-' {
        seq!["--"@, path@]
    } else {
        seq![path@]
    });
    args
}

/// The file counts as deleted when the `trash` command succeeded or the file is gone; otherwise it
/// is unlinked.
pub fn after_trash(outcome: &TrashOutcome, file_exists: bool) -> (r: AfterTrash)
    ensures
        if (outcome is Ran && outcome->success) || !file_exists {
            r == AfterTrash::Done(
                DeleteResult { ok: true, method: DeleteMethod::Trash, error: None },
            )
        } else {
            r is Unlink
        },
{
    let succeeded = match outcome {
        TrashOutcome::Ran { success, .. } => *success,
        TrashOutcome::NotStarted(_) => false,
    };
    if succeeded || !file_exists {
        AfterTrash::Done(DeleteResult { ok: true, method: DeleteMethod::Trash, error: None })
    } else {
        AfterTrash::Unlink
    }
}

/// The first line of a text, without its line ending.
pub open spec fn first_line(s: Seq<char>) -> Seq<char> {
    let line = s.take(index_of_char(s, '\n') as int);
    if index_of_char(s, '\n') < s.len() && line.len() > 0 && line.last() == '\r' {
        line.drop_last()
    } else {
        line
    }
}

/// What the `trash` command had to say: the error with which it failed to start, or the first line
/// of its error output.
pub open spec fn trash_complaint(outcome: TrashOutcome) -> Option<Seq<char>> {
    match outcome {
        TrashOutcome::NotStarted(message) => Some(message@),
        TrashOutcome::Ran { stderr, .. } => if trim(stderr@).len() == 0 {
            None
        } else {
            Some(first_line(trim(stderr@)))
        },
    }
}

/// The text cut to `n` characters.
pub open spec fn cut(s: Seq<char>, n: int) -> Seq<char> {
    if s.len() <= n {
        s
    } else {
        s.take(n)
    }
}

/// The longest hint about the `trash` command, in characters.
pub const MAX_TRASH_HINT: usize = 207;

/// The hint about the `trash` command, if it had anything to say.
pub fn trash_error_hint(outcome: &TrashOutcome) -> (r: Option<String>)
    ensures
        match r {
            Some(hint) => trash_complaint(*outcome) is Some && hint@ == cut(
                "trash: "@ + trash_complaint(*outcome)->0,
                MAX_TRASH_HINT as int,
            ),
            None => trash_complaint(*outcome) is None,
        },
{
    let complaint: String = match outcome {
        TrashOutcome::NotStarted(message) => message.clone(),
        TrashOutcome::Ran { stderr, .. } => {
            let chars = chars_of(stderr.as_str());
            let trimmed = trim_slice(chars.as_slice());
            if trimmed.len() == 0 {
                return None;
            }
            assert(trimmed@.skip(0) =~= trimmed@);
            let end = position_of(trimmed, 0, '\n');
            let line = slice_subrange(trimmed, 0, end);
            assert(line@ =~= trimmed@.take(end as int));
            if end < trimmed.len() && line.len() > 0 && line[line.len() - 1] == '\r' {
                let short = slice_subrange(line, 0, line.len() - 1);
                assert(short@ =~= line@.drop_last());
                string_of(short)
            } else {
                string_of(line)
            }
        },
    };
    let hint = "trash: ".to_owned().concat(complaint.as_str());
    let chars = chars_of(hint.as_str());
    if chars.len() <= MAX_TRASH_HINT {
        return Some(hint);
    }
    let short = slice_subrange(chars.as_slice(), 0, MAX_TRASH_HINT);
    assert(short@ =~= hint@.take(MAX_TRASH_HINT as int));
    Some(string_of(short))
}

/// The result of unlinking the file after the `trash` command did not remove it.
pub fn after_unlink(unlink_error: Option<String>, outcome: &TrashOutcome) -> (r: DeleteResult)
    ensures
        is_unlink_result(unlink_error, *outcome, r),
{
    match unlink_error {
        None => DeleteResult { ok: true, method: DeleteMethod::Unlink, error: None },
        Some(cause) => {
            let error = match trash_error_hint(outcome) {
                Some(hint) => cause.concat(" (").concat(hint.as_str()).concat(")"),
                None => cause,
            };
            DeleteResult { ok: false, method: DeleteMethod::Unlink, error: Some(error) }
        },
    }
}

/// Whether the selector shows the list or edits a name.
#[derive(Debug, Clone, Copy, PartialEq, Eq, Structural)]
pub enum SelectorMode {
    List,
    Rename,
}

/// Why sessions are loaded.
#[derive(Debug, Clone, Copy, PartialEq, Eq, Structural)]
pub enum LoadReason {
    Initial,
    Refresh,
    Toggle,
}

/// What the selector asks of its owner.
#[derive(Debug, PartialEq, Eq)]
pub enum SelectorRequest {
    /// Nothing but to draw the selector again.
    Redraw,
    Select(String),
    Cancel,
    /// Load the sessions of all folders.
    LoadAll,
    Delete(String),
    /// Edit the name of the session at `rename_target_path`, starting from this value.
    EditName(String),
    Nothing,
}

/// The session selector.
#[derive(Debug)]
pub struct SessionSelectorComponent {
    pub can_rename: bool,
    pub session_list: SessionList,
    pub header: SessionSelectorHeader,
    pub scope: SessionScope,
    pub sort_mode: SortMode,
    pub name_filter: NameFilter,
    pub current_sessions: Option<Vec<SessionInfo>>,
    pub all_sessions: Option<Vec<SessionInfo>>,
    pub current_loading: bool,
    pub all_loading: bool,
    pub mode: SelectorMode,
    pub rename_target_path: Option<String>,
}

fn clone_sessions(sessions: &Vec<SessionInfo>) -> (r: Vec<SessionInfo>)
    ensures
        r@ == sessions@,
{
    let mut r: Vec<SessionInfo> = Vec::new();
    let mut i: usize = 0;
    while i < sessions.len()
        invariant
            i <= sessions.len(),
            r@ =~= sessions@.take(i as int),
        decreases sessions.len() - i,
    {
        r.push(sessions[i].clone());
        i = i + 1;
    }
    r
}

/// The sessions in files other than the given one.
pub open spec fn without_path(sessions: Seq<SessionInfo>, path: Seq<char>) -> Seq<SessionInfo> {
    sessions.filter(|s: SessionInfo| s.path@ != path)
}

fn remove_path(sessions: &Vec<SessionInfo>, path: &str) -> (r: Vec<SessionInfo>)
    ensures
        r@ == without_path(sessions@, path@),
{
    let mut r: Vec<SessionInfo> = Vec::new();
    let ghost keep = |s: SessionInfo| s.path@ != path@;
    let mut i: usize = 0;
    assert(without_path(sessions@.take(0), path@) =~= Seq::empty()) by {
        reveal(Seq::filter);
    }
    while i < sessions.len()
        invariant
            i <= sessions.len(),
            keep == (|s: SessionInfo| s.path@ != path@),
            r@ =~= without_path(sessions@.take(i as int), path@),
        decreases sessions.len() - i,
    {
        proof {
            sessions@.take(i as int).lemma_filter_push(sessions@[i as int], keep);
            assert(sessions@.take(i as int).push(sessions@[i as int]) =~= sessions@.take(
                i as int + 1,
            ));
        }
        if !str_eq(sessions[i].path.as_str(), path) {
            r.push(sessions[i].clone());
        }
        i = i + 1;
    }
    assert(sessions@.take(i as int) =~= sessions@);
    r
}

/// The contents of an optional list; empty when there is none.
pub open spec fn or_empty(sessions: Option<Vec<SessionInfo>>) -> Seq<SessionInfo> {
    match sessions {
        Some(sessions) => sessions@,
        None => Seq::empty(),
    }
}

/// The name of the first session in the given file, if it has one.
pub open spec fn name_at(sessions: Seq<SessionInfo>, path: Seq<char>) -> Seq<char>
    decreases sessions.len(),
{
    if sessions.len() == 0 {
        Seq::empty()
    } else if sessions[0].path@ == path {
        match sessions[0].name {
            Some(name) => name@,
            None => Seq::empty(),
        }
    } else {
        name_at(sessions.skip(1), path)
    }
}

fn find_name(sessions: &Vec<SessionInfo>, path: &str) -> (r: String)
    ensures
        r@ == name_at(sessions@, path@),
{
    let mut i: usize = 0;
    assert(sessions@.skip(0) =~= sessions@);
    while i < sessions.len()
        invariant
            i <= sessions.len(),
            name_at(sessions@, path@) == name_at(sessions@.skip(i as int), path@),
        decreases sessions.len() - i,
    {
        assert(sessions@.skip(i as int).skip(1) =~= sessions@.skip(i as int + 1));
        if str_eq(sessions[i].path.as_str(), path) {
            return match &sessions[i].name {
                Some(name) => name.clone(),
                None => String::new(),
            };
        }
        i = i + 1;
    }
    String::new()
}

/// The next sort mode in the cycle: threaded, recent, relevance.
pub open spec fn next_sort_mode(mode: SortMode) -> SortMode {
    match mode {
        SortMode::Threaded => SortMode::Recent,
        SortMode::Recent => SortMode::Relevance,
        SortMode::Relevance => SortMode::Threaded,
    }
}

/// The other name filter.
pub open spec fn other_name_filter(filter: NameFilter) -> NameFilter {
    match filter {
        NameFilter::All => NameFilter::Named,
        NameFilter::Named => NameFilter::All,
    }
}

/// Three presses of the sort key come back to the same sort mode, and two of the name filter key to
/// the same filter.
pub proof fn selector_toggles_cycle(mode: SortMode, filter: NameFilter)
    ensures
        next_sort_mode(next_sort_mode(next_sort_mode(mode))) == mode,
        next_sort_mode(mode) != mode,
        other_name_filter(other_name_filter(filter)) == filter,
        other_name_filter(filter) != filter,
{
}

/// How long the message about a failed load stays, in milliseconds.
pub const LOAD_ERROR_MS: u64 = 4000;

/// How long the message about a deletion stays, in milliseconds.
pub const DELETED_MS: u64 = 2000;

/// How long any other error stays, in milliseconds.
pub const ERROR_MS: u64 = 3000;

/// Whether the header shows the status until `hide_ms` after `now_ms`, and is otherwise `before`.
pub open spec fn shows_status(
    before: SessionSelectorHeader,
    after: SessionSelectorHeader,
    is_error: bool,
    message: Seq<char>,
    hide_ms: u64,
    now_ms: u64,
) -> bool {
    &&& after.status_message is Some
    &&& after.status_message->0.is_error == is_error
    &&& after.status_message->0.message@ == message
    &&& after == SessionSelectorHeader {
        status_message: after.status_message,
        status_deadline: Some(
            if now_ms + hide_ms <= u64::MAX {
                (now_ms + hide_ms) as u64
            } else {
                u64::MAX
            },
        ),
        ..before
    }
}

/// Whether `after` is `before` with the other scope shown, as far as its sessions are loaded.
pub open spec fn scope_toggled(
    before: SessionSelectorComponent,
    after: SessionSelectorComponent,
    fuzzy: Seq<Vec<Option<i64>>>,
) -> bool {
    &&& after.scope == if before.scope == SessionScope::Current {
        SessionScope::All
    } else {
        SessionScope::Current
    }
    &&& if after.scope == SessionScope::All && before.all_sessions is None {
        &&& after.session_list == before.session_list
        &&& after.header == SessionSelectorHeader { scope: SessionScope::All, ..before.header }
    } else {
        &&& after.session_list.all_sessions@ == after.scope_sessions()
        &&& relisted(
            SessionList {
                all_sessions: after.session_list.all_sessions,
                show_cwd: after.scope == SessionScope::All,
                ..before.session_list
            },
            after.session_list,
            fuzzy,
        )
        &&& after.header == SessionSelectorHeader {
            scope: after.scope,
            loading: after.scope == SessionScope::Current && before.current_loading,
            load_progress: None,
            ..before.header
        }
    }
    &&& after == SessionSelectorComponent {
        scope: after.scope,
        header: after.header,
        session_list: after.session_list,
        ..before
    }
}

/// Whether the loaded sessions of a scope are kept for it and listed.
pub open spec fn sessions_loaded(
    before: SessionSelectorComponent,
    after: SessionSelectorComponent,
    scope: SessionScope,
    sessions: Vec<SessionInfo>,
    fuzzy: Seq<Vec<Option<i64>>>,
) -> bool {
    &&& scope == SessionScope::Current ==> or_empty(after.current_sessions) == sessions@
        && after.current_sessions is Some && after.all_sessions == before.all_sessions
    &&& scope == SessionScope::All ==> or_empty(after.all_sessions) == sessions@
        && after.all_sessions is Some && after.current_sessions == before.current_sessions
    &&& after.header == SessionSelectorHeader {
        loading: false,
        load_progress: None,
        ..before.header
    }
    &&& relisted(
        SessionList {
            all_sessions: sessions,
            show_cwd: scope == SessionScope::All,
            ..before.session_list
        },
        after.session_list,
        fuzzy,
    )
}

/// Whether the sessions of a scope could not be loaded, which the header says.
pub open spec fn load_failed(
    before: SessionSelectorComponent,
    after: SessionSelectorComponent,
    scope: SessionScope,
    reason: LoadReason,
    message: Seq<char>,
    fuzzy: Seq<Vec<Option<i64>>>,
    now_ms: u64,
) -> bool {
    &&& after.current_sessions == before.current_sessions
    &&& after.all_sessions == before.all_sessions
    &&& shows_status(
        SessionSelectorHeader { loading: false, load_progress: None, ..before.header },
        after.header,
        true,
        "Failed to load sessions: "@ + message,
        LOAD_ERROR_MS,
        now_ms,
    )
    &&& reason == LoadReason::Initial ==> after.session_list.all_sessions@.len() == 0 && relisted(
        SessionList {
            all_sessions: after.session_list.all_sessions,
            show_cwd: scope == SessionScope::All,
            ..before.session_list
        },
        after.session_list,
        fuzzy,
    )
    &&& reason != LoadReason::Initial ==> after.session_list == before.session_list
}

/// Whether loading the sessions of a scope ended with the result and led to what there is after it.
pub open spec fn loaded(
    before: SessionSelectorComponent,
    after: SessionSelectorComponent,
    scope: SessionScope,
    reason: LoadReason,
    result: Result<Vec<SessionInfo>, String>,
    fuzzy: Seq<Vec<Option<i64>>>,
    now_ms: u64,
) -> bool {
    &&& after.current_loading == (before.current_loading && scope != SessionScope::Current)
    &&& after.all_loading == (before.all_loading && scope != SessionScope::All)
    &&& match result {
        Ok(sessions) => sessions_loaded(before, after, scope, sessions, fuzzy),
        Err(message) => load_failed(before, after, scope, reason, message@, fuzzy, now_ms),
    }
    &&& after == (SessionSelectorComponent {
        session_list: after.session_list,
        header: after.header,
        current_sessions: after.current_sessions,
        all_sessions: after.all_sessions,
        current_loading: after.current_loading,
        all_loading: after.all_loading,
        ..before
    })
}

/// Whether deleting a session ended with the result and led to what there is after it.
pub open spec fn deleted(
    before: SessionSelectorComponent,
    after: SessionSelectorComponent,
    path: Seq<char>,
    result: DeleteResult,
    fuzzy: Seq<Vec<Option<i64>>>,
    now_ms: u64,
) -> bool {
    &&& if result.ok {
        &&& after.current_sessions is Some == before.current_sessions is Some
        &&& after.all_sessions is Some == before.all_sessions is Some
        &&& or_empty(after.current_sessions) == without_path(
            or_empty(before.current_sessions),
            path,
        )
        &&& or_empty(after.all_sessions) == without_path(
            or_empty(before.all_sessions),
            path,
        )
        &&& after.session_list.all_sessions@ == after.scope_sessions()
        &&& relisted(
            SessionList {
                all_sessions: after.session_list.all_sessions,
                show_cwd: before.scope == SessionScope::All,
                ..before.session_list
            },
            after.session_list,
            fuzzy,
        )
        &&& shows_status(
            before.header,
            after.header,
            false,
            match result.method {
                DeleteMethod::Trash => "Session moved to trash"@,
                DeleteMethod::Unlink => "Session deleted"@,
            },
            DELETED_MS,
            now_ms,
        )
    } else {
        &&& after.current_sessions == before.current_sessions
        &&& after.all_sessions == before.all_sessions
        &&& after.session_list == before.session_list
        &&& shows_status(
            before.header,
            after.header,
            true,
            "Failed to delete: "@ + match result.error {
                Some(error) => error@,
                None => "Unknown error"@,
            },
            ERROR_MS,
            now_ms,
        )
    }
    &&& after == (SessionSelectorComponent {
        current_sessions: after.current_sessions,
        all_sessions: after.all_sessions,
        session_list: after.session_list,
        header: after.header,
        ..before
    })
}

/// Whether confirming a name gives the path and the name to rename with and leads to what there is
/// after it.
pub open spec fn rename_confirmed(
    before: SessionSelectorComponent,
    after: SessionSelectorComponent,
    value: Seq<char>,
    r: Option<(String, String)>,
) -> bool {
    if trim(value).len() == 0 {
        r is None && after == before
    } else if before.rename_target_path is Some && before.can_rename {
        &&& r matches Some((path, name))
        &&& path == before.rename_target_path->0
        &&& name@ == trim(value)
        &&& after == before
    } else {
        &&& r is None
        &&& after == SessionSelectorComponent {
            mode: SelectorMode::List,
            rename_target_path: None,
            ..before
        }
    }
}

/// Whether this is the result of removing a file after it could not be moved to the trash.
pub open spec fn is_unlink_result(
    unlink_error: Option<String>,
    outcome: TrashOutcome,
    r: DeleteResult,
) -> bool {
    &&& r.method == DeleteMethod::Unlink
    &&& r.ok == (unlink_error is None)
    &&& match (unlink_error, r.error) {
        (None, error) => error is None,
        (Some(cause), Some(error)) => error@ == match trash_complaint(outcome) {
            Some(complaint) => cause@ + " ("@ + cut(
                "trash: "@ + complaint,
                MAX_TRASH_HINT as int,
            ) + ")"@,
            None => cause@,
        },
        (Some(_), None) => false,
    }
}

/// Whether an event of the list turns the selector from `before` into `after` and leaves `request`
/// to the owner.
pub open spec fn handled(
    before: SessionSelectorComponent,
    after: SessionSelectorComponent,
    event: SessionListEvent,
    fuzzy: Seq<Vec<Option<i64>>>,
    now_ms: u64,
    request: SelectorRequest,
) -> bool {
    match event {
        SessionListEvent::Select(path) => {
            &&& request == SelectorRequest::Select(path)
            &&& after == before.with_header(
                SessionSelectorHeader {
                    status_message: None,
                    status_deadline: None,
                    ..before.header
                },
            )
        },
        SessionListEvent::Cancel => {
            &&& request == SelectorRequest::Cancel
            &&& after == before.with_header(
                SessionSelectorHeader {
                    status_message: None,
                    status_deadline: None,
                    ..before.header
                },
            )
        },
        SessionListEvent::ToggleScope => {
            &&& request == if before.scope == SessionScope::Current && before.all_sessions is None {
                if before.all_loading {
                    SelectorRequest::Nothing
                } else {
                    SelectorRequest::LoadAll
                }
            } else {
                SelectorRequest::Redraw
            }
            &&& scope_toggled(before, after, fuzzy)
        },
        SessionListEvent::ToggleSort => {
            &&& request == SelectorRequest::Redraw
            &&& after == SessionSelectorComponent {
                sort_mode: next_sort_mode(before.sort_mode),
                header: SessionSelectorHeader {
                    sort_mode: next_sort_mode(before.sort_mode),
                    ..before.header
                },
                session_list: after.session_list,
                ..before
            }
            &&& relisted(
                SessionList {
                    sort_mode: next_sort_mode(before.sort_mode),
                    ..before.session_list
                },
                after.session_list,
                fuzzy,
            )
        },
        SessionListEvent::ToggleNameFilter => {
            &&& request == SelectorRequest::Redraw
            &&& after == SessionSelectorComponent {
                name_filter: other_name_filter(before.name_filter),
                header: SessionSelectorHeader {
                    name_filter: other_name_filter(before.name_filter),
                    ..before.header
                },
                session_list: after.session_list,
                ..before
            }
            &&& relisted(
                SessionList {
                    name_filter: other_name_filter(before.name_filter),
                    ..before.session_list
                },
                after.session_list,
                fuzzy,
            )
        },
        SessionListEvent::TogglePath(show_path) => {
            &&& request == SelectorRequest::Redraw
            &&& after == before.with_header(
                SessionSelectorHeader { show_path, ..before.header },
            )
        },
        SessionListEvent::DeleteConfirmationChange(path) => {
            &&& request == SelectorRequest::Redraw
            &&& after == before.with_header(
                SessionSelectorHeader { confirming_delete_path: path, ..before.header },
            )
        },
        SessionListEvent::DeleteSession(path) => request == SelectorRequest::Delete(path)
            && after == before,
        SessionListEvent::RenameSession(path) => if before.can_rename && !before.scope_loading() {
            &&& request is EditName
            &&& request->EditName_0@ == name_at(before.scope_sessions(), path@)
            &&& after.mode == SelectorMode::Rename
            &&& after.rename_target_path is Some
            &&& after.rename_target_path->0@ == path@
            &&& after == SessionSelectorComponent {
                mode: SelectorMode::Rename,
                rename_target_path: after.rename_target_path,
                ..before
            }
        } else {
            request == SelectorRequest::Nothing && after == before
        },
        SessionListEvent::Error(message) => {
            &&& request == SelectorRequest::Redraw
            &&& shows_status(
                before.header,
                after.header,
                true,
                message@,
                ERROR_MS,
                now_ms,
            )
            &&& after == before.with_header(after.header)
        },
    }
}

impl SessionSelectorComponent {
    /// Whether sessions can be renamed.
    #[must_use]
    pub fn can_rename(&self) -> (r: bool)
        ensures
            r == self.can_rename,
    {
        self.can_rename
    }

    /// The list of sessions.
    pub fn session_list(&self) -> (r: &SessionList)
        ensures
            *r == self.session_list,
    {
        &self.session_list
    }

    /// The sessions of the shown scope.
    pub open spec fn scope_sessions(&self) -> Seq<SessionInfo> {
        match self.scope {
            SessionScope::All => or_empty(self.all_sessions),
            SessionScope::Current => or_empty(self.current_sessions),
        }
    }

    /// Whether the sessions of the shown scope are being loaded.
    pub open spec fn scope_loading(&self) -> bool {
        match self.scope {
            SessionScope::All => self.all_loading,
            SessionScope::Current => self.current_loading,
        }
    }

    /// A selector on the current folder, before any session is loaded.
    pub fn new(
        can_rename: bool,
        show_rename_hint: Option<bool>,
        canonical_paths: CanonicalPaths,
        current_session_canonical_path: Option<String>,
    ) -> (r: Self)
        ensures
            r.can_rename == can_rename,
            r.scope == SessionScope::Current,
            r.sort_mode == SortMode::Threaded,
            r.name_filter == NameFilter::All,
            r.current_sessions is None,
            r.all_sessions is None,
            !r.current_loading,
            !r.all_loading,
            r.mode == SelectorMode::List,
            r.rename_target_path is None,
            r.header == (SessionSelectorHeader {
                scope: SessionScope::Current,
                sort_mode: SortMode::Threaded,
                name_filter: NameFilter::All,
                loading: false,
                load_progress: None,
                show_path: false,
                confirming_delete_path: None,
                status_message: None,
                status_deadline: None,
                show_rename_hint: match show_rename_hint {
                    Some(show) => show,
                    None => can_rename,
                },
            }),
            r.session_list.wf(),
            r.session_list.all_sessions@.len() == 0,
            r.session_list.query@.len() == 0,
            r.session_list.sort_mode == SortMode::Threaded,
            r.session_list.name_filter == NameFilter::All,
            !r.session_list.show_cwd,
            r.session_list.canonical_paths == canonical_paths,
            r.session_list.current_session_canonical_path == current_session_canonical_path,
            r.session_list.events@.len() == 0,
            r.session_list.filtered_sessions@.len() == 0,
            !r.session_list.show_path,
            r.session_list.confirming_delete_path is None,
            r.session_list.selected_index == 0,
    {
        let mut header = SessionSelectorHeader::new(
            SessionScope::Current,
            SortMode::Threaded,
            NameFilter::All,
        );
        header.set_show_rename_hint(
            match show_rename_hint {
                Some(show) => show,
                None => can_rename,
            },
        );
        let session_list = SessionList::new(
            Vec::new(),
            false,
            SortMode::Threaded,
            NameFilter::All,
            canonical_paths,
            current_session_canonical_path,
        );
        proof {
            let rows = flat_views(session_list.filtered_sessions@);
            assert(session_list.all_sessions@ =~= Seq::empty());
            lemma_no_rows(canonical_paths, rows);
            assert(rows.len() == session_list.filtered_sessions@.len());
        }
        SessionSelectorComponent {
            can_rename,
            session_list,
            header,
            scope: SessionScope::Current,
            sort_mode: SortMode::Threaded,
            name_filter: NameFilter::All,
            current_sessions: None,
            all_sessions: None,
            current_loading: false,
            all_loading: false,
            mode: SelectorMode::List,
            rename_target_path: None,
        }
    }

    /// Marks a scope as being loaded.
    pub fn start_load(&mut self, scope: SessionScope)
        ensures
            *final(self) == (SessionSelectorComponent {
                current_loading: old(self).current_loading || scope == SessionScope::Current,
                all_loading: old(self).all_loading || scope == SessionScope::All,
                header: SessionSelectorHeader {
                    scope,
                    loading: true,
                    load_progress: None,
                    ..old(self).header
                },
                ..*old(self)
            }),
    {
        match scope {
            SessionScope::Current => {
                self.current_loading = true;
            },
            SessionScope::All => {
                self.all_loading = true;
            },
        }
        self.header.set_scope(scope);
        self.header.set_loading(true);
    }

    /// Takes the result of loading a scope. Loaded sessions are kept for the scope and listed. After
    /// a failure the header says so, and the list is emptied if it was the first load.
    pub fn finish_load(
        &mut self,
        scope: SessionScope,
        reason: LoadReason,
        result: Result<Vec<SessionInfo>, String>,
        fuzzy: &Vec<Vec<Option<i64>>>,
        now_ms: u64,
    )
        requires
            old(self).session_list.wf(),
        ensures
            final(self).session_list.wf(),
            loaded(*old(self), *final(self), scope, reason, result, fuzzy@, now_ms),
    {
        match scope {
            SessionScope::Current => {
                self.current_loading = false;
            },
            SessionScope::All => {
                self.all_loading = false;
            },
        }
        self.header.set_loading(false);
        match result {
            Ok(sessions) => {
                self.keep_loaded(scope, sessions, fuzzy);
            },
            Err(message) => {
                self.report_failed_load(scope, reason, message.as_str(), fuzzy, now_ms);
            },
        }
    }

    /// Keeps the loaded sessions of a scope and lists them.
    fn keep_loaded(
        &mut self,
        scope: SessionScope,
        sessions: Vec<SessionInfo>,
        fuzzy: &Vec<Vec<Option<i64>>>,
    )
        requires
            old(self).session_list.wf(),
            !old(self).header.loading,
            old(self).header.load_progress is None,
        ensures
            final(self).session_list.wf(),
            sessions_loaded(*old(self), *final(self), scope, sessions, fuzzy@),
            *final(self) == (SessionSelectorComponent {
                session_list: final(self).session_list,
                current_sessions: final(self).current_sessions,
                all_sessions: final(self).all_sessions,
                ..*old(self)
            }),
    {
        let kept = clone_sessions(&sessions);
        match scope {
            SessionScope::Current => {
                self.current_sessions = Some(kept);
            },
            SessionScope::All => {
                self.all_sessions = Some(kept);
            },
        }
        self.session_list.set_sessions(sessions, scope == SessionScope::All, fuzzy);
    }

    /// Says that the sessions of a scope could not be loaded, and empties the list after the first load.
    fn report_failed_load(
        &mut self,
        scope: SessionScope,
        reason: LoadReason,
        message: &str,
        fuzzy: &Vec<Vec<Option<i64>>>,
        now_ms: u64,
    )
        requires
            old(self).session_list.wf(),
            !old(self).header.loading,
            old(self).header.load_progress is None,
        ensures
            final(self).session_list.wf(),
            load_failed(*old(self), *final(self), scope, reason, message@, fuzzy@, now_ms),
            *final(self) == (SessionSelectorComponent {
                session_list: final(self).session_list,
                header: final(self).header,
                ..*old(self)
            }),
    {
        let text = "Failed to load sessions: ".to_owned().concat(message);
        self.header.set_status_message(
            Some(StatusMessage { is_error: true, message: text }),
            Some(LOAD_ERROR_MS),
            now_ms,
        );
        if reason == LoadReason::Initial {
            self.session_list.set_sessions(Vec::new(), scope == SessionScope::All, fuzzy);
        }
    }

    /// Goes on to the next sort mode.
    pub fn toggle_sort_mode(&mut self, fuzzy: &Vec<Vec<Option<i64>>>)
        ensures
            final(self).session_list.wf(),
            relisted(
                SessionList {
                    sort_mode: next_sort_mode(old(self).sort_mode),
                    ..old(self).session_list
                },
                final(self).session_list,
                fuzzy@,
            ),
            *final(self) == (SessionSelectorComponent {
                sort_mode: next_sort_mode(old(self).sort_mode),
                header: SessionSelectorHeader {
                    sort_mode: next_sort_mode(old(self).sort_mode),
                    ..old(self).header
                },
                session_list: final(self).session_list,
                ..*old(self)
            }),
    {
        self.sort_mode = match self.sort_mode {
            SortMode::Threaded => SortMode::Recent,
            SortMode::Recent => SortMode::Relevance,
            SortMode::Relevance => SortMode::Threaded,
        };
        self.header.set_sort_mode(self.sort_mode);
        self.session_list.set_sort_mode(self.sort_mode, fuzzy);
    }

    /// Changes to the other name filter.
    pub fn toggle_name_filter(&mut self, fuzzy: &Vec<Vec<Option<i64>>>)
        ensures
            final(self).session_list.wf(),
            relisted(
                SessionList {
                    name_filter: other_name_filter(old(self).name_filter),
                    ..old(self).session_list
                },
                final(self).session_list,
                fuzzy@,
            ),
            *final(self) == (SessionSelectorComponent {
                name_filter: other_name_filter(old(self).name_filter),
                header: SessionSelectorHeader {
                    name_filter: other_name_filter(old(self).name_filter),
                    ..old(self).header
                },
                session_list: final(self).session_list,
                ..*old(self)
            }),
    {
        self.name_filter = match self.name_filter {
            NameFilter::All => NameFilter::Named,
            NameFilter::Named => NameFilter::All,
        };
        self.header.set_name_filter(self.name_filter);
        self.session_list.set_name_filter(self.name_filter, fuzzy);
    }

    /// Changes to the other scope. Returns whether the sessions of all folders have to be loaded
    /// first: they are neither loaded nor being loaded.
    pub fn toggle_scope(&mut self, fuzzy: &Vec<Vec<Option<i64>>>) -> (load_all: bool)
        requires
            old(self).session_list.wf(),
        ensures
            final(self).session_list.wf(),
            load_all == (old(self).scope == SessionScope::Current && old(self).all_sessions is None
                && !old(self).all_loading),
            scope_toggled(*old(self), *final(self), fuzzy@),
    {
        if self.scope == SessionScope::Current {
            self.scope = SessionScope::All;
            self.header.set_scope(SessionScope::All);
            let loaded: Option<Vec<SessionInfo>> = match &self.all_sessions {
                Some(sessions) => Some(clone_sessions(sessions)),
                None => None,
            };
            return match loaded {
                Some(sessions) => {
                    self.header.set_loading(false);
                    self.session_list.set_sessions(sessions, true, fuzzy);
                    false
                },
                None => !self.all_loading,
            };
        }
        self.scope = SessionScope::Current;
        self.header.set_scope(SessionScope::Current);
        self.header.set_loading(self.current_loading);
        let sessions: Vec<SessionInfo> = match &self.current_sessions {
            Some(sessions) => clone_sessions(sessions),
            None => Vec::new(),
        };
        self.session_list.set_sessions(sessions, false, fuzzy);
        false
    }

    /// Takes the result of deleting a session file. After a success the file's sessions are gone
    /// from the list and the scope has to be loaded again; the returned value says so. After a
    /// failure the header says why.
    pub fn finish_delete(
        &mut self,
        path: &str,
        result: &DeleteResult,
        fuzzy: &Vec<Vec<Option<i64>>>,
        now_ms: u64,
    ) -> (refresh: bool)
        requires
            old(self).session_list.wf(),
        ensures
            final(self).session_list.wf(),
            refresh == result.ok,
            deleted(*old(self), *final(self), path@, *result, fuzzy@, now_ms),
    {
        assert(without_path(Seq::empty(), path@) =~= Seq::empty()) by {
            reveal(Seq::filter);
        }
        if result.ok {
            let current: Option<Vec<SessionInfo>> = match &self.current_sessions {
                Some(sessions) => Some(remove_path(sessions, path)),
                None => None,
            };
            self.current_sessions = current;
            let all: Option<Vec<SessionInfo>> = match &self.all_sessions {
                Some(sessions) => Some(remove_path(sessions, path)),
                None => None,
            };
            self.all_sessions = all;
            let shown: Vec<SessionInfo> = match self.scope {
                SessionScope::All => match &self.all_sessions {
                    Some(sessions) => clone_sessions(sessions),
                    None => Vec::new(),
                },
                SessionScope::Current => match &self.current_sessions {
                    Some(sessions) => clone_sessions(sessions),
                    None => Vec::new(),
                },
            };
            assert(shown@ =~= self.scope_sessions());
            let show_cwd = self.scope == SessionScope::All;
            self.session_list.set_sessions(shown, show_cwd, fuzzy);
            let message = match result.method {
                DeleteMethod::Trash => "Session moved to trash",
                DeleteMethod::Unlink => "Session deleted",
            };
            self.header.set_status_message(
                Some(StatusMessage { is_error: false, message: message.to_owned() }),
                Some(DELETED_MS),
                now_ms,
            );
            true
        } else {
            let error = match &result.error {
                Some(error) => error.clone(),
                None => "Unknown error".to_owned(),
            };
            let message = "Failed to delete: ".to_owned().concat(error.as_str());
            self.header.set_status_message(
                Some(StatusMessage { is_error: true, message }),
                Some(ERROR_MS),
                now_ms,
            );
            false
        }
    }

    /// Starts to edit the name of a session, unless names cannot be changed or the scope is being
    /// loaded. Returns the value to start from.
    pub fn handle_rename_request(&mut self, path: &str) -> (value: Option<String>)
        ensures
            if old(self).can_rename && !old(self).scope_loading() {
                &&& value is Some
                &&& value->0@ == name_at(old(self).scope_sessions(), path@)
                &&& final(self).mode == SelectorMode::Rename
                &&& final(self).rename_target_path is Some
                &&& final(self).rename_target_path->0@ == path@
                &&& *final(self) == SessionSelectorComponent {
                    mode: SelectorMode::Rename,
                    rename_target_path: final(self).rename_target_path,
                    ..*old(self)
                }
            } else {
                value is None && *final(self) == *old(self)
            },
    {
        let loading = match self.scope {
            SessionScope::All => self.all_loading,
            SessionScope::Current => self.current_loading,
        };
        if !self.can_rename || loading {
            return None;
        }
        let value = match self.scope {
            SessionScope::All => match &self.all_sessions {
                Some(sessions) => find_name(sessions, path),
                None => String::new(),
            },
            SessionScope::Current => match &self.current_sessions {
                Some(sessions) => find_name(sessions, path),
                None => String::new(),
            },
        };
        self.mode = SelectorMode::Rename;
        self.rename_target_path = Some(path.to_owned());
        Some(value)
    }

    /// Goes back to the list.
    pub fn exit_rename_mode(&mut self)
        ensures
            *final(self) == (SessionSelectorComponent {
                mode: SelectorMode::List,
                rename_target_path: None,
                ..*old(self)
            }),
    {
        self.mode = SelectorMode::List;
        self.rename_target_path = None;
    }

    /// Takes a submitted name. A blank one is ignored. Otherwise, if there is a session to rename,
    /// its path and the trimmed name are returned; the owner renames it, loads the scope again and
    /// leaves the rename mode. Without one the mode is left at once.
    pub fn confirm_rename(&mut self, value: &str) -> (r: Option<(String, String)>)
        ensures
            rename_confirmed(*old(self), *final(self), value@, r),
    {
        let name = trim_str(value);
        if name.as_str().is_empty() {
            return None;
        }
        if self.can_rename {
            if let Some(path) = &self.rename_target_path {
                return Some((path.clone(), name));
            }
        }
        self.exit_rename_mode();
        None
    }

    /// This selector with another header.
    pub open spec fn with_header(self, header: SessionSelectorHeader) -> Self {
        SessionSelectorComponent { header, ..self }
    }

    /// Drops the status message.
    pub fn clear_status_message(&mut self)
        ensures
            *final(self) == old(self).with_header(
                SessionSelectorHeader {
                    status_message: None,
                    status_deadline: None,
                    ..old(self).header
                },
            ),
    {
        self.header.set_status_message(None, None, 0);
    }

    /// Shows an error for a while.
    fn show_error(&mut self, message: String, now_ms: u64)
        ensures
            shows_status(
                old(self).header,
                final(self).header,
                true,
                message@,
                ERROR_MS,
                now_ms,
            ),
            *final(self) == old(self).with_header(final(self).header),
    {
        self.header.set_status_message(
            Some(StatusMessage { is_error: true, message }),
            Some(ERROR_MS),
            now_ms,
        );
    }

    fn set_header_path(&mut self, show_path: bool)
        ensures
            *final(self) == old(self).with_header(
                SessionSelectorHeader { show_path, ..old(self).header },
            ),
    {
        self.header.set_show_path(show_path);
    }

    fn set_header_confirmation(&mut self, path: Option<String>)
        ensures
            *final(self) == old(self).with_header(
                SessionSelectorHeader { confirming_delete_path: path, ..old(self).header },
            ),
    {
        self.header.set_confirming_delete_path(path);
    }

    /// Carries out an event of the list, as far as it concerns the selector, and returns what is
    /// left to the owner.
    #[verifier::rlimit(60)]
    pub fn process_list_event(
        &mut self,
        event: SessionListEvent,
        fuzzy: &Vec<Vec<Option<i64>>>,
        now_ms: u64,
    ) -> (request: SelectorRequest)
        requires
            old(self).session_list.wf(),
        ensures
            final(self).session_list.wf(),
            handled(*old(self), *final(self), event, fuzzy@, now_ms, request),
    {
        match event {
            SessionListEvent::Select(path) => {
                self.clear_status_message();
                SelectorRequest::Select(path)
            },
            SessionListEvent::Cancel => {
                self.clear_status_message();
                SelectorRequest::Cancel
            },
            SessionListEvent::ToggleScope => {
                let waiting = self.scope == SessionScope::Current && self.all_sessions.is_none();
                if self.toggle_scope(fuzzy) {
                    SelectorRequest::LoadAll
                } else if waiting {
                    SelectorRequest::Nothing
                } else {
                    SelectorRequest::Redraw
                }
            },
            SessionListEvent::ToggleSort => {
                self.toggle_sort_mode(fuzzy);
                SelectorRequest::Redraw
            },
            SessionListEvent::ToggleNameFilter => {
                self.toggle_name_filter(fuzzy);
                SelectorRequest::Redraw
            },
            SessionListEvent::TogglePath(show_path) => {
                self.set_header_path(show_path);
                SelectorRequest::Redraw
            },
            SessionListEvent::DeleteConfirmationChange(path) => {
                self.set_header_confirmation(path);
                SelectorRequest::Redraw
            },
            SessionListEvent::DeleteSession(path) => SelectorRequest::Delete(path),
            SessionListEvent::RenameSession(path) => {
                match self.handle_rename_request(path.as_str()) {
                    Some(value) => SelectorRequest::EditName(value),
                    None => SelectorRequest::Nothing,
                }
            },
            SessionListEvent::Error(message) => {
                self.show_error(message, now_ms);
                SelectorRequest::Redraw
            },
        }
    }
}

} // verus!
