//! Session selector: the searchable list of sessions, its header, and the
//! selector that owns them.

use crate::keybinding_hints::KeyMatches;
use crate::order::lemma_stable_order_exists;
use crate::scroll::{
    clamp_selection, clamped, move_down, move_up, moved_down, moved_up, valid_selection,
};
use crate::session::{clone_opt, CanonicalPaths, SessionInfo};
use crate::session_selector_search::{
    filter_and_sort_sessions, listed_indices, named_indices, passes_name_filter, sessions_at,
    NameFilter, SortMode,
};
use crate::session_tree::{
    activity_keys, build_session_tree, flat_trees, flat_views, flatten_session_tree,
    is_session_forest, nodes_under, session_links, ActivityKey, FlatSessionNode, FlatView,
    SessionTreeNode,
};
use crate::text::{
    chars_of, decimal, decimal_str, has_prefix, is_blank, lemma_trim_empty, push_char, str_eq,
    string_of, trim_slice,
};
use vstd::prelude::*;
use vstd::slice::slice_subrange;
use vstd::string::*;

verus! {

broadcast use vstd::string::group_string_axioms;

/// Which sessions the selector lists.
#[derive(Debug, Clone, Copy, PartialEq, Eq, Structural)]
pub enum SessionScope {
    Current,
    All,
}

/// The path with a leading home directory written as `~`.
pub open spec fn shortened_path(path: Seq<char>, home: Option<Seq<char>>) -> Seq<char> {
    match home {
        Some(home) => if path.len() > 0 && home.len() > 0 && home.is_prefix_of(path) {
            seq!['~'] + path.skip(home.len() as int)
        } else {
            path
        },
        None => path,
    }
}

/// The path with a leading home directory written as `~`.
pub fn shorten_path_with_home(path: &str, home: Option<&str>) -> (r: String)
    ensures
        r@ == shortened_path(
            path@,
            match home {
                Some(home) => Some(home@),
                None => None,
            },
        ),
{
    if path.is_empty() {
        return path.to_owned();
    }
    if let Some(home) = home {
        if !home.is_empty() {
            let chars = chars_of(path);
            let prefix = chars_of(home);
            if has_prefix(chars.as_slice(), prefix.as_slice()) {
                let mut r = String::new();
                push_char(&mut r, '~');
                let rest = slice_subrange(chars.as_slice(), prefix.len(), chars.len());
                assert(rest@ =~= path@.skip(home@.len() as int));
                let rest = string_of(rest);
                r.append(rest.as_str());
                assert(r@ =~= shortened_path(path@, Some(home@)));
                return r;
            }
        }
    }
    path.to_owned()
}

/// How long ago a session was modified, `diff_ms` milliseconds back: in minutes, hours, days,
/// weeks, months or years.
pub open spec fn session_age(diff_ms: int) -> Seq<char> {
    let mins = diff_ms / 60_000;
    let hours = diff_ms / 3_600_000;
    let days = diff_ms / 86_400_000;
    if mins < 1 {
        "now"@
    } else if mins < 60 {
        decimal(mins as nat) + "m"@
    } else if hours < 24 {
        decimal(hours as nat) + "h"@
    } else if days < 7 {
        decimal(days as nat) + "d"@
    } else if days < 30 {
        decimal((days / 7) as nat) + "w"@
    } else if days < 365 {
        decimal((days / 30) as nat) + "mo"@
    } else {
        decimal((days / 365) as nat) + "y"@
    }
}

/// How long before `now_ms` the session was modified.
#[must_use]
pub fn format_session_date(modified_ms: i64, now_ms: i64) -> (r: String)
    ensures
        r@ == session_age(now_ms - modified_ms),
{
    let diff_ms: i128 = now_ms as i128 - modified_ms as i128;
    if diff_ms < 60_000 {
        return "now".to_owned();
    }
    let diff: u128 = diff_ms as u128;
    let mins: u128 = diff / 60_000;
    let hours: u128 = diff / 3_600_000;
    let days: u128 = diff / 86_400_000;
    if mins < 60 {
        decimal_str(mins).concat("m")
    } else if hours < 24 {
        decimal_str(hours).concat("h")
    } else if days < 7 {
        decimal_str(days).concat("d")
    } else if days < 30 {
        decimal_str(days / 7).concat("w")
    } else if days < 365 {
        decimal_str(days / 30).concat("mo")
    } else {
        decimal_str(days / 365).concat("y")
    }
}

/// A status message shown in the header's hint area.
#[derive(Debug, PartialEq, Eq)]
pub struct StatusMessage {
    pub is_error: bool,
    pub message: String,
}

/// How many sessions the list shows at once.
pub const MAX_VISIBLE: usize = 10;

/// What the session list asks of its owner.
#[derive(Debug, PartialEq, Eq)]
pub enum SessionListEvent {
    Select(String),
    Cancel,
    ToggleScope,
    ToggleSort,
    ToggleNameFilter,
    TogglePath(bool),
    DeleteConfirmationChange(Option<String>),
    DeleteSession(String),
    RenameSession(String),
    Error(String),
}

/// The content of a list event.
pub enum EventView {
    Select(Seq<char>),
    Cancel,
    ToggleScope,
    ToggleSort,
    ToggleNameFilter,
    TogglePath(bool),
    DeleteConfirmationChange(Option<Seq<char>>),
    DeleteSession(Seq<char>),
    RenameSession(Seq<char>),
    Error(Seq<char>),
}

impl View for SessionListEvent {
    type V = EventView;

    open spec fn view(&self) -> EventView {
        match *self {
            SessionListEvent::Select(path) => EventView::Select(path@),
            SessionListEvent::Cancel => EventView::Cancel,
            SessionListEvent::ToggleScope => EventView::ToggleScope,
            SessionListEvent::ToggleSort => EventView::ToggleSort,
            SessionListEvent::ToggleNameFilter => EventView::ToggleNameFilter,
            SessionListEvent::TogglePath(on) => EventView::TogglePath(on),
            SessionListEvent::DeleteConfirmationChange(
                path,
            ) => EventView::DeleteConfirmationChange(
                match path {
                    Some(path) => Some(path@),
                    None => None,
                },
            ),
            SessionListEvent::DeleteSession(path) => EventView::DeleteSession(path@),
            SessionListEvent::RenameSession(path) => EventView::RenameSession(path@),
            SessionListEvent::Error(message) => EventView::Error(message@),
        }
    }
}

/// The contents of a list of events.
pub open spec fn event_views(events: Seq<SessionListEvent>) -> Seq<EventView> {
    events.map_values(|e: SessionListEvent| e@)
}

/// What a key press does to the session list.
#[derive(Debug, Clone, Copy, PartialEq, Eq, Structural)]
pub enum ListAction {
    ConfirmDelete,
    CancelDelete,
    Ignore,
    ToggleScope,
    ToggleSort,
    ToggleNameFilter,
    TogglePath,
    StartDelete,
    Rename,
    Up,
    Down,
    PageUp,
    PageDown,
    Select,
    Cancel,
    /// The key press goes to the search input.
    Edit,
}

/// The searchable list of sessions.
#[derive(Debug)]
pub struct SessionList {
    pub all_sessions: Vec<SessionInfo>,
    pub filtered_sessions: Vec<FlatSessionNode>,
    pub selected_index: usize,
    /// The value of the search input.
    pub query: String,
    pub show_cwd: bool,
    pub sort_mode: SortMode,
    pub name_filter: NameFilter,
    pub show_path: bool,
    pub confirming_delete_path: Option<String>,
    pub current_session_canonical_path: Option<String>,
    pub canonical_paths: CanonicalPaths,
    pub events: Vec<SessionListEvent>,
}

/// A session on its own line, outside any tree.
pub open spec fn flat_row(session: SessionInfo) -> FlatView {
    FlatView { session, depth: 0, is_last: true, ancestor_continues: Seq::empty() }
}

/// Whether the rows are those of the session tree.
pub open spec fn shows_tree(
    sessions: Seq<SessionInfo>,
    paths: CanonicalPaths,
    rows: Seq<FlatView>,
) -> bool {
    let links = session_links(sessions, paths);
    exists|trees: Seq<SessionTreeNode>|
        {
            &&& #[trigger] is_session_forest(
                sessions,
                links,
                trees,
                nodes_under(links, None),
                sessions.len(),
            )
            &&& rows == flat_trees(trees, trees.len(), Seq::empty())
        }
}

/// Whether the rows are what the list shows for the query: the tree of the sessions in threaded
/// mode without a query, otherwise the sessions that the search lists.
pub open spec fn shows_sessions(
    sessions: Seq<SessionInfo>,
    paths: CanonicalPaths,
    query: Seq<char>,
    sort_mode: SortMode,
    name_filter: NameFilter,
    fuzzy: Seq<Vec<Option<i64>>>,
    rows: Seq<FlatView>,
) -> bool {
    if sort_mode == SortMode::Threaded && is_blank(query) {
        shows_tree(
            sessions_at(sessions, named_indices(sessions, name_filter, sessions.len())),
            paths,
            rows,
        )
    } else {
        rows == sessions_at(
            sessions,
            listed_indices(sessions, query, sort_mode, name_filter, fuzzy),
        ).map_values(|s: SessionInfo| flat_row(s))
    }
}

/// Without sessions there are no rows.
pub proof fn lemma_no_rows(paths: CanonicalPaths, rows: Seq<FlatView>)
    requires
        shows_sessions(
            Seq::empty(),
            paths,
            Seq::empty(),
            SortMode::Threaded,
            NameFilter::All,
            Seq::empty(),
            rows,
        ),
    ensures
        rows.len() == 0,
{
    let none = Seq::<SessionInfo>::empty();
    let named = named_indices(none, NameFilter::All, 0);
    Seq::new(0, |i: int| i).lemma_filter_len(
        |i: int| passes_name_filter(none[i], NameFilter::All),
    );
    assert(named.len() == 0);
    assert(sessions_at(none, named) =~= none);
    let links = session_links(none, paths);
    assert(nodes_under(links, None) =~= Seq::empty());
    let keys = activity_keys(none, links, nodes_under(links, None), 0);
    lemma_stable_order_exists::<ActivityKey>(keys);
}

/// Whether `after` is `before` with the rows and the selection brought up to date.
#[verifier::opaque]
pub open spec fn relisted(
    before: SessionList,
    after: SessionList,
    fuzzy: Seq<Vec<Option<i64>>>,
) -> bool {
    &&& after.wf()
    &&& shows_sessions(
        before.all_sessions@,
        before.canonical_paths,
        before.query@,
        before.sort_mode,
        before.name_filter,
        fuzzy,
        flat_views(after.filtered_sessions@),
    )
    &&& after.selected_index == clamped(
        before.selected_index as int,
        after.filtered_sessions@.len() as int,
    )
    &&& after == SessionList {
        filtered_sessions: after.filtered_sessions,
        selected_index: after.selected_index,
        ..before
    }
}

/// Whether a key press turns the list from `before` into `after`.
pub open spec fn list_reacted(before: SessionList, after: SessionList, key: KeyMatches) -> bool {
    let action = before.action_for(key);
    &&& event_views(after.events@) == event_views(before.events@) + before.events_of(action)
    &&& after.selected_index == before.selection_after(action)
    &&& after.show_path == (before.show_path != (action == ListAction::TogglePath))
    &&& match after.confirming_delete_path {
        Some(path) => before.confirming_after(action) == Some(path@),
        None => before.confirming_after(action) is None,
    }
    &&& after == SessionList {
        selected_index: after.selected_index,
        show_path: after.show_path,
        confirming_delete_path: after.confirming_delete_path,
        events: after.events,
        ..before
    }
}

impl SessionList {
    /// The selection stands on a listed session, if there is any.
    pub open spec fn wf(&self) -> bool {
        valid_selection(self.selected_index as int, self.filtered_sessions@.len() as int)
    }

    /// The path of the selected session.
    pub open spec fn selected_path(&self) -> Option<Seq<char>> {
        if self.selected_index < self.filtered_sessions@.len() {
            Some(self.filtered_sessions@[self.selected_index as int].session.path@)
        } else {
            None
        }
    }

    /// Whether the path is that of the current session.
    pub open spec fn is_current(&self, path: Seq<char>) -> bool {
        match self.current_session_canonical_path {
            Some(current) => self.canonical_paths.canonical(path) == current@,
            None => false,
        }
    }

    /// What a key press does: while a deletion waits for confirmation only confirming and
    /// cancelling count; otherwise the first of the list's keybindings that it matches.
    pub open spec fn action_for(&self, key: KeyMatches) -> ListAction {
        if self.confirming_delete_path is Some {
            if key.has("tui.select.confirm"@) {
                ListAction::ConfirmDelete
            } else if key.has("tui.select.cancel"@) {
                ListAction::CancelDelete
            } else {
                ListAction::Ignore
            }
        } else if key.has("tui.input.tab"@) {
            ListAction::ToggleScope
        } else if key.has("app.session.toggleSort"@) {
            ListAction::ToggleSort
        } else if key.has("app.session.toggleNamedFilter"@) {
            ListAction::ToggleNameFilter
        } else if key.has("app.session.togglePath"@) {
            ListAction::TogglePath
        } else if key.has("app.session.delete"@) {
            ListAction::StartDelete
        } else if key.has("app.session.rename"@) {
            ListAction::Rename
        } else if key.has("app.session.deleteNoninvasive"@) {
            if self.query@.len() > 0 {
                ListAction::Edit
            } else {
                ListAction::StartDelete
            }
        } else if key.has("tui.select.up"@) {
            ListAction::Up
        } else if key.has("tui.select.down"@) {
            ListAction::Down
        } else if key.has("tui.select.pageUp"@) {
            ListAction::PageUp
        } else if key.has("tui.select.pageDown"@) {
            ListAction::PageDown
        } else if key.has("tui.select.confirm"@) {
            ListAction::Select
        } else if key.has("tui.select.cancel"@) {
            ListAction::Cancel
        } else {
            ListAction::Edit
        }
    }

    /// Whether the action starts the deletion of a session other than the current one.
    pub open spec fn starts_delete(&self, action: ListAction) -> bool {
        action == ListAction::StartDelete && match self.selected_path() {
            Some(path) => !self.is_current(path),
            None => false,
        }
    }

    /// The events that an action raises.
    pub open spec fn events_of(&self, action: ListAction) -> Seq<EventView> {
        match action {
            ListAction::ConfirmDelete => match self.confirming_delete_path {
                Some(path) => seq![
                    EventView::DeleteConfirmationChange(None),
                    EventView::DeleteSession(path@),
                ],
                None => seq![EventView::DeleteConfirmationChange(None)],
            },
            ListAction::CancelDelete => seq![EventView::DeleteConfirmationChange(None)],
            ListAction::ToggleScope => seq![EventView::ToggleScope],
            ListAction::ToggleSort => seq![EventView::ToggleSort],
            ListAction::ToggleNameFilter => seq![EventView::ToggleNameFilter],
            ListAction::TogglePath => seq![EventView::TogglePath(!self.show_path)],
            ListAction::StartDelete => match self.selected_path() {
                Some(path) => if self.is_current(path) {
                    seq![EventView::Error("Cannot delete the currently active session"@)]
                } else {
                    seq![EventView::DeleteConfirmationChange(Some(path))]
                },
                None => Seq::empty(),
            },
            ListAction::Rename => match self.selected_path() {
                Some(path) => seq![EventView::RenameSession(path)],
                None => Seq::empty(),
            },
            ListAction::Select => match self.selected_path() {
                Some(path) => seq![EventView::Select(path)],
                None => Seq::empty(),
            },
            ListAction::Cancel => seq![EventView::Cancel],
            _ => Seq::empty(),
        }
    }

    /// Where an action leaves the selection.
    pub open spec fn selection_after(&self, action: ListAction) -> int {
        let at = self.selected_index as int;
        let len = self.filtered_sessions@.len() as int;
        match action {
            ListAction::Up => moved_up(at, 1),
            ListAction::Down => moved_down(at, len, 1),
            ListAction::PageUp => moved_up(at, MAX_VISIBLE as int),
            ListAction::PageDown => moved_down(at, len, MAX_VISIBLE as int),
            _ => at,
        }
    }

    /// The path whose deletion waits for confirmation after an action.
    pub open spec fn confirming_after(&self, action: ListAction) -> Option<Seq<char>> {
        if self.starts_delete(action) {
            self.selected_path()
        } else if action == ListAction::ConfirmDelete || action == ListAction::CancelDelete {
            None
        } else {
            match self.confirming_delete_path {
                Some(path) => Some(path@),
                None => None,
            }
        }
    }

    /// A list of the sessions, with no query. `current_session_canonical_path` is the canonical
    /// path of the session in use.
    #[must_use]
    pub fn new(
        sessions: Vec<SessionInfo>,
        show_cwd: bool,
        sort_mode: SortMode,
        name_filter: NameFilter,
        canonical_paths: CanonicalPaths,
        current_session_canonical_path: Option<String>,
    ) -> (r: Self)
        ensures
            r.wf(),
            r.all_sessions == sessions,
            r.selected_index == 0,
            r.query@.len() == 0,
            r.show_cwd == show_cwd,
            r.sort_mode == sort_mode,
            r.name_filter == name_filter,
            r.show_path == false,
            r.confirming_delete_path is None,
            r.current_session_canonical_path == current_session_canonical_path,
            r.canonical_paths == canonical_paths,
            r.events@.len() == 0,
            shows_sessions(
                sessions@,
                canonical_paths,
                Seq::empty(),
                sort_mode,
                name_filter,
                Seq::empty(),
                flat_views(r.filtered_sessions@),
            ),
    {
        let mut list = SessionList {
            all_sessions: sessions,
            filtered_sessions: Vec::new(),
            selected_index: 0,
            query: String::new(),
            show_cwd,
            sort_mode,
            name_filter,
            show_path: false,
            confirming_delete_path: None,
            current_session_canonical_path,
            canonical_paths,
            events: Vec::new(),
        };
        let fuzzy: Vec<Vec<Option<i64>>> = Vec::new();
        list.filter_sessions(&fuzzy);
        proof {
            reveal(relisted);
        }
        list
    }

    /// Hands out the events raised so far.
    pub fn take_events(&mut self) -> (r: Vec<SessionListEvent>)
        ensures
            r@ == old(self).events@,
            final(self).events@.len() == 0,
            *final(self) == (SessionList { events: final(self).events, ..*old(self) }),
    {
        let mut r: Vec<SessionListEvent> = Vec::new();
        r.append(&mut self.events);
        r
    }

    /// The path of the selected session.
    #[must_use]
    pub fn get_selected_session_path(&self) -> (r: Option<String>)
        ensures
            match r {
                Some(path) => self.selected_path() == Some(path@),
                None => self.selected_path() is None,
            },
    {
        if self.selected_index < self.filtered_sessions.len() {
            Some(self.filtered_sessions[self.selected_index].session.path.clone())
        } else {
            None
        }
    }

    /// Lists what the query, the sort mode and the name filter select.
    pub fn filter_sessions(&mut self, fuzzy: &Vec<Vec<Option<i64>>>)
        ensures
            relisted(*old(self), *final(self), fuzzy@),
            final(self).wf(),
    {
        proof {
            reveal(relisted);
            lemma_trim_empty(self.query@);
            reveal_strlit("");
            lemma_trim_empty(""@);
            assert(is_blank(""@));
        }
        let chars = chars_of(self.query.as_str());
        let blank = trim_slice(chars.as_slice()).len() == 0;
        if self.sort_mode == SortMode::Threaded && blank {
            let none: Vec<Vec<Option<i64>>> = Vec::new();
            let named = filter_and_sort_sessions(
                &self.all_sessions,
                "",
                SortMode::Recent,
                self.name_filter,
                &none,
            );
            let roots = build_session_tree(&named, &self.canonical_paths);
            self.filtered_sessions = flatten_session_tree(&roots);
            assert(shows_tree(
                named@,
                self.canonical_paths,
                flat_views(self.filtered_sessions@),
            ));
        } else {
            let filtered = filter_and_sort_sessions(
                &self.all_sessions,
                self.query.as_str(),
                self.sort_mode,
                self.name_filter,
                fuzzy,
            );
            let mut rows: Vec<FlatSessionNode> = Vec::new();
            let mut i: usize = 0;
            while i < filtered.len()
                invariant
                    i <= filtered.len(),
                    flat_views(rows@) =~= filtered@.map_values(|s: SessionInfo| flat_row(s)).take(
                        i as int,
                    ),
                decreases filtered.len() - i,
            {
                let ghost before = rows@;
                rows.push(
                    FlatSessionNode {
                        session: filtered[i].clone(),
                        depth: 0,
                        is_last: true,
                        ancestor_continues: Vec::new(),
                    },
                );
                assert(flat_views(rows@) =~= flat_views(before).push(rows@.last()@));
                assert(rows@.last()@ =~= flat_row(filtered@[i as int]));
                i = i + 1;
            }
            assert(flat_views(rows@) =~= filtered@.map_values(|s: SessionInfo| flat_row(s)));
            self.filtered_sessions = rows;
        }
        self.selected_index = clamp_selection(self.selected_index, self.filtered_sessions.len());
    }

    /// Changes the query.
    pub fn set_query(&mut self, query: String, fuzzy: &Vec<Vec<Option<i64>>>)
        ensures
            relisted(SessionList { query, ..*old(self) }, *final(self), fuzzy@),
            final(self).wf(),
    {
        self.query = query;
        self.filter_sessions(fuzzy);
    }

    /// Changes the sort mode.
    pub fn set_sort_mode(&mut self, sort_mode: SortMode, fuzzy: &Vec<Vec<Option<i64>>>)
        ensures
            relisted(SessionList { sort_mode, ..*old(self) }, *final(self), fuzzy@),
            final(self).wf(),
    {
        self.sort_mode = sort_mode;
        self.filter_sessions(fuzzy);
    }

    /// Changes the name filter.
    pub fn set_name_filter(&mut self, name_filter: NameFilter, fuzzy: &Vec<Vec<Option<i64>>>)
        ensures
            relisted(SessionList { name_filter, ..*old(self) }, *final(self), fuzzy@),
            final(self).wf(),
    {
        self.name_filter = name_filter;
        self.filter_sessions(fuzzy);
    }

    /// Changes the sessions.
    pub fn set_sessions(
        &mut self,
        sessions: Vec<SessionInfo>,
        show_cwd: bool,
        fuzzy: &Vec<Vec<Option<i64>>>,
    )
        ensures
            relisted(
                SessionList { all_sessions: sessions, show_cwd, ..*old(self) },
                *final(self),
                fuzzy@,
            ),
            final(self).all_sessions == sessions,
            final(self).wf(),
    {
        self.all_sessions = sessions;
        self.show_cwd = show_cwd;
        self.filter_sessions(fuzzy);
        proof {
            reveal(relisted);
        }
    }

    /// Replaces what the paths of the sessions resolve to.
    pub fn set_canonical_paths(
        &mut self,
        canonical_paths: CanonicalPaths,
        fuzzy: &Vec<Vec<Option<i64>>>,
    )
        ensures
            relisted(SessionList { canonical_paths, ..*old(self) }, *final(self), fuzzy@),
            final(self).canonical_paths == canonical_paths,
            final(self).wf(),
    {
        self.canonical_paths = canonical_paths;
        self.filter_sessions(fuzzy);
        proof {
            reveal(relisted);
        }
    }

    /// Whether the path is that of the current session.
    pub fn is_current_session_path(&self, path: &str) -> (r: bool)
        ensures
            r == self.is_current(path@),
    {
        match &self.current_session_canonical_path {
            Some(current) => str_eq(self.canonical_paths.resolve(path).as_str(), current.as_str()),
            None => false,
        }
    }

    fn classify(&self, key: &KeyMatches) -> (r: ListAction)
        ensures
            r == self.action_for(*key),
    {
        if self.confirming_delete_path.is_some() {
            if key.matches("tui.select.confirm") {
                ListAction::ConfirmDelete
            } else if key.matches("tui.select.cancel") {
                ListAction::CancelDelete
            } else {
                ListAction::Ignore
            }
        } else if key.matches("tui.input.tab") {
            ListAction::ToggleScope
        } else if key.matches("app.session.toggleSort") {
            ListAction::ToggleSort
        } else if key.matches("app.session.toggleNamedFilter") {
            ListAction::ToggleNameFilter
        } else if key.matches("app.session.togglePath") {
            ListAction::TogglePath
        } else if key.matches("app.session.delete") {
            ListAction::StartDelete
        } else if key.matches("app.session.rename") {
            ListAction::Rename
        } else if key.matches("app.session.deleteNoninvasive") {
            if !self.query.as_str().is_empty() {
                ListAction::Edit
            } else {
                ListAction::StartDelete
            }
        } else if key.matches("tui.select.up") {
            ListAction::Up
        } else if key.matches("tui.select.down") {
            ListAction::Down
        } else if key.matches("tui.select.pageUp") {
            ListAction::PageUp
        } else if key.matches("tui.select.pageDown") {
            ListAction::PageDown
        } else if key.matches("tui.select.confirm") {
            ListAction::Select
        } else if key.matches("tui.select.cancel") {
            ListAction::Cancel
        } else {
            ListAction::Edit
        }
    }

    fn raise(&mut self, event: SessionListEvent)
        ensures
            event_views(final(self).events@) == event_views(old(self).events@).push(event@),
            *final(self) == (SessionList { events: final(self).events, ..*old(self) }),
    {
        self.events.push(event);
        assert(event_views(self.events@) =~= event_views(old(self).events@).push(event@));
    }

    /// Reacts to a key press. For the action `Edit`, the owner hands the key press to the search
    /// input and sets the query that results.
    pub fn handle_input(&mut self, key: &KeyMatches) -> (action: ListAction)
        requires
            old(self).wf(),
        ensures
            final(self).wf(),
            action == old(self).action_for(*key),
            list_reacted(*old(self), *final(self), *key),
    {
        let action = self.classify(key);
        let len: usize = self.filtered_sessions.len();
        match action {
            ListAction::ConfirmDelete => {
                let path = clone_opt(&self.confirming_delete_path);
                self.confirming_delete_path = None;
                self.raise(SessionListEvent::DeleteConfirmationChange(None));
                if let Some(path) = path {
                    self.raise(SessionListEvent::DeleteSession(path));
                }
            },
            ListAction::CancelDelete => {
                self.confirming_delete_path = None;
                self.raise(SessionListEvent::DeleteConfirmationChange(None));
            },
            ListAction::Ignore => {},
            ListAction::ToggleScope => {
                self.raise(SessionListEvent::ToggleScope);
            },
            ListAction::ToggleSort => {
                self.raise(SessionListEvent::ToggleSort);
            },
            ListAction::ToggleNameFilter => {
                self.raise(SessionListEvent::ToggleNameFilter);
            },
            ListAction::TogglePath => {
                self.show_path = !self.show_path;
                self.raise(SessionListEvent::TogglePath(self.show_path));
            },
            ListAction::StartDelete => {
                if let Some(path) = self.get_selected_session_path() {
                    if self.is_current_session_path(path.as_str()) {
                        self.raise(
                            SessionListEvent::Error(
                                "Cannot delete the currently active session".to_owned(),
                            ),
                        );
                    } else {
                        self.confirming_delete_path = Some(path.clone());
                        self.raise(SessionListEvent::DeleteConfirmationChange(Some(path)));
                    }
                }
            },
            ListAction::Rename => {
                if let Some(path) = self.get_selected_session_path() {
                    self.raise(SessionListEvent::RenameSession(path));
                }
            },
            ListAction::Up => {
                self.selected_index = move_up(self.selected_index, 1);
            },
            ListAction::Down => {
                self.selected_index = move_down(self.selected_index, len, 1);
            },
            ListAction::PageUp => {
                self.selected_index = move_up(self.selected_index, MAX_VISIBLE);
            },
            ListAction::PageDown => {
                self.selected_index = move_down(self.selected_index, len, MAX_VISIBLE);
            },
            ListAction::Select => {
                if let Some(path) = self.get_selected_session_path() {
                    self.raise(SessionListEvent::Select(path));
                }
            },
            ListAction::Cancel => {
                self.raise(SessionListEvent::Cancel);
            },
            ListAction::Edit => {},
        }
        assert(event_views(self.events@) =~= event_views(old(self).events@) + old(self).events_of(
            action,
        ));
        action
    }
}

/// A session is only deleted when the deletion that waits for it is confirmed.
pub proof fn deletion_needs_confirmation(list: SessionList, key: KeyMatches, path: Seq<char>)
    requires
        list.events_of(list.action_for(key)).contains(EventView::DeleteSession(path)),
    ensures
        list.confirming_delete_path is Some,
        list.confirming_delete_path->0@ == path,
        key.has("tui.select.confirm"@),
{
}

/// The current session is never up for deletion: if it was not before a key press, it is not after
/// it.
pub proof fn current_session_is_kept(list: SessionList, key: KeyMatches)
    requires
        list.confirming_delete_path matches Some(path) ==> !list.is_current(path@),
    ensures
        list.confirming_after(list.action_for(key)) matches Some(path) ==> !list.is_current(path),
{
}

} // verus!
