use pi_interactive::fitting::{
    fit_line, fit_text, fit_with_ellipsis, Fit, LineCut, MeasuredLine, TextCut,
};
use pi_interactive::keybinding_hints::{KeyMatches, KeyTable};
use pi_interactive::session::{CanonicalPaths, SessionInfo};
use pi_interactive::session_header::{
    first_line, header_spacing, left_columns, HeaderCuts, SessionSelectorHeader,
};
use pi_interactive::session_rows::{
    message_columns, position_text, row_spacing, to_single_line, RowCut, SessionRow,
};
use pi_interactive::session_screen::{KeyTarget, SelectorCuts};
use pi_interactive::session_selector::{
    format_session_date, shorten_path_with_home, ListAction, SessionList, SessionListEvent,
    SessionScope, StatusMessage,
};
use pi_interactive::session_selector_component::{
    after_trash, after_unlink, trash_arguments, trash_error_hint, AfterTrash, DeleteMethod,
    DeleteResult, LoadReason, SelectorMode, SelectorRequest, SessionSelectorComponent,
    TrashOutcome,
};
use pi_interactive::session_selector_search::{NameFilter, SortMode};
use pi_interactive::session_tree::{build_session_tree, flatten_session_tree, FlatSessionNode};
use pi_interactive::transcript::Piece;
use pi_interactive::style::{plain_text, Measured, Span, ThemeBg, ThemeColor};

fn session(id: &str, path: &str, parent: Option<&str>, modified_ms: i64) -> SessionInfo {
    SessionInfo {
        path: path.to_owned(),
        id: id.to_owned(),
        cwd: "/cwd".to_owned(),
        name: None,
        parent_session_path: parent.map(str::to_owned),
        created: "2026-07-16T12:00:00Z".to_owned(),
        modified_ms,
        message_count: 1,
        first_message: format!("first {id}"),
        all_messages_text: format!("messages {id}"),
    }
}

fn whole(width: usize) -> TextCut {
    TextCut { width, cut: Measured { text: String::new(), width: 0 } }
}

fn whole_line(width: usize) -> LineCut {
    LineCut { width, cut: MeasuredLine { spans: Vec::new(), width: 0 } }
}

fn no_paths() -> CanonicalPaths {
    CanonicalPaths { entries: Vec::new() }
}

fn press(ids: &[&str]) -> KeyMatches {
    KeyMatches { ids: ids.iter().map(|s| (*s).to_owned()).collect() }
}

fn list_of(sessions: Vec<SessionInfo>, current: Option<&str>) -> SessionList {
    SessionList::new(
        sessions,
        false,
        SortMode::Recent,
        NameFilter::All,
        no_paths(),
        current.map(str::to_owned),
    )
}

#[test]
fn format_session_date_buckets() {
    let now = 1_700_000_000_000_i64;
    assert_eq!(format_session_date(now - 30_000, now), "now");
    assert_eq!(format_session_date(now - 5 * 60_000, now), "5m");
    assert_eq!(format_session_date(now - 3 * 3_600_000, now), "3h");
    assert_eq!(format_session_date(now - 2 * 86_400_000, now), "2d");
    assert_eq!(format_session_date(now - 10 * 86_400_000, now), "1w");
    assert_eq!(format_session_date(now - 40 * 86_400_000, now), "1mo");
    assert_eq!(format_session_date(now - 400 * 86_400_000, now), "1y");
    // Future dates report "now".
    assert_eq!(format_session_date(now + 60_000, now), "now");
}

#[test]
fn shorten_path_replaces_home_prefix() {
    assert_eq!(shorten_path_with_home("/home/u/proj", Some("/home/u")), "~/proj");
    assert_eq!(shorten_path_with_home("/other", Some("/home/u")), "/other");
    assert_eq!(shorten_path_with_home("", Some("/home/u")), "");
}

#[test]
fn truncate_with_ellipsis_appends_only_when_truncating() {
    // "short" fits into ten columns.
    assert_eq!(fit_with_ellipsis(5, 10, 1), Fit::Whole);
    // "0123456789" is cut to four columns so that the ellipsis makes five.
    assert_eq!(fit_with_ellipsis(10, 5, 1), Fit::Cut(4));
    assert_eq!(fit_with_ellipsis(8, 0, 1), Fit::Empty);
    assert_eq!(fit_with_ellipsis(8, 2, 3), Fit::CutEllipsis);
}

#[test]
fn build_tree_parents_and_activity_sort() {
    // A parent (old) with a fresh child outranks a middle-aged root.
    let sessions = vec![
        session("root-old", "/tmp/root-old.jsonl", None, 100),
        session("mid", "/tmp/mid.jsonl", None, 500),
        session("child", "/tmp/child.jsonl", Some("/tmp/root-old.jsonl"), 900),
    ];
    let roots = build_session_tree(&sessions, &no_paths());
    assert_eq!(roots.len(), 2);
    assert_eq!(roots[0].session.id, "root-old");
    assert_eq!(roots[0].latest_activity, 900);
    assert_eq!(roots[0].children.len(), 1);
    assert_eq!(roots[0].children[0].session.id, "child");
    assert_eq!(roots[1].session.id, "mid");
}

#[test]
fn missing_parent_becomes_root() {
    let sessions = vec![session("orphan", "/tmp/orphan.jsonl", Some("/tmp/gone.jsonl"), 10)];
    let roots = build_session_tree(&sessions, &no_paths());
    assert_eq!(roots.len(), 1);
    assert_eq!(roots[0].session.id, "orphan");
}

#[test]
fn flatten_tree_marks_depth_and_last_flags() {
    let sessions = vec![
        session("r", "/tmp/r.jsonl", None, 100),
        session("c1", "/tmp/c1.jsonl", Some("/tmp/r.jsonl"), 90),
        session("c2", "/tmp/c2.jsonl", Some("/tmp/r.jsonl"), 80),
        session("g", "/tmp/g.jsonl", Some("/tmp/c1.jsonl"), 70),
    ];
    let roots = build_session_tree(&sessions, &no_paths());
    let flat = flatten_session_tree(&roots);
    let ids: Vec<&str> = flat.iter().map(|n| n.session.id.as_str()).collect();
    assert_eq!(ids, vec!["r", "c1", "g", "c2"]);

    assert_eq!(flat[0].depth, 0);
    assert!(flat[0].is_last);

    // c1 has a following sibling (c2).
    assert_eq!(flat[1].depth, 1);
    assert!(!flat[1].is_last);
    assert_eq!(flat[1].ancestor_continues, vec![false]);

    // Grandchild under c1: the root-level ancestor never continues; c1 does.
    assert_eq!(flat[2].depth, 2);
    assert!(flat[2].is_last);
    assert_eq!(flat[2].ancestor_continues, vec![false, true]);

    assert_eq!(flat[3].depth, 1);
    assert!(flat[3].is_last);
}

#[test]
fn tree_prefix_shapes() {
    let mut node = FlatSessionNode {
        session: session("x", "/tmp/x.jsonl", None, 1),
        depth: 0,
        is_last: true,
        ancestor_continues: vec![],
    };
    assert_eq!(SessionList::build_tree_prefix(&node), "");

    node.depth = 2;
    node.is_last = false;
    node.ancestor_continues = vec![false, true];
    assert_eq!(SessionList::build_tree_prefix(&node), "   │  ├─ ");

    node.depth = 1;
    node.is_last = true;
    node.ancestor_continues = vec![false];
    assert_eq!(SessionList::build_tree_prefix(&node), "   └─ ");
}

#[test]
fn links_to_one_file_are_followed() {
    let paths = CanonicalPaths {
        entries: vec![("/link.jsonl".to_owned(), "/real.jsonl".to_owned())],
    };
    let sessions = vec![
        session("parent", "/real.jsonl", None, 1),
        session("child", "/child.jsonl", Some("/link.jsonl"), 2),
    ];
    let roots = build_session_tree(&sessions, &paths);
    assert_eq!(roots.len(), 1);
    assert_eq!(roots[0].children[0].session.id, "child");
}

#[test]
fn every_session_of_a_forked_history_is_listed_once() {
    let mut sessions = Vec::new();
    for i in 0..30_i64 {
        let parent = if i % 4 == 0 { None } else { Some(format!("/s{}.jsonl", i / 2)) };
        sessions.push(session(
            &format!("s{i}"),
            &format!("/s{i}.jsonl"),
            parent.as_deref(),
            (i * 7) % 11,
        ));
    }
    let flat = flatten_session_tree(&build_session_tree(&sessions, &no_paths()));
    assert_eq!(flat.len(), 30);
    for s in &sessions {
        assert_eq!(flat.iter().filter(|n| n.session.id == s.id).count(), 1);
    }
    for n in &flat {
        assert_eq!(n.depth, n.ancestor_continues.len());
    }
}

#[test]
fn a_cycle_of_parents_is_cut_off() {
    let sessions = vec![
        session("a", "/a.jsonl", Some("/b.jsonl"), 1),
        session("b", "/b.jsonl", Some("/a.jsonl"), 2),
    ];
    assert!(build_session_tree(&sessions, &no_paths()).is_empty());
}

#[test]
fn deleting_takes_a_confirmation() {
    let mut list = list_of(
        vec![session("a", "/a.jsonl", None, 1), session("b", "/b.jsonl", None, 2)],
        Some("/b.jsonl"),
    );
    assert_eq!(list.handle_input(&press(&["app.session.delete"])), ListAction::StartDelete);
    assert_eq!(list.confirming_delete_path.as_deref(), Some("/a.jsonl"));
    assert_eq!(list.handle_input(&press(&["tui.select.down"])), ListAction::Ignore);
    assert_eq!(list.handle_input(&press(&["tui.select.cancel"])), ListAction::CancelDelete);
    assert_eq!(list.confirming_delete_path, None);
    list.take_events();

    list.handle_input(&press(&["app.session.delete"]));
    list.handle_input(&press(&["tui.select.confirm"]));
    assert_eq!(
        list.take_events(),
        vec![
            SessionListEvent::DeleteConfirmationChange(Some("/a.jsonl".to_owned())),
            SessionListEvent::DeleteConfirmationChange(None),
            SessionListEvent::DeleteSession("/a.jsonl".to_owned()),
        ]
    );
}

#[test]
fn the_current_session_cannot_be_deleted() {
    let mut list = list_of(vec![session("b", "/b.jsonl", None, 2)], Some("/b.jsonl"));
    list.handle_input(&press(&["app.session.delete"]));
    assert_eq!(list.confirming_delete_path, None);
    assert_eq!(
        list.take_events(),
        vec![SessionListEvent::Error("Cannot delete the currently active session".to_owned())]
    );
}

#[test]
fn list_keys_move_and_select() {
    let mut list = list_of(
        (0..25).map(|i| session(&format!("s{i}"), &format!("/s{i}"), None, i)).collect(),
        None,
    );
    list.handle_input(&press(&["tui.select.pageDown"]));
    assert_eq!(list.selected_index, 10);
    list.handle_input(&press(&["tui.select.up"]));
    assert_eq!(list.selected_index, 9);
    list.handle_input(&press(&["tui.select.confirm"]));
    list.handle_input(&press(&["tui.input.tab"]));
    list.handle_input(&press(&["app.session.togglePath"]));
    list.handle_input(&press(&["tui.select.cancel"]));
    assert_eq!(
        list.take_events(),
        vec![
            SessionListEvent::Select("/s9".to_owned()),
            SessionListEvent::ToggleScope,
            SessionListEvent::TogglePath(true),
            SessionListEvent::Cancel,
        ]
    );
    assert_eq!(list.scroll_text().as_deref(), Some("  (10/25)"));
    let rows = list.visible_rows(0, None);
    assert_eq!(rows.len(), 10);
    let cuts: Vec<RowCut> = rows
        .iter()
        .map(|row| RowCut {
            message: whole(row.message.len()),
            prefix_width: row.prefix.chars().count(),
            right_width: row.right.len(),
        })
        .collect();
    let keys = KeyTable { bindings: Vec::new(), macos: false };
    let pieces = list.render(&keys, 0, None, &cuts, 60);
    assert_eq!(pieces.len(), 13);
    assert!(matches!(&pieces[0], Piece::Input));
    match &pieces[2] {
        Piece::Row { spans, background, ellipsis } => {
            let (expected, line) = rows[0].line(
                &Measured { text: rows[0].message.clone(), width: rows[0].message.len() },
                cuts[0].prefix_width,
                cuts[0].right_width,
                60,
            );
            assert_eq!(plain_text(spans), plain_text(&line));
            assert_eq!(plain_text(spans).chars().count(), 60);
            assert_eq!(*background, expected);
            assert_eq!(ellipsis, "...");
        }
        _ => panic!("a row comes below the search"),
    }
    match &pieces[12] {
        Piece::Row { spans, ellipsis, .. } => {
            assert_eq!(plain_text(spans), "  (10/25)");
            assert_eq!(ellipsis, "");
        }
        _ => panic!("the position comes last"),
    }
    assert_eq!(rows.iter().filter(|r| r.selected).count(), 1);
}

#[test]
fn rows_show_one_line() {
    assert_eq!(to_single_line(" a\u{7}b\nc "), "a b c");
    assert_eq!(position_text(2, 12), "  (3/12)");
    assert_eq!(message_columns(20, 3, 40), 10);
    assert_eq!(row_spacing(20, 5, 5), 10);
    assert_eq!(row_spacing(4, 5, 5), 1);
    let row = SessionRow {
        selected: true,
        prefix: "└ ".to_owned(),
        message: "message".to_owned(),
        message_color: None,
        right: "now".to_owned(),
        right_color: ThemeColor::Dim,
    };
    let cut = Measured { text: "mess".to_owned(), width: 4 };
    let (bg, line) = row.line(&cut, 2, 3, 14);
    assert_eq!(bg, Some(ThemeBg::SelectedBg));
    assert_eq!(plain_text(&line), "› └ mess   now");
    let title = Measured { text: "Resume".to_owned(), width: 6 };
    let right = vec![Span { text: "all".to_owned(), color: None, bold: false, italic: false }];
    assert_eq!(plain_text(&first_line(&title, right, 3, 12)), "Resume   all");
}

#[test]
fn header_lines_fit_the_width() {
    assert_eq!(left_columns(30, 10), 19);
    assert_eq!(header_spacing(30, 10, 10), 10);
    let mut header =
        SessionSelectorHeader::new(SessionScope::Current, SortMode::Threaded, NameFilter::All);
    header.set_status_message(
        Some(StatusMessage { is_error: true, message: "no".to_owned() }),
        Some(3000),
        1000,
    );
    let keys = KeyTable { bindings: Vec::new(), macos: false };
    let cuts = || HeaderCuts { left: whole(31), right: whole_line(55) };
    let (title, first, second) = header.render(&keys, 3999, cuts(), 90);
    assert_eq!(
        plain_text(&title),
        "Resume Session (Current Folder)    ◉ Current Folder | ○ All  Name: All  Sort: Threaded"
    );
    assert_eq!(plain_text(&first.spans), "no");
    assert!(second.spans.is_empty());
    header.expire_status(3999);
    assert!(header.status_message.is_some());
    header.expire_status(4000);
    assert!(header.status_message.is_none());
}

#[test]
fn trash_is_tried_before_unlinking() {
    assert_eq!(trash_arguments("/a"), vec!["/a"]);
    assert_eq!(trash_arguments("-a"), vec!["--", "-a"]);
    let failed = TrashOutcome::Ran { success: false, stderr: " nope\nmore ".to_owned() };
    assert!(matches!(after_trash(&failed, true), AfterTrash::Unlink));
    match after_trash(&failed, false) {
        AfterTrash::Done(result) => {
            assert!(result.ok);
            assert_eq!(result.method, DeleteMethod::Trash);
        }
        AfterTrash::Unlink => panic!("the file is gone"),
    }
    assert_eq!(trash_error_hint(&failed).as_deref(), Some("trash: nope"));
    let result = after_unlink(Some("denied".to_owned()), &failed);
    assert!(!result.ok);
    assert_eq!(result.error.as_deref(), Some("denied (trash: nope)"));
    let result = after_unlink(None, &failed);
    assert!(result.ok);
    assert_eq!(result.method, DeleteMethod::Unlink);
    let missing = TrashOutcome::NotStarted("not found".to_owned());
    assert_eq!(trash_error_hint(&missing).as_deref(), Some("trash: not found"));
}

#[test]
fn selector_loads_toggles_and_renames() {
    let mut selector = SessionSelectorComponent::new(true, None, no_paths(), None);
    selector.start_load(SessionScope::Current);
    assert!(selector.current_loading);
    selector.finish_load(
        SessionScope::Current,
        LoadReason::Initial,
        Ok(vec![session("a", "/a.jsonl", None, 1)]),
        &Vec::new(),
        0,
    );
    assert!(!selector.current_loading);
    assert_eq!(selector.session_list.filtered_sessions.len(), 1);

    let before = selector.sort_mode;
    selector.toggle_sort_mode(&Vec::new());
    assert_ne!(selector.sort_mode, before);
    selector.toggle_sort_mode(&Vec::new());
    selector.toggle_sort_mode(&Vec::new());
    assert_eq!(selector.sort_mode, before);

    assert_eq!(selector.handle_rename_request("/a.jsonl"), Some(String::new()));
    assert_eq!(selector.mode, SelectorMode::Rename);
    assert_eq!(
        selector.confirm_rename(" new name "),
        Some(("/a.jsonl".to_owned(), "new name".to_owned()))
    );

    let request = selector.process_list_event(
        SessionListEvent::Select("/a.jsonl".to_owned()),
        &Vec::new(),
        0,
    );
    assert!(matches!(request, SelectorRequest::Select(path) if path == "/a.jsonl"));
    let deleted = DeleteResult { ok: true, method: DeleteMethod::Trash, error: None };
    assert!(selector.finish_delete("/a.jsonl", &deleted, &Vec::new(), 0));
    assert!(selector.session_list.filtered_sessions.is_empty());
}

fn loaded() -> SessionSelectorComponent {
    let mut selector = SessionSelectorComponent::new(true, None, no_paths(), None);
    selector.start_load(SessionScope::Current);
    selector.finish_load(
        SessionScope::Current,
        LoadReason::Initial,
        Ok(vec![session("a", "/a.jsonl", None, 1)]),
        &Vec::new(),
        0,
    );
    selector
}

#[test]
fn key_presses_reach_the_list_and_the_owner() {
    let mut selector = loaded();
    let none = Vec::new();
    let (target, requests) = selector.handle_input(&press(&["app.session.delete"]), &none, 0);
    assert_eq!(target, KeyTarget::Nothing);
    assert_eq!(requests, vec![SelectorRequest::Redraw]);
    assert_eq!(selector.header.confirming_delete_path.as_deref(), Some("/a.jsonl"));
    let (_, requests) = selector.handle_input(&press(&["tui.select.confirm"]), &none, 0);
    assert_eq!(
        requests,
        vec![SelectorRequest::Redraw, SelectorRequest::Delete("/a.jsonl".to_owned())]
    );
    assert_eq!(selector.header.confirming_delete_path, None);
    let (target, requests) = selector.handle_input(&press(&[]), &none, 0);
    assert_eq!(target, KeyTarget::SearchInput);
    assert!(requests.is_empty());
    let (_, requests) = selector.handle_input(&press(&["app.session.rename"]), &none, 0);
    assert_eq!(requests, vec![SelectorRequest::EditName(String::new())]);
    let (target, _) = selector.handle_input(&press(&["tui.select.up"]), &none, 0);
    assert_eq!(target, KeyTarget::NameInput);
    let (target, requests) = selector.handle_input(&press(&["tui.select.cancel"]), &none, 0);
    assert_eq!((target, requests), (KeyTarget::Nothing, vec![SelectorRequest::Redraw]));
    assert_eq!(selector.mode, SelectorMode::List);
}

fn shown(piece: &Piece) -> String {
    match piece {
        Piece::Text { spans, .. } | Piece::Line(spans) | Piece::Row { spans, .. } => {
            plain_text(spans)
        }
        Piece::Border(_) => "---".to_owned(),
        Piece::Input => "input".to_owned(),
        _ => String::new(),
    }
}

fn cuts() -> SelectorCuts {
    SelectorCuts {
        header: HeaderCuts { left: whole(31), right: whole_line(51) },
        rows: vec![RowCut { message: whole(7), prefix_width: 0, right_width: 5 }],
        wall_ms: 1,
        now_ms: 0,
    }
}

#[test]
fn the_selector_shows_its_list_or_the_name_input() {
    let mut selector = loaded();
    let keys = KeyTable { bindings: Vec::new(), macos: false };
    let lines: Vec<String> =
        selector.render(&keys, None, cuts(), 90).iter().map(shown).collect();
    assert_eq!(lines[..3], ["", "---", ""]);
    assert!(lines[3].starts_with("Resume Session (Current Folder)"));
    assert_eq!(lines[6..9], ["", "input", ""]);
    assert!(lines[9].starts_with("› first a"));
    assert!(lines[9].ends_with("1 now"));
    assert_eq!(lines[10..], ["", "---"]);
    selector.handle_input(&press(&["app.session.rename"]), &Vec::new(), 0);
    let lines: Vec<String> =
        selector.render(&keys, None, cuts(), 90).iter().map(shown).collect();
    assert_eq!(lines[3..6], ["Rename Session", "", "input"]);
    assert_eq!(lines[7], " to save ·  to cancel");
}

#[test]
fn texts_are_fitted_into_columns() {
    let cut = |text: &str| TextCut {
        width: 10,
        cut: Measured { text: text.to_owned(), width: text.len() },
    };
    let shown = |max: usize, text: &str| {
        let fitted = fit_text("0123456789", &cut(text), max, "...");
        (fitted.text, fitted.width)
    };
    assert_eq!(shown(10, ""), ("0123456789".to_owned(), 10));
    assert_eq!(shown(9, "012345"), ("012345...".to_owned(), 9));
    assert_eq!(shown(2, ""), ("..".to_owned(), 2));
    assert_eq!(shown(0, ""), (String::new(), 0));
    let span = |text: &str| Span { text: text.to_owned(), color: None, bold: false, italic: false };
    let line = LineCut {
        width: 6,
        cut: MeasuredLine { spans: vec![span("ab"), span("c")], width: 3 },
    };
    let fitted = fit_line(vec![span("ab"), span("cdef")], line, 4, span("…"));
    assert_eq!(plain_text(&fitted.spans), "abc…");
    assert_eq!(fitted.width, 4);
}

#[test]
fn long_messages_are_cut_in_their_rows() {
    let mut selector = loaded();
    let keys = KeyTable { bindings: Vec::new(), macos: false };
    let narrow = SelectorCuts {
        rows: vec![RowCut {
            message: TextCut {
                width: 30,
                cut: Measured { text: "012345678".to_owned(), width: 9 },
            },
            prefix_width: 0,
            right_width: 5,
        }],
        ..cuts()
    };
    let lines: Vec<String> = selector.render(&keys, None, narrow, 19).iter().map(shown).collect();
    assert!(lines[9].starts_with("› 012345678… "));
}

#[test]
fn cycles_do_not_hide_other_sessions() {
    let sessions = vec![
        session("a", "/a", Some("/b"), 1),
        session("b", "/b", Some("/a"), 2),
        session("c", "/c", None, 3),
        session("d", "/d", Some("/c"), 4),
    ];
    let flat = flatten_session_tree(&build_session_tree(&sessions, &no_paths()));
    let ids: Vec<&str> = flat.iter().map(|node| node.session.id.as_str()).collect();
    assert_eq!(ids, vec!["c", "d"]);
}

#[test]
fn links_are_looked_up_again() {
    let mut list = SessionList::new(
        vec![
            session("parent", "/real.jsonl", None, 1),
            session("child", "/child.jsonl", Some("/link.jsonl"), 2),
        ],
        false,
        SortMode::Threaded,
        NameFilter::All,
        no_paths(),
        Some("/real.jsonl".to_owned()),
    );
    assert!(list.filtered_sessions.iter().all(|node| node.depth == 0));
    assert!(!list.is_current_session_path("/link.jsonl"));
    let paths = CanonicalPaths {
        entries: vec![("/link.jsonl".to_owned(), "/real.jsonl".to_owned())],
    };
    list.set_canonical_paths(paths, &Vec::new());
    let depths: Vec<usize> = list.filtered_sessions.iter().map(|node| node.depth).collect();
    assert_eq!(depths, vec![0, 1]);
    assert!(list.is_current_session_path("/link.jsonl"));
}
