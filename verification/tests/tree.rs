use pi_interactive::columns::{grapheme_like_segments, slice_by_column, LinePiece};
use pi_interactive::entries::{Block, Content, EntryKind, Message, SessionEntry};
use pi_interactive::label_times::{
    format_label_time, format_label_timestamp, show_timestamp, CivilTime,
};
use pi_interactive::keybinding_hints::{BoundKeys, KeyMatches, KeyTable};
use pi_interactive::tool_calls::{describe_call, format_tool_call, read_arguments};
use pi_interactive::tree_arena::EntryTreeNode;
use pi_interactive::tree_component::{
    label_action, LabelAction, TreeSelectorComponent,
    TreeSelectorRequest,
};
use pi_interactive::tree_help::{compact_raw_keys, format_help_keys, pack_help, write_help};
use pi_interactive::tree_input::TreeRequest;
use pi_interactive::transcript::Piece;
use pi_interactive::tree_rows::{horizontal_scroll, RowExtent};
use pi_interactive::tree_screen::RowMeasure;
use pi_interactive::tree_selector::{check_tokens, FilterMode, TreeList};
use pi_interactive::style::plain_text;

fn message(role: &str, content: Content) -> EntryKind {
    EntryKind::Message(Message {
        role: role.to_owned(),
        content,
        stop_reason: None,
        error_message: None,
        tool_call_id: None,
        tool_name: None,
        command: None,
    })
}

fn user(text: &str) -> EntryKind {
    message("user", Content::Text(text.to_owned()))
}

fn assistant(text: &str) -> EntryKind {
    message("assistant", Content::Blocks(vec![Block::Text(text.to_owned())]))
}

fn node(id: &str, parent: Option<&str>, kind: EntryKind, children: Vec<EntryTreeNode>) -> EntryTreeNode {
    EntryTreeNode {
        entry: SessionEntry {
            id: id.to_owned(),
            parent_id: parent.map(str::to_owned),
            kind,
        },
        children,
        label: None,
        label_timestamp: None,
    }
}

/// r(user) -> a1(assistant) -> u2(user) -> {a3a(assistant), a3b(assistant)}
/// plus l1(label entry) under u2.
fn test_tree() -> Vec<EntryTreeNode> {
    let a3a = node("a3a", Some("u2"), assistant("branch one"), Vec::new());
    let a3b = node("a3b", Some("u2"), assistant("branch two"), Vec::new());
    let l1 = node(
        "l1",
        Some("u2"),
        EntryKind::Label { label: Some("bookmark".to_owned()) },
        Vec::new(),
    );
    let u2 = node("u2", Some("a1"), user("second question"), vec![a3a, a3b, l1]);
    let a1 = node("a1", Some("r"), assistant("hi"), vec![u2]);
    vec![node("r", None, user("hello world"), vec![a1])]
}

fn ids(list: &TreeList) -> Vec<&str> {
    list.filtered_nodes.iter().map(|&f| list.node_id(f)).collect()
}

fn selected(list: &TreeList) -> Option<&str> {
    list.get_selected_entry().map(|e| e.id.as_str())
}

fn press(ids: &[&str]) -> KeyMatches {
    KeyMatches { ids: ids.iter().map(|s| (*s).to_owned()).collect() }
}

fn type_text(list: &mut TreeList, text: &str) {
    for ch in text.chars() {
        list.handle_input(&press(&[]), &ch.to_string());
    }
}

#[test]
fn default_filter_hides_settings_entries_and_selects_leaf() {
    let list = TreeList::new(test_tree(), Some("a3a"), 10, None, None);
    // Label entry hidden; active branch (a3a) ordered before a3b.
    assert_eq!(ids(&list), vec!["r", "a1", "u2", "a3a", "a3b"]);
    assert_eq!(selected(&list), Some("a3a"));
}

#[test]
fn user_only_filter_keeps_user_messages() {
    let list = TreeList::new(test_tree(), Some("a3a"), 10, None, Some(FilterMode::UserOnly));
    assert_eq!(ids(&list), vec!["r", "u2"]);
}

#[test]
fn all_filter_shows_label_entries() {
    let list = TreeList::new(test_tree(), Some("a3a"), 10, None, Some(FilterMode::All));
    assert_eq!(list.filtered_nodes.len(), 6);
}

#[test]
fn typing_searches_and_escape_clears() {
    let mut list = TreeList::new(test_tree(), Some("a3a"), 10, None, None);
    type_text(&mut list, "branch");
    assert_eq!(list.get_search_query(), "branch");
    assert_eq!(ids(&list), vec!["a3a", "a3b"]);

    // Escape clears the search instead of cancelling.
    let request = list.handle_input(&press(&["tui.select.cancel"]), "\x1b");
    assert!(matches!(request, TreeRequest::Nothing));
    assert_eq!(list.get_search_query(), "");
    assert_eq!(list.filtered_nodes.len(), 5);

    // Second escape (no search active) cancels.
    let request = list.handle_input(&press(&["tui.select.cancel"]), "\x1b");
    assert!(matches!(request, TreeRequest::Cancel));
}

#[test]
fn arrows_wrap_and_confirm_selects() {
    let mut list = TreeList::new(test_tree(), Some("a3b"), 10, None, None);
    assert_eq!(selected(&list), Some("a3b"));
    // Active branch sorts first: order is r, a1, u2, a3b, a3a.
    list.handle_input(&press(&["tui.select.down"]), "\x1b[B");
    assert_eq!(selected(&list), Some("a3a"));
    // a3a is the last visible row: down wraps to the top.
    list.handle_input(&press(&["tui.select.down"]), "\x1b[B");
    assert_eq!(selected(&list), Some("r"));
    // Up wraps back to the bottom.
    list.handle_input(&press(&["tui.select.up"]), "\x1b[A");
    assert_eq!(selected(&list), Some("a3a"));

    let request = list.handle_input(&press(&["tui.select.confirm"]), "\r");
    assert!(matches!(request, TreeRequest::Select(id) if id == "a3a"));
}

#[test]
fn copy_extracts_full_text() {
    let list = TreeList::new(test_tree(), Some("a3a"), 10, Some("r"), None);
    assert_eq!(list.copy_selected(), Some("hello world".to_owned()));
}

#[test]
fn update_node_label_sets_and_clears() {
    let mut list = TreeList::new(test_tree(), Some("a3a"), 10, None, None);
    let now = "2027-01-01T00:00:00.000Z";
    list.update_node_label("u2", Some("important"), Some("2026-01-02T03:04:05.000Z"), now);
    let found = list.arena.iter().find(|n| n.entry.id == "u2").unwrap();
    assert_eq!(found.label.as_deref(), Some("important"));
    assert_eq!(found.label_timestamp.as_deref(), Some("2026-01-02T03:04:05.000Z"));
    list.update_node_label("u2", None, None, now);
    let found = list.arena.iter().find(|n| n.entry.id == "u2").unwrap();
    assert_eq!(found.label, None);
    assert_eq!(found.label_timestamp, None);
}

#[test]
fn labels_are_dated_now_unless_told_otherwise() {
    let mut list = TreeList::new(test_tree(), Some("a3a"), 10, None, None);
    list.update_node_label("u2", Some("x"), None, "2027-01-01T00:00:00.000Z");
    let found = list.arena.iter().find(|n| n.entry.id == "u2").unwrap();
    assert_eq!(found.label_timestamp.as_deref(), Some("2027-01-01T00:00:00.000Z"));
}

#[test]
fn tool_call_formatting() {
    assert_eq!(
        format_tool_call("read", r#"{"path": "/x/y.rs", "offset": 5, "limit": 10}"#, None),
        "[read: /x/y.rs:5-14]"
    );
    assert_eq!(format_tool_call("bash", r#"{"command": "echo hi"}"#, None), "[bash: echo hi]");
    assert_eq!(format_tool_call("grep", r#"{"pattern": "foo"}"#, None), "[grep: /foo/ in .]");
    assert_eq!(format_tool_call("ls", "{}", None), "[ls: .]");
}

#[test]
fn tool_arguments_are_read_from_json() {
    let args = read_arguments(r#"{"path": "ab", "offset": 3, "x": [1, 2]}"#);
    assert_eq!(args.path, "ab");
    assert_eq!(args.offset, Some(3));
    assert_eq!(args.limit, None);
    assert_eq!(args.json, r#"{"offset":3,"path":"ab","x":[1,2]}"#);
    assert_eq!(
        describe_call("custom", &read_arguments(r#"{"k": 1}"#), None),
        r#"[custom: {"k":1}]"#
    );
}

#[test]
fn slice_by_column_preserves_ansi_and_strict_wide_chars() {
    let cluster = |text: &str, width: usize| LinePiece::Cluster { text: text.to_owned(), width };
    // Plain slice.
    let mut plain: Vec<LinePiece> = "abcdef".chars().map(|c| cluster(&c.to_string(), 1)).collect();
    assert_eq!(slice_by_column(&plain, 2, 3, true), "cde");
    // ANSI codes before the range are carried into the slice.
    plain.insert(0, LinePiece::Code("\x1b[31m".to_owned()));
    plain.push(LinePiece::Code("\x1b[0m".to_owned()));
    let sliced = slice_by_column(&plain, 2, 3, true);
    assert!(sliced.contains("cde"));
    assert!(sliced.starts_with("\x1b[31m"));
    // Strict mode drops a wide char that would straddle the boundary.
    let wide = vec![cluster("a", 1), cluster("你", 2), cluster("b", 1)];
    assert_eq!(slice_by_column(&wide, 0, 2, true), "a");
}

#[test]
fn zero_width_characters_join_what_they_follow() {
    assert_eq!(
        grapheme_like_segments(&vec!['e', '\u{301}', 'x'], &vec![1, 0, 1]),
        vec!["e\u{301}", "x"]
    );
}

#[test]
fn compact_raw_keys_merges_shared_prefixes() {
    assert_eq!(
        compact_raw_keys(&vec!["ctrl+left".to_owned(), "ctrl+right".to_owned()]),
        "ctrl+left/right"
    );
    assert_eq!(
        compact_raw_keys(&vec!["ctrl+d".to_owned(), "alt+t".to_owned()]),
        "ctrl+d/alt+t"
    );
    assert_eq!(compact_raw_keys(&vec!["up".to_owned()]), "up");
}

#[test]
fn render_shows_status_line() {
    let list = TreeList::new(test_tree(), Some("a3a"), 10, None, None);
    assert!(list.status_line().contains("(4/5)"));
    let rows = list.visible_rows(None);
    assert!(rows.iter().any(|r| plain_text(&r.content).contains("user: hello world")));
}

#[test]
fn help_names_the_keys() {
    let table = KeyTable {
        bindings: vec![
            BoundKeys {
                id: "a".to_owned(),
                keys: vec!["ctrl+left".to_owned(), "up".to_owned()],
            },
            BoundKeys { id: "b".to_owned(), keys: vec!["pageup".to_owned()] },
        ],
        macos: false,
    };
    let shown = format_help_keys(&table, &vec!["a".to_owned(), "b".to_owned()]);
    assert!(shown.contains('←'), "{shown}");
    assert!(!shown.contains("left"), "{shown}");
}

#[test]
fn help_is_packed_into_lines() {
    let items = vec!["aaa".to_owned(), "bbb".to_owned(), "ccc".to_owned()];
    let wide = pack_help(&items, &vec![3, 3, 3], 100);
    assert_eq!(wide.len(), 1);
    let narrow = pack_help(&items, &vec![3, 3, 3], 4);
    assert_eq!(narrow.len(), 3);
}

#[test]
fn filter_modes_have_names() {
    for mode in [
        FilterMode::Default,
        FilterMode::NoTools,
        FilterMode::UserOnly,
        FilterMode::LabeledOnly,
        FilterMode::All,
    ] {
        assert_eq!(FilterMode::parse(mode.as_str()), Some(mode));
    }
    assert_eq!(FilterMode::NoTools.as_str(), "no-tools");
    assert_eq!(FilterMode::parse("bogus"), None);
}

#[test]
fn filter_keys_toggle_and_cycle() {
    let mut list = TreeList::new(test_tree(), Some("a3a"), 10, None, None);
    list.handle_input(&press(&["app.tree.filter.userOnly"]), "");
    assert_eq!(list.filter_mode(), FilterMode::UserOnly);
    list.handle_input(&press(&["app.tree.filter.userOnly"]), "");
    assert_eq!(list.filter_mode(), FilterMode::Default);
    list.handle_input(&press(&["app.tree.filter.cycleForward"]), "");
    list.handle_input(&press(&["app.tree.filter.cycleBackward"]), "");
    assert_eq!(list.filter_mode(), FilterMode::Default);
    list.handle_input(&press(&["app.tree.filter.labeledOnly"]), "");
    assert!(list.filtered_nodes.is_empty());
}

#[test]
fn the_selection_follows_its_node_through_filters() {
    let mut list = TreeList::new(test_tree(), Some("a3a"), 10, Some("u2"), None);
    assert_eq!(selected(&list), Some("u2"));
    list.handle_input(&press(&["app.tree.filter.userOnly"]), "");
    assert_eq!(selected(&list), Some("u2"));
    list.handle_input(&press(&["app.tree.filter.all"]), "");
    assert_eq!(selected(&list), Some("u2"));
}

#[test]
fn unfolding_shows_what_folding_hid() {
    let mut list = TreeList::new(test_tree(), Some("a3a"), 10, Some("r"), None);
    let before: Vec<String> = ids(&list).iter().map(|s| (*s).to_owned()).collect();
    list.handle_input(&press(&["app.tree.foldOrUp"]), "");
    assert_eq!(ids(&list), vec!["r"]);
    assert_eq!(selected(&list), Some("r"));
    list.handle_input(&press(&["app.tree.unfoldOrDown"]), "");
    assert_eq!(ids(&list), before);
    assert_eq!(selected(&list), Some("r"));
}

#[test]
fn silent_assistant_messages_are_hidden_unless_in_use() {
    let quiet = |id: &str| {
        node(
            id,
            Some("r"),
            message(
                "assistant",
                Content::Blocks(vec![Block::ToolCall {
                    id: "c".to_owned(),
                    name: "bash".to_owned(),
                    arguments: "{}".to_owned(),
                }]),
            ),
            Vec::new(),
        )
    };
    let tree = || vec![node("r", None, user("q"), vec![quiet("s")])];
    let other = TreeList::new(tree(), Some("r"), 10, None, None);
    assert_eq!(ids(&other), vec!["r"]);
    let current = TreeList::new(tree(), Some("s"), 10, None, None);
    assert_eq!(ids(&current), vec!["r", "s"]);
}

#[test]
fn wide_rows_scroll_to_the_selection() {
    let rows = vec![
        RowExtent { anchor_col: 0, body_width: 10, selected: false },
        RowExtent { anchor_col: 60, body_width: 90, selected: true },
    ];
    assert_eq!(horizontal_scroll(&rows, 100), 0);
    assert_eq!(horizontal_scroll(&rows, 30), 53);
}

#[test]
fn label_times_get_shorter_when_recent() {
    let now = CivilTime { year: 2026, month: 11, day: 16, hour: 12, minute: 0 };
    let today = CivilTime { year: 2026, month: 11, day: 16, hour: 9, minute: 5 };
    assert_eq!(format_label_time(today, now), "09:05");
    let this_year = CivilTime { year: 2026, month: 2, day: 3, hour: 9, minute: 5 };
    assert!(format_label_time(this_year, now).ends_with("09:05"));
    let earlier = CivilTime { year: 2024, month: 2, day: 3, hour: 9, minute: 5 };
    assert!(format_label_time(earlier, now).len() > format_label_time(this_year, now).len());
}

#[test]
fn labels_are_edited_in_the_component() {
    let mut component =
        TreeSelectorComponent::new(test_tree(), Some("a3a"), 40, Some("u2"), None, 0);
    assert!(!component.fire_empty_tree_cancel(1000));
    let (request, _) =
        component.handle_input(&press(&["app.tree.editLabel"]), "L", "", "now", 0);
    assert!(matches!(request, TreeSelectorRequest::ShowLabelInput(None)));
    let (request, cancel) =
        component.handle_input(&press(&["tui.select.confirm"]), "\r", " mark ", "now", 1000);
    assert!(!cancel);
    assert!(matches!(
        request,
        TreeSelectorRequest::LabelChanged { id, label } if id == "u2" && label.as_deref() == Some("mark")
    ));
    assert!(matches!(label_action("u2", &press(&["tui.select.cancel"]), "x"), LabelAction::Cancel));
    assert!(matches!(label_action("u2", &press(&[]), "x"), LabelAction::Edit));
    assert!(matches!(
        label_action("u2", &press(&["tui.select.confirm"]), "  "),
        LabelAction::Submit { label: None, .. }
    ));
}

#[test]
fn an_empty_tree_cancels_itself_once() {
    let mut component = TreeSelectorComponent::new(Vec::new(), None, 40, None, None, 0);
    assert!(!component.fire_empty_tree_cancel(50));
    assert!(component.fire_empty_tree_cancel(100));
    assert!(!component.fire_empty_tree_cancel(200));
    let mut component = TreeSelectorComponent::new(Vec::new(), None, 40, None, None, 0);
    let (request, cancel) = component.handle_input(&press(&["tui.select.up"]), "", "", "", 100);
    assert_eq!(request, TreeSelectorRequest::Nothing);
    assert!(cancel);
}

fn shown(piece: &Piece) -> String {
    match piece {
        Piece::Text { spans, .. } | Piece::Line(spans) | Piece::Row { spans, .. } => {
            plain_text(spans)
        }
        Piece::Scrolled { gutter, body, start, columns, .. } => {
            format!("{}[{start}+{columns}]{}", plain_text(gutter), plain_text(body))
        }
        Piece::Border(_) => "---".to_owned(),
        Piece::Input => "input".to_owned(),
        _ => String::new(),
    }
}

fn today() -> CivilTime {
    CivilTime { year: 2026, month: 7, day: 16, hour: 12, minute: 0 }
}

#[test]
fn timestamps_are_shown_in_local_time() {
    let local = |text: &str, offset: i32| format_label_timestamp(text, offset, today());
    assert_eq!(local("2026-07-16T07:05:09.000Z", 7200), "09:05");
    assert_eq!(local("2026-07-16T23:05:09Z", 7200), "7/17 01:05");
    assert_eq!(local("2025-12-31T23:30:00-05:00", -18_000), "25/12/31 23:30");
    assert_eq!(local("yesterday", 7200), "yesterday");
    assert_eq!(show_timestamp("x", Some((2026, 7, 16, 3, 4)), today()), "03:04");
    assert_eq!(show_timestamp("x", None, today()), "x");
    let mut component =
        TreeSelectorComponent::new(test_tree(), Some("a3a"), 40, Some("u2"), None, 0);
    component.tree_list.update_node_label("u2", Some("mark"), Some("2026-07-16T07:05:00Z"), "");
    component.tree_list.show_label_timestamps = true;
    let rows = component.tree_list.visible_rows(None);
    let measures: Vec<RowMeasure> = rows.iter().map(|_| measure(2, 20)).collect();
    let pieces = component.tree_list.render(None, &measures, 200, today());
    assert!(pieces.iter().any(|piece| shown(piece).contains("[mark] 09:05 ")));
}

#[test]
fn nothing_to_show_keeps_the_connections() {
    let mut list = TreeSelectorComponent::new(test_tree(), Some("a3a"), 40, None, None, 0).tree_list;
    let before = (list.multiple_roots, list.visible_children.clone());
    for ch in "zzzz".chars() {
        list.handle_input(&press(&[]), &ch.to_string());
    }
    assert!(list.filtered_nodes.is_empty());
    assert_eq!((list.multiple_roots, list.visible_children), before);
}

fn measure(anchor_col: usize, body_width: usize) -> RowMeasure {
    RowMeasure { anchor_col, body_width, offset_seconds: 7200 }
}

#[test]
fn the_tree_screen_holds_help_search_and_rows() {
    let keys = KeyTable { bindings: Vec::new(), macos: false };
    let help = write_help(&keys);
    assert_eq!(help[0], "move");
    let columns: Vec<usize> = help.iter().map(|item| item.chars().count()).collect();
    let mut component =
        TreeSelectorComponent::new(test_tree(), Some("a3a"), 40, Some("u2"), None, 0);
    let rows = component.tree_list.visible_rows(None);
    let measures: Vec<RowMeasure> = rows.iter().map(|_| measure(2, 20)).collect();
    let (pieces, cancel) = component.render(&keys, None, &columns, &measures, 200, today(), 0);
    assert!(!cancel);
    let lines: Vec<String> = pieces.iter().map(shown).collect();
    assert_eq!(lines[..3], ["", "---", "  Session Tree"]);
    assert!(lines[3].starts_with("  move · page · branch"));
    assert_eq!(lines[4..7], ["  Type to search:", "---", ""]);
    assert_eq!(lines.len(), 7 + rows.len() + 3);
    let selected = rows.iter().position(|row| row.selected).unwrap();
    assert!(lines[7 + selected].starts_with("› "));
    assert_eq!(lines[7 + rows.len()], component.tree_list.status_line());
    assert_eq!(lines[8 + rows.len()..], ["", "---"]);

    let wide: Vec<RowMeasure> = rows.iter().map(|_| measure(60, 100)).collect();
    let pieces = component.tree_list.render(None, &wide, 42, today());
    assert!(shown(&pieces[selected]).starts_with("› [50+40]"));

    component.handle_input(&press(&["app.tree.editLabel"]), "L", "", "now", 0);
    let (pieces, _) = component.render(&keys, None, &columns, &measures, 200, today(), 0);
    let lines: Vec<String> = pieces.iter().map(shown).collect();
    assert_eq!(lines[7..9], ["  Label (empty to remove):", "input"]);

    let empty = TreeSelectorComponent::new(Vec::new(), None, 40, None, None, 0);
    let pieces = empty.tree_list.render(None, &Vec::new(), 80, today());
    let lines: Vec<String> = pieces.iter().map(shown).collect();
    assert_eq!(lines, ["  No entries found", "  (0/0)"]);
}

#[test]
fn all_tokens_have_to_occur() {
    let chars = |text: &str| text.chars().collect::<Vec<char>>();
    let text = chars("user: fix the bug");
    assert!(check_tokens(&text, &vec![chars("bug"), chars("user")]));
    assert!(!check_tokens(&text, &vec![chars("bug"), chars("none")]));
    assert!(check_tokens(&text, &Vec::new()));
}
