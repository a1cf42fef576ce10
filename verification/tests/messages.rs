use pi_interactive::assistant_message::{
    describe_ending, AssistantMessage, AssistantMessageComponent, MessagePart, StopReason,
};
use pi_interactive::bash_execution::BashExecutionComponent;
use pi_interactive::diff::render_diff;
use pi_interactive::fitting::TextCut;
use pi_interactive::keybinding_hints::{KeyMatches, KeyTable};
use pi_interactive::lines::lines_of;
use pi_interactive::message_blocks::{
    BranchSummaryMessageComponent, CompactionSummaryMessageComponent, CustomEntryComponent,
    CustomMessageComponent, EntryBody, RenderedEntry, SkillInvocationMessageComponent,
    UserMessageComponent,
};
use pi_interactive::render_cache::{
    BorderedLoader, CustomEditor, DynamicBorder, EarendilAnnouncement, ExpandableText, IdleStatus,
    RenderStatus, WidthCache, BLOG_URL,
};
use pi_interactive::style::{plain_text, Measured, ThemeBg, ThemeColor};
use pi_interactive::tool_execution::{args_suffix, ResultPart, ToolExecutionComponent, ToolState};
use pi_interactive::transcript::{Frame, MarkdownOptions, Piece};
use pi_interactive::user_message_selector::{
    message_columns, to_one_line, UserMessageAction, UserMessageItem, UserMessageList,
    UserMessageSelectorComponent,
};
use pi_interactive::visual_truncate::truncate_to_visual_lines;

fn msg(id: &str, text: &str) -> UserMessageItem {
    UserMessageItem { id: id.to_owned(), text: text.to_owned(), timestamp: None }
}

fn press(ids: &[&str]) -> KeyMatches {
    KeyMatches { ids: ids.iter().map(|s| (*s).to_owned()).collect() }
}

fn text(piece: &Piece) -> String {
    match piece {
        Piece::Text { spans, .. } => plain_text(spans),
        Piece::Markdown { text, .. } => text.clone(),
        Piece::Loader { message, .. } => message.clone(),
        _ => String::new(),
    }
}

#[test]
fn initial_selection_defaults_to_most_recent() {
    let list = UserMessageList::new(vec![msg("a", "1"), msg("b", "2"), msg("c", "3")], None);
    assert_eq!(list.selected_index, 2);
}

#[test]
fn initial_selection_honors_initial_id() {
    let list = UserMessageList::new(vec![msg("a", "1"), msg("b", "2"), msg("c", "3")], Some("b"));
    assert_eq!(list.selected_index, 1);
}

#[test]
fn unknown_initial_id_falls_back_to_most_recent() {
    let list = UserMessageList::new(vec![msg("a", "1"), msg("b", "2")], Some("zzz"));
    assert_eq!(list.selected_index, 1);
}

#[test]
fn selection_wraps_both_directions() {
    let mut list = UserMessageList::new(vec![msg("a", "1"), msg("b", "2")], None);
    assert_eq!(list.selected_index, 1);
    list.handle_input(&press(&["tui.select.down"])); // down wraps to top
    assert_eq!(list.selected_index, 0);
    list.handle_input(&press(&["tui.select.up"])); // up wraps to bottom
    assert_eq!(list.selected_index, 1);
}

#[test]
fn confirm_fires_on_select_with_entry_id() {
    let mut list = UserMessageList::new(vec![msg("a", "1"), msg("b", "2")], Some("a"));
    let action = list.handle_input(&press(&["tui.select.confirm"]));
    assert_eq!(action, UserMessageAction::Select("a".to_owned()));
}

#[test]
fn escape_fires_on_cancel() {
    let mut list = UserMessageList::new(vec![msg("a", "1")], None);
    assert_eq!(list.handle_input(&press(&["tui.select.cancel"])), UserMessageAction::Cancel);
}

#[test]
fn empty_selector_requests_auto_cancel_once() {
    let mut selector = UserMessageSelectorComponent::new(Vec::new(), None);
    assert!(selector.poll_auto_cancel());
    assert!(!selector.poll_auto_cancel());
}

#[test]
fn non_empty_selector_never_auto_cancels() {
    let mut selector = UserMessageSelectorComponent::new(vec![msg("a", "1")], None);
    assert!(!selector.poll_auto_cancel());
}

#[test]
fn user_messages_show_one_line_and_their_place() {
    let list = UserMessageList::new(vec![msg("a", " x\ny "), msg("b", "z")], Some("a"));
    let rows = list.visible_rows();
    assert_eq!(rows.len(), 2);
    assert_eq!(rows[0].message.text, "x y");
    assert!(rows[0].message.bold);
    assert_eq!(rows[0].cursor.text, "› ");
    assert_eq!(rows[1].metadata.text, "  Message 2 of 2");
    assert!(list.status_line().is_none());
    let selector = UserMessageSelectorComponent::new(vec![msg("a", "long text")], None);
    let cut = TextCut { width: 9, cut: Measured { text: "long".to_owned(), width: 4 } };
    let pieces = selector.render(&vec![cut], 9);
    assert_eq!(text(&pieces[1]), "Fork from Message");
    match &pieces[6] {
        Piece::Line(spans) => assert_eq!(plain_text(spans), "› long..."),
        _ => panic!("the message is a line"),
    }
    assert_eq!(pieces.len(), 11);
    assert_eq!(to_one_line("\na\nb"), "a b");
    assert_eq!(message_columns(1), 0);
    assert_eq!(message_columns(80), 78);
    let empty = UserMessageList::new(Vec::new(), None);
    assert_eq!(empty.status_line().unwrap().text, "  No user messages found");
}

#[test]
fn renders_prefixes() {
    let spans = render_diff("-1 old\n+1 new\n 2 same");
    let output = spans.iter().map(|s| s.text.as_str()).collect::<Vec<_>>().join("\n");
    assert!(output.contains("-1 old"));
    assert!(output.contains("+1 new"));
    assert!(output.contains(" 2 same"));
    let colors: Vec<Option<ThemeColor>> = spans.iter().map(|s| s.color).collect();
    assert_eq!(
        colors,
        vec![
            Some(ThemeColor::ToolDiffRemoved),
            Some(ThemeColor::ToolDiffAdded),
            Some(ThemeColor::ToolDiffContext),
        ]
    );
}

#[test]
fn diff_lines_keep_their_text() {
    let diff = "+12    a\tb\r\nplain\n+3\n\n+1     return x";
    let spans = render_diff(diff);
    let texts: Vec<&str> = spans.iter().map(|s| s.text.as_str()).collect();
    assert_eq!(texts.join("\n"), diff);
    assert_eq!(spans[0].color, Some(ThemeColor::ToolDiffAdded));
    assert_eq!(spans[1].color, Some(ThemeColor::ToolDiffContext));
    // Without whitespace after the number a line is context.
    assert_eq!(spans[2].color, Some(ThemeColor::ToolDiffContext));
    assert_eq!(spans[4].text, "+1     return x");
    assert_eq!(render_diff("-1 a\n").len(), 1);
    assert!(render_diff("").is_empty());
}

#[test]
fn lines_end_with_newlines() {
    assert_eq!(lines_of("a\r\nb\n\nc\r"), vec!["a", "b", "", "c\r"]);
    assert!(lines_of("").is_empty());
    assert_eq!(lines_of("\n"), vec![""]);
}

#[test]
fn keeps_the_last_visual_lines() {
    // "one two three four" wraps to four lines of five columns.
    let wrapped: Vec<String> =
        ["one", "two", "three", "four"].iter().map(|s| (*s).to_owned()).collect();
    let result = truncate_to_visual_lines(&wrapped, 2);
    assert_eq!(result.visual_lines.len(), 2);
    assert_eq!(result.skipped_count, 2);
    assert_eq!(result.visual_lines, vec!["three", "four"]);
    let all = truncate_to_visual_lines(&wrapped, 9);
    assert_eq!(all.skipped_count, 0);
    assert_eq!(all.visual_lines.len(), 4);
}

#[test]
fn toggles_between_closures() {
    let mut shown =
        ExpandableText::new("short".to_owned(), "long body".to_owned(), false, 0, 0);
    assert!(shown.text().contains("short"));
    shown.set_expanded(true);
    assert!(shown.text().contains("long body"));
}

#[test]
fn bash_output_goes_on_in_the_last_line() {
    let mut block = BashExecutionComponent::new("ls".to_owned(), false);
    block.append_output("a\r\nb");
    block.append_output("c\rd\n");
    assert_eq!(block.output(), "a\nbc\nd\n");
    assert_eq!(block.command(), "ls");
    let pieces = block.rebuild();
    assert!(pieces.iter().any(|p| matches!(
        p,
        Piece::Loader { spinner: ThemeColor::BashMode, message_color: ThemeColor::Muted, .. }
    )));
    block.set_complete(Some(-3), false);
    let pieces = block.rebuild();
    assert_eq!(text(&pieces[2]), "$ ls");
    assert_eq!(text(&pieces[4]), "\n(exit -3)");
    block.set_complete(Some(0), false);
    assert_eq!(block.rebuild().len(), 5);
    block.set_complete(None, true);
    assert_eq!(text(&block.rebuild()[4]), "\n(cancelled)");
}

#[test]
fn long_bash_output_is_cut_to_its_end() {
    let mut block = BashExecutionComponent::new("seq".to_owned(), true);
    let lines: Vec<String> = (0..25).map(|i| format!("line {i}")).collect();
    block.append_output(&lines.join("\n"));
    block.set_complete(Some(0), false);
    let pieces = block.rebuild();
    assert!(text(&pieces[3]).starts_with("\nline 5\n"));
    assert_eq!(text(&pieces[4]), "\n... 5 more lines (expand to expand)");
    assert!(matches!(pieces[1], Piece::Border(ThemeColor::Dim)));
    block.set_expanded(true);
    let pieces = block.rebuild();
    assert!(text(&pieces[3]).starts_with("\nline 0\n"));
    assert_eq!(pieces.len(), 5);
}

fn reply(content: Vec<MessagePart>, stop_reason: StopReason, error: Option<&str>) -> AssistantMessage {
    AssistantMessage { content, stop_reason, error_message: error.map(str::to_owned) }
}

#[test]
fn assistant_blocks_show_text_and_thinking() {
    let mut block = AssistantMessageComponent::new(None);
    assert!(block.rebuild().is_empty());
    block.update_content(reply(
        vec![
            MessagePart::Thinking("hm".to_owned()),
            MessagePart::Text(String::new()),
            MessagePart::Text("hi".to_owned()),
        ],
        StopReason::Stop,
        None,
    ));
    let pieces = block.rebuild();
    assert_eq!(pieces.len(), 4);
    assert!(matches!(pieces[0], Piece::Spacer(1)));
    assert!(matches!(&pieces[1], Piece::Markdown { italic: true, .. }));
    assert!(matches!(pieces[2], Piece::Spacer(1)));
    assert_eq!(text(&pieces[3]), "hi");
    block.set_hide_thinking_block(true);
    assert_eq!(text(&block.rebuild()[1]), "Thinking...");
    block.set_hidden_thinking_label("psst".to_owned());
    assert_eq!(text(&block.rebuild()[1]), "psst");
}

#[test]
fn endings_are_reported() {
    let ending = |m: AssistantMessage| describe_ending(&m);
    assert_eq!(ending(reply(vec![], StopReason::Stop, Some("x"))), None);
    assert_eq!(
        ending(reply(vec![], StopReason::Aborted, Some("Request was aborted"))).as_deref(),
        Some("Operation aborted")
    );
    assert_eq!(
        ending(reply(vec![], StopReason::Aborted, Some("why"))).as_deref(),
        Some("why")
    );
    assert_eq!(
        ending(reply(vec![], StopReason::Error, None)).as_deref(),
        Some("Error: Unknown error")
    );
    assert_eq!(ending(reply(vec![MessagePart::ToolCall], StopReason::Error, None)), None);
    assert!(ending(reply(vec![MessagePart::ToolCall], StopReason::Length, None))
        .unwrap()
        .contains("maximum output token limit"));
}

#[test]
fn tool_blocks_show_arguments_and_output() {
    let mut block = ToolExecutionComponent::with_call_id(
        "id1".to_owned(),
        "bash".to_owned(),
        r#"{ "command": "ls" }"#.to_owned(),
    );
    assert_eq!(block.tool_call_id(), "id1");
    assert_eq!(block.title().text, r#"bash {"command":"ls"}"#);
    assert_eq!(block.bg(), ThemeBg::ToolPendingBg);
    block.update_args("{}".to_owned());
    assert_eq!(block.title().text, "bash");
    assert!(block.colored_output().is_none());
    block.end(
        vec![
            ResultPart::Text("a".to_owned()),
            ResultPart::Image,
            ResultPart::Text("b".to_owned()),
        ],
        true,
    );
    assert_eq!(block.state, ToolState::Error);
    assert_eq!(block.bg(), ThemeBg::ToolErrorBg);
    assert_eq!(
        block.frame(),
        Frame { padding_x: 1, padding_y: 1, background: ThemeBg::ToolErrorBg }
    );
    assert_eq!(block.output(), "a\nb");
    assert_eq!(block.colored_output().unwrap()[0].color, Some(ThemeColor::ToolOutput));
    assert!(block.more_note().is_none());
    let pieces = block.rebuild(&vec!["a".to_owned(), "b".to_owned()]);
    assert_eq!(pieces.len(), 3);
    assert_eq!(text(&pieces[0]), "bash");
    assert_eq!(text(&pieces[1]), "\na\nb");
    let images = block.image_pieces();
    assert!(matches!(images[0], Piece::Image { index: 1, max_width_cells: 60 }));
    block.set_image_width_cells(0);
    assert_eq!(block.image_width_cells, 1);
    block.set_show_images(false);
    assert!(block.image_pieces().is_empty());
}

#[test]
fn tool_blocks_color_diffs_and_note_cuts() {
    let mut block = ToolExecutionComponent::new("edit".to_owned(), "null".to_owned());
    assert_eq!(block.title().text, "edit null");
    block.update(vec![ResultPart::Text("+1 x\n".repeat(21))]);
    assert_eq!(block.colored_output().unwrap()[0].color, Some(ThemeColor::ToolDiffAdded));
    assert!(block.more_note().is_some());
    assert!(block.begin_render(80));
    assert!(!block.begin_render(80));
    block.set_expanded(true);
    assert!(block.more_note().is_none());
    assert!(block.begin_render(80));
    assert_eq!(args_suffix(&Some(Vec::new()), "{}"), "");
    assert_eq!(args_suffix(&None, "[1]"), " [1]");
}

#[test]
fn summaries_expand() {
    let mut branch = BranchSummaryMessageComponent::new("S".to_owned());
    assert_eq!(text(&branch.rebuild()[0]), "[branch]");
    assert_eq!(text(&branch.rebuild()[2]), "Branch summary (expand to expand)");
    branch.set_expanded(true);
    assert_eq!(text(&branch.rebuild()[2]), "**Branch Summary**\n\nS");

    let mut compaction = CompactionSummaryMessageComponent::new("S".to_owned(), 1234);
    assert_eq!(
        text(&compaction.rebuild()[2]),
        "Compacted from 1234 tokens (expand to expand)"
    );
    compaction.set_expanded(true);
    assert_eq!(text(&compaction.rebuild()[2]), "**Compacted from 1234 tokens**\n\nS");

    let mut skill = SkillInvocationMessageComponent::new("n".to_owned(), "c".to_owned());
    assert_eq!(text(&skill.rebuild()[0]), "[skill] n (expand to expand)");
    skill.set_expanded(true);
    assert_eq!(text(&skill.rebuild()[1]), "**n**\n\nc");

    let custom = CustomMessageComponent::new(
        "t".to_owned(),
        vec![
            MessagePart::Text("a".to_owned()),
            MessagePart::Image,
            MessagePart::Text("b".to_owned()),
        ],
    );
    assert_eq!(text(&custom.rebuild()[0]), "[t]");
    assert_eq!(text(&custom.rebuild()[2]), "a\nb");
    let one = CustomMessageComponent::from_text("t".to_owned(), "x".to_owned());
    assert_eq!(text(&one.rebuild()[2]), "x");
    let frame = Frame { padding_x: 1, padding_y: 1, background: ThemeBg::CustomMessageBg };
    for found in [branch.frame(), compaction.frame(), skill.frame(), one.frame()] {
        assert_eq!(found, frame);
    }
}

#[test]
fn custom_entries_fall_back_to_text() {
    let entry = CustomEntryComponent::new("t".to_owned(), "body".to_owned());
    let span = |body: EntryBody| match body {
        EntryBody::Text(span) => span.text,
        _ => String::new(),
    };
    assert_eq!(span(entry.rebuild(&RenderedEntry::NoRenderer)), "[t] body");
    assert_eq!(
        span(entry.rebuild(&RenderedEntry::Failed("oops".to_owned()))),
        "[t] renderer failed: oops"
    );
    assert!(CustomEntryComponent::has_content(&entry.rebuild(&RenderedEntry::Component)));
    assert!(!CustomEntryComponent::has_content(&entry.rebuild(&RenderedEntry::Nothing)));
    let empty = CustomEntryComponent::new("t".to_owned(), String::new());
    assert!(!CustomEntryComponent::has_content(&empty.rebuild(&RenderedEntry::NoRenderer)));
    let nothing = empty.rebuild(&RenderedEntry::NoRenderer);
    assert_eq!(CustomEntryComponent::lines_before(&nothing), 0);
    assert_eq!(CustomEntryComponent::frame(&nothing), None);
    let own = entry.rebuild(&RenderedEntry::Component);
    assert_eq!(CustomEntryComponent::lines_before(&own), 1);
    assert_eq!(CustomEntryComponent::frame(&own), None);
    let shown = entry.rebuild(&RenderedEntry::NoRenderer);
    assert_eq!(CustomEntryComponent::lines_before(&shown), 1);
    assert_eq!(
        CustomEntryComponent::frame(&shown),
        Some(Frame { padding_x: 1, padding_y: 1, background: ThemeBg::CustomMessageBg })
    );
}

#[test]
fn user_blocks_are_markdown() {
    let mut block = UserMessageComponent::new("hi".to_owned());
    block.set_output_pad(3);
    assert_eq!(block.text(), "hi");
    assert_eq!(
        block.frame(),
        Frame { padding_x: 3, padding_y: 1, background: ThemeBg::UserMessageBg }
    );
    let Piece::Markdown { text, padding, options, .. } = block.rebuild() else {
        panic!("the text is markdown");
    };
    assert_eq!(text, "hi");
    assert_eq!(padding, 0);
    let kept = MarkdownOptions {
        preserve_ordered_list_markers: true,
        preserve_backslash_escapes: true,
    };
    assert_eq!(options, Some(kept));
}

#[test]
fn layouts_are_kept_for_a_width() {
    let mut cache = WidthCache::new();
    assert_eq!(cache.render(10), RenderStatus::Changed);
    assert_eq!(cache.render(10), RenderStatus::Unchanged);
    assert_eq!(cache.render(11), RenderStatus::Changed);
    cache.invalidate();
    assert_eq!(cache.render(11), RenderStatus::Changed);

    assert_eq!(DynamicBorder::new(None).line(3).text, "───");
    assert_eq!(DynamicBorder::new(None).line(0).text, "─");
    let mut idle = IdleStatus::new();
    let (status, lines) = idle.render(2);
    assert_eq!(status, RenderStatus::Changed);
    assert_eq!(plain_text(&lines[1]), "  ");
    let mut news = EarendilAnnouncement::new();
    let (_, pieces) = news.render(4);
    assert!(matches!(&pieces[0], Piece::Line(line) if plain_text(line) == "────"));
    assert!(matches!(&pieces[1], Piece::Text { padding: 1, .. }));
    assert_eq!(text(&pieces[1]), "pi has joined Earendil");
    assert!(matches!(&pieces[2], Piece::Line(line) if plain_text(line) == "    "));
    assert_eq!(text(&pieces[4]), BLOG_URL);
    assert_eq!(pieces.len(), 7);
    assert_eq!(news.render(4).0, RenderStatus::Unchanged);
}

#[test]
fn loaders_abort_once() {
    let mut loader = BorderedLoader::new("wait".to_owned());
    assert!(!loader.handle_input(&press(&[])));
    assert!(loader.handle_input(&press(&["tui.select.cancel"])));
    assert!(!loader.handle_input(&press(&["tui.select.cancel"])));
    assert!(loader.cancelled());
    let keys = KeyTable { bindings: Vec::new(), macos: false };
    let pieces = loader.render(&keys, 2);
    assert!(matches!(&pieces[0], Piece::Line(line) if plain_text(line) == "──"));
    assert_eq!(text(&pieces[1]), "wait");
    assert!(matches!(
        &pieces[1],
        Piece::Loader { spinner: ThemeColor::Accent, message_color: ThemeColor::Muted, .. }
    ));
    assert_eq!(pieces.len(), 6);
    let short = BorderedLoader::with_cancellable("wait".to_owned(), false);
    assert_eq!(short.render(&keys, 2).len(), 4);
    let mut fixed = BorderedLoader::with_cancellable("wait".to_owned(), false);
    assert!(!fixed.handle_input(&press(&["tui.select.cancel"])));
}

#[test]
fn bash_mode_colors_the_editor_borders() {
    let mut editor = CustomEditor::new();
    assert!(!editor.is_colored(0, 3));
    assert!(editor.set_bash_mode(true));
    assert!(!editor.set_bash_mode(true));
    assert!(editor.is_colored(0, 3));
    assert!(!editor.is_colored(1, 3));
    assert!(editor.is_colored(2, 3));
    assert_eq!(editor.status(RenderStatus::Unchanged), RenderStatus::Changed);
}
