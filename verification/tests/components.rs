use pi_interactive::armin::{
    cell, final_grid, pixel, positions, rand, shuffle, ArminEffect, ArminState, CELLS,
    DISPLAY_HEIGHT, WIDTH,
};
use pi_interactive::armin_animation::Armin;
use pi_interactive::countdown_timer::{
    seconds_left, title_with_countdown, CountdownTimer, DialogCountdown,
};
use pi_interactive::extension_dialogs::{
    external_file_name, external_invocation, DialogAction, ExtensionEditor, ExtensionInput,
    ExtensionSelector,
};
use pi_interactive::first_time_setup::{
    FirstTimeSetup, FirstTimeSetupOptions, FirstTimeSetupResult, SetupAction, SetupStep,
};
use pi_interactive::fitting::{LineCut, MeasuredLine};
use pi_interactive::footer::{
    cut_padding, format_cwd_for_footer, format_tokens, git_branch_of_head,
    location_line, place_right, right_text, right_text_with_provider, sanitize_status_text,
    second_line, choose_right, stats_left, status_line, FooterComponent, FooterData, FooterCuts,
    FooterStats, RightSide,
};
use pi_interactive::keybinding_hints::{BoundKeys, KeyMatches, KeyTable};
use pi_interactive::login_dialog::{LoginAction, LoginDialogComponent};
use pi_interactive::settings_selector::TerminalTheme;
use pi_interactive::status_indicator::{
    CompactionStatusReason, StatusIndicator, StatusIndicatorKind,
};
use pi_interactive::style::{plain_text, raw, Measured, ThemeColor};
use pi_interactive::transcript::Piece;
use pi_interactive::trust_selector::{
    format_decision, ProjectTrustStoreEntry, TrustAction, TrustSelectorComponent,
    TrustSelectorOptions,
};

fn press(ids: &[&str]) -> KeyMatches {
    KeyMatches { ids: ids.iter().map(|s| (*s).to_owned()).collect() }
}

fn text(piece: &Piece) -> String {
    match piece {
        Piece::Text { spans, .. } | Piece::Line(spans) => plain_text(spans),
        Piece::Border(_) => "---".to_owned(),
        Piece::Input => "input".to_owned(),
        _ => String::new(),
    }
}

fn table() -> KeyTable {
    let bound = |id: &str, key: &str| BoundKeys {
        id: id.to_owned(),
        keys: vec![key.to_owned()],
    };
    KeyTable {
        bindings: vec![
            bound("tui.select.confirm", "enter"),
            bound("tui.select.cancel", "escape"),
            bound("app.interrupt", "escape"),
        ],
        macos: false,
    }
}

#[test]
fn the_picture_is_drawn_with_half_blocks() {
    assert!(!pixel(0, 0));
    assert!(pixel(8, 1));
    assert!(!pixel(3, 36));
    assert_eq!(cell(8, 0), '▄');
    let grid = final_grid();
    assert_eq!(grid.len(), DISPLAY_HEIGHT);
    assert!(grid.iter().all(|row| row.len() == WIDTH));
    let first: String = grid[0].iter().collect();
    assert_eq!(first, "        ▄▄▄▄                   ");
}

#[test]
fn numbers_are_drawn_below_their_bound() {
    let mut seed = 1_u64;
    assert_eq!(rand(&mut seed, 1_000_000_000_000), 1_082_269_761 % 1_000_000_000_000);
    assert_eq!(seed, 1_082_269_761);
    assert_eq!(rand(&mut seed, 0), 0);
    assert_eq!(seed, 1_082_269_761);
    for n in 1..50 {
        assert!(rand(&mut seed, n) < n);
    }
}

#[test]
fn shuffling_keeps_every_place() {
    let mut places = positions();
    assert_eq!(places.len(), CELLS);
    let mut seed = 99;
    shuffle(&mut places, &mut seed);
    assert_ne!(places, positions());
    let mut sorted = places.clone();
    sorted.sort_unstable();
    assert_eq!(sorted, positions());
}

#[test]
fn every_effect_but_the_rain_ends_with_the_picture() {
    for effect in [
        ArminEffect::Typewriter,
        ArminEffect::Scanline,
        ArminEffect::Fade,
        ArminEffect::Crt,
        ArminEffect::Glitch,
        ArminEffect::Dissolve,
    ] {
        let mut armin = Armin::with_effect(effect, 7);
        assert_eq!(armin.effect(), effect);
        let mut frames = 1;
        while !armin.tick() {
            frames += 1;
            assert!(frames < 1000);
        }
        assert_eq!(armin.grid, final_grid());
        let expected = match effect {
            ArminEffect::Typewriter => 186,
            ArminEffect::Scanline | ArminEffect::Crt => 19,
            ArminEffect::Fade => 38,
            ArminEffect::Glitch => 9,
            _ => 28,
        };
        assert_eq!(frames, expected);
    }
}

#[test]
fn rain_falls_and_settles() {
    let mut armin = Armin::with_effect(ArminEffect::Rain, 3);
    for _ in 0..400 {
        armin.tick();
    }
    match &armin.state {
        ArminState::Rain(drops) => {
            assert_eq!(drops.len(), WIDTH);
            assert!(drops.iter().any(|d| d.1 > 0));
        }
        _ => panic!("still raining"),
    }
    let lines = armin.render(20);
    assert_eq!(lines.len(), DISPLAY_HEIGHT + 1);
    assert!(lines.iter().all(|l| plain_text(l).chars().count() == 20));
    assert_eq!(plain_text(&lines[DISPLAY_HEIGHT]), " ARMIN SAYS HI      ");
}

#[test]
fn tokens_are_shown_short() {
    assert_eq!(format_tokens(0), "0");
    assert_eq!(format_tokens(999), "999");
    assert_eq!(format_tokens(1_000), "1.0k");
    assert_eq!(format_tokens(1_250), "1.3k");
    assert_eq!(format_tokens(9_999), "10.0k");
    assert_eq!(format_tokens(10_499), "10k");
    assert_eq!(format_tokens(10_500), "11k");
    assert_eq!(format_tokens(999_999), "1000k");
    assert_eq!(format_tokens(1_250_000), "1.3M");
    assert_eq!(format_tokens(12_500_000), "13M");
    assert_eq!(format_tokens(u64::MAX), "18446744073710M");
}

#[test]
fn directories_are_shown_below_home() {
    assert_eq!(format_cwd_for_footer("/home/u/a/b", Some("/home/u"), "/"), "~/a/b");
    assert_eq!(format_cwd_for_footer("/home/u", Some("/home/u/"), "/"), "~");
    assert_eq!(format_cwd_for_footer("/home/user", Some("/home/u"), "/"), "/home/user");
    assert_eq!(format_cwd_for_footer("/home/u/../u/./x", Some("/home/u"), "/"), "~/x");
    assert_eq!(format_cwd_for_footer("x", Some("/home/u"), "/home/u"), "~/x");
    assert_eq!(format_cwd_for_footer("/x", None, "/"), "/x");
}

#[test]
fn statuses_are_sorted_and_cleaned() {
    assert_eq!(sanitize_status_text(" a\t\tb \r\n c "), "a b c");
    assert_eq!(
        status_line(&vec![
            ("z".to_owned(), "last\n".to_owned()),
            ("a".to_owned(), "first".to_owned()),
        ]),
        "first last"
    );
}

#[test]
fn branches_are_read_from_head() {
    assert_eq!(git_branch_of_head("ref: refs/heads/main\n").as_deref(), Some("main"));
    assert_eq!(git_branch_of_head("abc123\n").as_deref(), Some("abc123"));
    assert_eq!(git_branch_of_head(" \n"), None);
    assert_eq!(
        location_line("~/x", &Some("main".to_owned()), &Some("n".to_owned())),
        "~/x (main) • n"
    );
}

fn stats() -> FooterStats {
    FooterStats {
        input: 1_000,
        output: 20,
        cache_read: 3_000,
        cache_write: 0,
        cost: 1_234_600_000,
        context_percent: Some(75_250_000_000),
        context_window: 200_000,
        model: Some("m".to_owned()),
        provider: Some("p".to_owned()),
        reasoning: true,
        thinking_level: Some("high".to_owned()),
        using_subscription: true,
        experimental: true,
    }
}

#[test]
fn the_footer_lists_what_was_used() {
    let line = stats_left(&stats(), true);
    assert_eq!(
        plain_text(&line),
        "↑1.0k ↓20 R3.0k CH75.0% $1.235 (sub) 75.3%/200k (auto) • xp"
    );
    assert!(line.iter().any(|s| s.color == Some(ThemeColor::Warning) && s.text.contains('%')));
    let mut full = stats();
    full.context_percent = Some(90_000_000_001);
    assert!(stats_left(&full, false).iter().any(|s| s.color == Some(ThemeColor::Error)));
    let mut bare = stats();
    bare.input = 0;
    bare.output = 0;
    bare.cache_read = 0;
    bare.cost = 0;
    bare.using_subscription = false;
    bare.experimental = false;
    bare.context_percent = None;
    assert_eq!(plain_text(&stats_left(&bare, false)), "?/200k");
}

#[test]
fn the_footer_names_the_model() {
    assert_eq!(right_text(&stats()), "m • high");
    assert_eq!(right_text_with_provider(&stats(), 2).as_deref(), Some("(p) m • high"));
    assert_eq!(right_text_with_provider(&stats(), 1), None);
    let mut off = stats();
    off.thinking_level = None;
    off.model = None;
    assert_eq!(right_text(&off), "no-model • thinking off");
    assert_eq!(right_text_with_provider(&off, 2), None);
    let chosen = |providers: usize, width: usize| {
        let right = choose_right(&stats(), providers, 8, 10, 6, width);
        (right.text, right.width)
    };
    assert_eq!(chosen(2, 20), ("(p) m • high".to_owned(), 10));
    assert_eq!(chosen(2, 19), ("m • high".to_owned(), 6));
    assert_eq!(chosen(1, 20), ("m • high".to_owned(), 6));
    assert_eq!(place_right(20, 8, 10), RightSide::Whole(2));
    assert_eq!(place_right(15, 8, 10), RightSide::Cut(5));
    assert_eq!(place_right(10, 8, 10), RightSide::Nothing);
    assert_eq!(cut_padding(15, 8, 4), 3);
    let left = || MeasuredLine { spans: vec![raw("left")], width: 4 };
    let right = Measured { text: "right".to_owned(), width: 5 };
    let cut = Measured { text: "ri".to_owned(), width: 2 };
    assert_eq!(plain_text(&second_line(left(), &right, &cut, 12).spans), "left   right");
    assert_eq!(plain_text(&second_line(left(), &right, &cut, 8).spans), "left  ri");
    assert_eq!(plain_text(&second_line(left(), &right, &cut, 5).spans), "left");
}

#[test]
fn the_footer_has_three_lines() {
    let mut footer = FooterComponent::new();
    footer.set_auto_compact_enabled(false);
    let content = FooterData {
        directory: "~/x".to_owned(),
        branch: Some("main".to_owned()),
        session_name: None,
        stats: FooterStats { experimental: false, ..stats() },
        providers: 2,
        statuses: vec![
            ("b".to_owned(), "two".to_owned()),
            ("a".to_owned(), "one\tmore".to_owned()),
        ],
    };
    let fits = |width: usize| LineCut {
        width,
        cut: MeasuredLine { spans: Vec::new(), width: 0 },
    };
    let cuts = |left: LineCut| FooterCuts {
        location: fits(10),
        left,
        with_provider_width: 12,
        model_width: 8,
        right: Measured { text: "m •".to_owned(), width: 3 },
        status: LineCut {
            width: 12,
            cut: MeasuredLine { spans: vec![raw("one mor")], width: 7 },
        },
    };
    let lines = footer.render(&content, cuts(fits(48)), 64);
    assert_eq!(plain_text(&lines[0].spans), "~/x (main)");
    assert_eq!(
        plain_text(&lines[1].spans),
        "↑1.0k ↓20 R3.0k CH75.0% $1.235 (sub) 75.3%/200k    (p) m • high"
    );
    assert_eq!(lines[1].spans[0].color, Some(ThemeColor::Dim));
    assert_eq!(plain_text(&lines[2].spans), "one more two");
    assert_eq!((lines[0].width, lines[1].width, lines[2].width), (10, 64, 12));
    let short = LineCut { width: 4, cut: MeasuredLine { spans: Vec::new(), width: 0 } };
    let lines = footer.render(&content, cuts(short), 10);
    assert!(plain_text(&lines[1].spans).ends_with("   m •"));
    assert_eq!(plain_text(&lines[2].spans), "one mor...");
    let long = LineCut {
        width: 48,
        cut: MeasuredLine { spans: vec![raw("↑1.0k ↓")], width: 7 },
    };
    let lines = footer.render(&content, cuts(long), 10);
    assert_eq!(plain_text(&lines[1].spans), "↑1.0k ↓...");
    assert!(lines.iter().all(|line| line.width <= 10));
}

#[test]
fn countdowns_tell_each_second_and_their_end() {
    let mut timer = CountdownTimer::new(1_500, 10_000);
    assert_eq!(timer.remaining_seconds(), 2);
    let step = timer.tick(10_400);
    assert_eq!((step.tick, step.expire, step.done), (None, false, false));
    let step = timer.tick(10_600);
    assert_eq!((step.tick, step.expire, step.done), (Some(1), false, false));
    let step = timer.tick(11_500);
    assert_eq!((step.tick, step.expire, step.done), (Some(0), true, true));
    let step = timer.tick(12_000);
    assert_eq!((step.tick, step.expire, step.done), (None, false, true));
    assert_eq!(seconds_left(1_001, 0), 2);

    let mut dialog = DialogCountdown::none().with_timeout(1_000, 0);
    assert_eq!(dialog.tick(1), (Some(1), false));
    assert_eq!(dialog.tick(1_000), (Some(0), true));
    assert_eq!(dialog.tick(1_001), (None, false));
    assert_eq!(DialogCountdown::none().with_timeout(0, 0).deadline_ms, None);
    assert_eq!(title_with_countdown("T", Some(3)), "T (3s)");
    assert_eq!(title_with_countdown("T", None), "T");
}

#[test]
fn trusting_the_parent_takes_the_own_decision_back() {
    let mut chooser = TrustSelectorComponent::new(TrustSelectorOptions {
        cwd: "/p/x".to_owned(),
        trust_path: "/p/x".to_owned(),
        parent: Some("/p".to_owned()),
        saved_decision: Some(ProjectTrustStoreEntry { path: "/p/x".to_owned(), decision: false }),
        project_trusted: false,
    });
    assert_eq!(chooser.trust_options.len(), 3);
    assert_eq!(chooser.selected, 2);
    assert!(plain_text(&chooser.option_lines()[2]).ends_with('✓'));
    assert_eq!(
        plain_text(&chooser.status_lines()[0]),
        "Saved decision: untrusted (/p/x)"
    );
    let screen = chooser.render(&table());
    assert_eq!(text(&screen[2]), "Project trust");
    assert_eq!(text(&screen[3]), "/p/x");
    assert_eq!(text(screen.last().unwrap()), "---");
    chooser.handle_input(&press(&[]), "k");
    match chooser.handle_input(&press(&["tui.select.confirm"]), "") {
        TrustAction::Select(selection) => {
            assert!(selection.trusted);
            assert_eq!(selection.updates.len(), 2);
            assert_eq!(selection.updates[0].path, "/p");
            assert_eq!(selection.updates[0].decision, Some(true));
            assert_eq!(selection.updates[1].path, "/p/x");
            assert_eq!(selection.updates[1].decision, None);
        }
        _ => panic!("a choice was confirmed"),
    }
    assert!(matches!(
        chooser.handle_input(&press(&["tui.select.cancel"]), ""),
        TrustAction::Cancel
    ));
    let inherited = Some(ProjectTrustStoreEntry { path: "/p".to_owned(), decision: true });
    assert_eq!(format_decision("/p/x", &inherited), "trusted (inherited from /p)");
    assert_eq!(format_decision("/p/x", &None), "none");
}

#[test]
fn the_setup_asks_twice() {
    let mut setup = FirstTimeSetup::new(FirstTimeSetupOptions {
        detected_theme: TerminalTheme::Light,
        original_theme: Some("mine".to_owned()),
    });
    assert_eq!(setup.theme_index, 1);
    assert!(matches!(
        setup.handle_input(&press(&["tui.select.up"]), ""),
        SetupAction::Preview(TerminalTheme::Dark)
    ));
    assert!(matches!(setup.handle_input(&press(&[]), "k"), SetupAction::Nothing));
    assert_eq!(text(&setup.render(&table())[7]), "Detected system appearance: light");
    assert!(matches!(setup.handle_input(&press(&[]), "\n"), SetupAction::Nothing));
    assert_eq!(setup.step, SetupStep::Analytics);
    setup.handle_input(&press(&[]), "j");
    assert_eq!(text(&setup.render(&table())[10]), "→ Don't share");
    match setup.handle_input(&press(&["tui.select.confirm"]), "") {
        SetupAction::Submit(result) => assert_eq!(
            result,
            FirstTimeSetupResult { theme: TerminalTheme::Dark, share_analytics: false }
        ),
        _ => panic!("the setup is done"),
    }
    assert!(matches!(
        setup.handle_input(&press(&["tui.select.cancel"]), ""),
        SetupAction::Cancel(Some(name)) if name == "mine"
    ));
    assert!(plain_text(&setup.hint_line(&table())).contains("enter finish"));
}

#[test]
fn extension_dialogs_submit_and_cancel() {
    let mut list =
        ExtensionSelector::new("T".to_owned(), vec!["a".to_owned(), "b".to_owned()]);
    assert_eq!(list.handle_input(&press(&[]), "j"), DialogAction::Nothing);
    assert_eq!(list.handle_input(&press(&[]), "j"), DialogAction::Nothing);
    assert_eq!(list.selected, 1);
    assert_eq!(plain_text(&list.option_lines()[1]), "→ b");
    let (screen, expired) = list.render(0, &table());
    let shown: Vec<String> = screen.iter().map(text).collect();
    assert_eq!(shown[..7], ["---", "", "T", "", "  a", "→ b", ""]);
    assert_eq!(shown[8..], ["", "---"]);
    assert!(!expired);
    let (screen, _) = ExtensionInput::new("I".to_owned()).render(0, &table());
    assert_eq!(text(&screen[2]), "I");
    assert_eq!(text(&screen[4]), "input");
    assert_eq!(text(&screen[6]), "enter submit  escape cancel");
    assert_eq!(list.handle_input(&press(&[]), "\n"), DialogAction::Submit("b".to_owned()));
    assert_eq!(
        list.handle_input(&press(&["app.tools.expand"]), ""),
        DialogAction::ToggleToolsExpanded
    );
    assert_eq!(list.handle_input(&press(&["tui.select.cancel"]), ""), DialogAction::Cancel);
    assert_eq!(list.title_text(Some(2)), "T (2s)");
    let mut empty = ExtensionSelector::new("T".to_owned(), Vec::new());
    assert_eq!(empty.handle_input(&press(&["tui.select.confirm"]), ""), DialogAction::Nothing);

    let mut input = ExtensionInput::new("T".to_owned());
    input.set_value("v");
    assert_eq!(input.handle_input(&press(&[]), "x"), DialogAction::Edit);
    assert_eq!(input.handle_input(&press(&[]), "\n"), DialogAction::Submit("v".to_owned()));
    assert_eq!(input.value(), "v");
}

#[test]
fn extension_editors_open_external_ones() {
    let mut editor = ExtensionEditor::new("T".to_owned(), Some("text"));
    assert_eq!(
        editor.handle_input(&press(&["tui.select.confirm"]), " done \n"),
        DialogAction::Submit("done".to_owned())
    );
    assert_eq!(
        editor.handle_input(&press(&["app.editor.external"]), ""),
        DialogAction::OpenExternalEditor
    );
    assert_eq!(editor.external_editor_command(None, None, false), "nano");
    assert_eq!(editor.external_editor_command(None, None, true), "notepad");
    assert_eq!(editor.external_editor_command(None, Some("vi"), false), "vi");
    assert_eq!(editor.external_editor_command(Some("ed"), Some("vi"), false), "ed");
    editor.set_external_editor_command(Some("code -w".to_owned()));
    assert_eq!(editor.external_editor_command(Some("ed"), None, false), "code -w");
    assert_eq!(
        external_invocation("code  -w", "/f"),
        Some(("code".to_owned(), vec!["-w".to_owned(), "/f".to_owned()]))
    );
    assert_eq!(external_invocation("  ", "/f"), None);
    assert_eq!(external_file_name(17), "pi-extension-editor-17.md");
    editor.finish_external_edit(false, Some("x\n"));
    assert_eq!(editor.value(), "text");
    editor.finish_external_edit(true, None);
    assert_eq!(editor.value(), "text");
    editor.finish_external_edit(true, Some("x\n\n"));
    assert_eq!(editor.value(), "x\n");
}

#[test]
fn logins_are_shown_submitted_and_cancelled() {
    let mut dialog = LoginDialogComponent::new("id", None, None);
    assert_eq!(dialog.title, "Login to id");
    assert_eq!(LoginDialogComponent::new("id", Some("Name"), None).title, "Login to Name");
    assert_eq!(LoginDialogComponent::new("id", None, Some("T")).title, "T");
    dialog.show_auth("http://x", Some("do it"), false);
    assert_eq!(dialog.content.len(), 5);
    assert_eq!(
        plain_text(&dialog.content[2]),
        "\x1b]8;;http://x\x07Ctrl+click to open\x1b]8;;\x07"
    );
    assert_eq!(dialog.handle_input(&press(&[]), "\n"), LoginAction::Nothing);
    dialog.show_prompt("Key:", Some("abc"), &table());
    assert_eq!(plain_text(&dialog.content[7]), "e.g., abc");
    dialog.set_masked(true);
    dialog.input = "secret".to_owned();
    assert_eq!(dialog.handle_input(&press(&[]), "x"), LoginAction::Edit);
    let shown: Vec<String> = dialog.render(10).iter().map(text).collect();
    assert_eq!(shown[1], "Login to id");
    assert!(shown.contains(&" ••••••   ".to_owned()));
    assert!(!shown.iter().any(|line| line.contains("secret")));
    assert_eq!(
        dialog.handle_input(&press(&["tui.select.confirm"]), ""),
        LoginAction::Submit("secret".to_owned())
    );
    let last = dialog.content.last().unwrap();
    assert_eq!(plain_text(last), "> ••••••");
    assert_eq!(LoginDialogComponent::masked_fill(10, 6), 2);
    assert_eq!(LoginDialogComponent::masked_fill(7, 6), 0);
    assert_eq!(
        dialog.handle_input(&press(&["tui.select.cancel"]), ""),
        LoginAction::Fail("Login cancelled".to_owned())
    );
    assert_eq!(
        dialog.handle_input(&press(&["tui.select.cancel"]), ""),
        LoginAction::Nothing
    );
}

#[test]
fn login_content_is_replaced_or_extended() {
    let mut dialog = LoginDialogComponent::new("id", None, None);
    dialog.show_device_code("u", "42", true);
    assert_eq!(plain_text(&dialog.content[4]), "Enter code: 42");
    dialog.show_waiting("hold on", &table());
    assert_eq!(dialog.content.len(), 8);
    assert_eq!(plain_text(&dialog.content[7]), "(escape to cancel)");
    dialog.show_progress("more");
    assert_eq!(dialog.content.len(), 9);
    dialog.show_info(&vec!["a".to_owned()], &table());
    assert_eq!(dialog.content.len(), 4);
    assert_eq!(plain_text(&dialog.content[3]), "(escape to close)");
    dialog.show_manual_input("paste", &table());
    assert!(dialog.input_visible);
    dialog.show_details(&vec!["b".to_owned()]);
    assert!(!dialog.input_visible);
    assert_eq!(dialog.content.len(), 2);
    // Empty lines keep their place.
    dialog.show_details(&vec!["b".to_owned(), String::new()]);
    let pieces = dialog.render(10);
    assert!(matches!(&pieces[2], Piece::Spacer(1)));
    assert!(matches!(&pieces[3], Piece::Text { padding: 1, .. }));
    assert!(matches!(&pieces[4], Piece::Spacer(1)));
}

#[test]
fn indicators_spin_and_count_down() {
    let mut working = StatusIndicator::working("Working...".to_owned(), 1_000);
    assert_eq!(working.message(), "Working...");
    assert_eq!(working.elapsed_seconds(3_999), 2);
    assert_eq!(working.elapsed_seconds(0), 0);
    let lines = working.render(1_000, &table());
    assert_eq!(plain_text(&lines[1]), "⠋ Working...");
    for _ in 0..10 {
        working.tick();
    }
    assert_eq!(plain_text(&working.render(1_000, &table())[1]), "⠋ Working...");

    let mut retry = StatusIndicator::retry(2, 5, 3, 1_000, &table());
    assert_eq!(retry.message(), "Retrying (2/5) in 3s... (escape to cancel)");
    let lines = retry.render(2_500, &table());
    assert_eq!(plain_text(&lines[1]), "⠋ Retrying (2/5) in 2s... (escape to cancel)");
    assert_eq!(lines[1][0].color, Some(ThemeColor::Warning));
    retry.set_message("x".to_owned());
    assert_eq!(plain_text(&retry.render(9_000, &table())[1]), "⠋ x");

    let overflow =
        StatusIndicator::compaction(CompactionStatusReason::Overflow, 0, &table());
    assert_eq!(overflow.kind, StatusIndicatorKind::Compaction);
    assert_eq!(
        overflow.message(),
        "Context overflow detected, Auto-compacting... (escape to cancel)"
    );
    assert_eq!(
        StatusIndicator::branch_summary(0, &table()).message(),
        "Summarizing branch... (escape to cancel)"
    );
}
