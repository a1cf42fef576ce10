use pi_interactive::session::SessionInfo;
use pi_interactive::session_selector_search::{
    collapse_whitespace, filter_and_sort_sessions, get_session_search_text, has_session_name,
    match_session, normalize_whitespace_lower, parse_search_query, phrase_score, regex_query,
    regex_result, utf16_index_at, NameFilter, QueryMode, SearchToken, SortMode, TokenKind,
};

fn session(id: &str, name: Option<&str>, messages: &str, modified_ms: i64) -> SessionInfo {
    SessionInfo {
        path: format!("/tmp/{id}.jsonl"),
        id: id.to_owned(),
        cwd: "/home/user/project".to_owned(),
        name: name.map(str::to_owned),
        parent_session_path: None,
        created: "2026-07-16T12:00:00Z".to_owned(),
        modified_ms,
        message_count: 1,
        first_message: "hello".to_owned(),
        all_messages_text: messages.to_owned(),
    }
}

fn ids(sessions: &[SessionInfo]) -> Vec<&str> {
    sessions.iter().map(|s| s.id.as_str()).collect()
}

fn token(kind: TokenKind, value: &str) -> SearchToken {
    SearchToken { kind, value: value.to_owned() }
}

#[test]
fn parse_empty_query_is_match_all_tokens() {
    let parsed = parse_search_query("   ");
    assert_eq!(parsed.mode, QueryMode::Tokens);
    assert!(parsed.tokens.is_empty());
    assert!(parsed.regex.is_none());
    assert!(parsed.error.is_none());
}

#[test]
fn parse_regex_mode() {
    let parsed = parse_search_query("re:node.*cve");
    assert_eq!(parsed.mode, QueryMode::Regex);
    assert!(parsed.tokens.is_empty());
    assert!(parsed.error.is_none());
    assert!(parsed.regex.is_some());
}

#[test]
fn parse_regex_empty_pattern_errors() {
    let parsed = parse_search_query("re:   ");
    assert_eq!(parsed.mode, QueryMode::Regex);
    assert!(parsed.regex.is_none());
    assert_eq!(parsed.error.as_deref(), Some("Empty regex"));
}

#[test]
fn parse_regex_invalid_pattern_errors() {
    let parsed = parse_search_query("re:(unclosed");
    assert_eq!(parsed.mode, QueryMode::Regex);
    assert!(parsed.regex.is_none());
    assert!(parsed.error.is_some());
}

#[test]
fn parse_tokens_with_quoted_phrase() {
    let parsed = parse_search_query(r#"foo "node cve" bar"#);
    assert_eq!(parsed.mode, QueryMode::Tokens);
    assert_eq!(
        parsed.tokens,
        vec![
            token(TokenKind::Fuzzy, "foo"),
            token(TokenKind::Phrase, "node cve"),
            token(TokenKind::Fuzzy, "bar"),
        ]
    );
}

#[test]
fn parse_unclosed_quote_falls_back_to_whitespace_tokens() {
    let parsed = parse_search_query(r#"foo "bar baz"#);
    assert_eq!(parsed.mode, QueryMode::Tokens);
    assert_eq!(
        parsed.tokens,
        vec![
            token(TokenKind::Fuzzy, "foo"),
            token(TokenKind::Fuzzy, "\"bar"),
            token(TokenKind::Fuzzy, "baz"),
        ]
    );
}

#[test]
fn parse_empty_phrase_is_dropped() {
    let parsed = parse_search_query(r#""" foo"#);
    assert_eq!(parsed.tokens, vec![token(TokenKind::Fuzzy, "foo")]);
}

#[test]
fn match_regex_score_counts_utf16_units_before_match() {
    let s = session("😀ab", None, "needle", 1);
    let parsed = parse_search_query("re:needle");
    let res = match_session(&s, &parsed, &Vec::new());
    assert!(res.matches);
    // "😀ab" = 2+1+1 UTF-16 units, then " " (name "") " " => needle at 6.
    assert_eq!(res.score, 6);
}

#[test]
fn match_empty_tokens_matches_all_with_zero_score() {
    let s = session("abc", None, "whatever", 1);
    let parsed = parse_search_query("");
    let res = match_session(&s, &parsed, &Vec::new());
    assert!(res.matches);
    assert_eq!(res.score, 0);
}

#[test]
fn match_regex_score_is_index_times_point_one() {
    let s = session("abcdef", None, "zzz needle zzz", 1);
    let parsed = parse_search_query("re:needle");
    let res = match_session(&s, &parsed, &Vec::new());
    assert!(res.matches);
    // "abcdef" (6) + " " + "" (name) + " " + "zzz " => needle at index 12.
    assert_eq!(res.score, 12);
    assert_eq!(res.score as f64 * 0.1, 12.0 * 0.1);
}

#[test]
fn match_regex_is_case_insensitive() {
    let s = session("abc", None, "NEEDLE", 1);
    let parsed = parse_search_query("re:needle");
    assert!(match_session(&s, &parsed, &Vec::new()).matches);
}

#[test]
fn match_regex_no_match() {
    let s = session("abc", None, "haystack", 1);
    let parsed = parse_search_query("re:needle");
    let res = match_session(&s, &parsed, &Vec::new());
    assert!(!res.matches);
    assert_eq!(res.score, 0);
}

#[test]
fn match_missing_regex_never_matches() {
    let s = session("abc", None, "anything", 1);
    let parsed = parse_search_query("re:   ");
    assert!(!match_session(&s, &parsed, &Vec::new()).matches);
}

#[test]
fn match_phrase_score_uses_normalized_index() {
    let s = session("ABC", None, "zzz   Hello\tWORLD", 1);
    let parsed = parse_search_query("\"hello world\"");
    let res = match_session(&s, &parsed, &vec![None]);
    assert!(res.matches);
    // "abc zzz " => phrase begins at index 8.
    assert_eq!(res.score, 8);
}

#[test]
fn match_phrase_requires_contiguous_text() {
    let s = session("abc", None, "hello there world", 1);
    let parsed = parse_search_query("\"hello world\"");
    assert!(!match_session(&s, &parsed, &vec![None]).matches);
}

#[test]
fn match_all_fuzzy_tokens_must_match() {
    let s = session("abc", None, "alpha beta", 1);
    let both = parse_search_query("alpha beta");
    assert!(match_session(&s, &both, &vec![Some(-320), Some(90)]).matches);
    let miss = parse_search_query("alpha qqqqxxx");
    assert!(!match_session(&s, &miss, &vec![Some(-320), None]).matches);
}

#[test]
fn match_fuzzy_scores_accumulate_with_oracle_values() {
    let s = session("abc", None, "alpha beta", 1);
    let text = get_session_search_text(&s);
    assert_eq!(text, "abc  alpha beta /home/user/project");
    // The scores of "alpha" and "beta" in the text are -32.0 and 9.0.
    let parsed = parse_search_query("alpha beta");
    let res = match_session(&s, &parsed, &vec![Some(-320), Some(90)]);
    assert!(res.matches);
    assert_eq!(res.score, -230);
}

#[test]
fn filter_name_filter_named_only() {
    let sessions = vec![
        session("a", Some("named"), "x", 3),
        session("b", None, "x", 2),
        session("c", Some("   "), "x", 1),
    ];
    let out =
        filter_and_sort_sessions(&sessions, "", SortMode::Recent, NameFilter::Named, &Vec::new());
    assert_eq!(out.len(), 1);
    assert_eq!(out[0].id, "a");
}

#[test]
fn filter_empty_query_keeps_incoming_order() {
    let sessions = vec![session("a", None, "x", 1), session("b", None, "x", 2)];
    let out =
        filter_and_sort_sessions(&sessions, "  ", SortMode::Relevance, NameFilter::All, &Vec::new());
    assert_eq!(ids(&out), vec!["a", "b"]);
}

#[test]
fn filter_error_query_returns_empty() {
    let sessions = vec![session("a", None, "x", 1)];
    let out = filter_and_sort_sessions(
        &sessions,
        "re:(unclosed",
        SortMode::Recent,
        NameFilter::All,
        &Vec::new(),
    );
    assert!(out.is_empty());
}

#[test]
fn filter_recent_mode_filters_but_keeps_order() {
    let sessions = vec![
        session("a", None, "needle far far away", 1),
        session("b", None, "no match here", 2),
        session("c", None, "needle", 3),
    ];
    let out = filter_and_sort_sessions(
        &sessions,
        "re:needle",
        SortMode::Recent,
        NameFilter::All,
        &Vec::new(),
    );
    assert_eq!(ids(&out), vec!["a", "c"]);
}

#[test]
fn filter_relevance_sorts_by_score_ascending() {
    let sessions = vec![
        session("aaa", None, "zzzzz zzzzz needle", 1),
        session("bbb", None, "needle", 2),
    ];
    let out = filter_and_sort_sessions(
        &sessions,
        "re:needle",
        SortMode::Relevance,
        NameFilter::All,
        &Vec::new(),
    );
    assert_eq!(ids(&out), vec!["bbb", "aaa"]);
}

#[test]
fn filter_relevance_ties_break_by_modified_desc() {
    let mut older = session("same", None, "needle", 100);
    let mut newer = session("same", None, "needle", 200);
    older.cwd = "/cwd".to_owned();
    newer.cwd = "/cwd".to_owned();
    older.path = "/tmp/older.jsonl".to_owned();
    newer.path = "/tmp/newer.jsonl".to_owned();
    let sessions = vec![older, newer];
    let out = filter_and_sort_sessions(
        &sessions,
        "re:needle",
        SortMode::Relevance,
        NameFilter::All,
        &Vec::new(),
    );
    assert_eq!(out[0].path, "/tmp/newer.jsonl");
    assert_eq!(out[1].path, "/tmp/older.jsonl");
}

#[test]
fn filter_threaded_mode_with_query_takes_scored_branch() {
    let sessions = vec![
        session("aaa", None, "zzzzz zzzzz needle", 1),
        session("bbb", None, "needle", 2),
    ];
    let out = filter_and_sort_sessions(
        &sessions,
        "re:needle",
        SortMode::Threaded,
        NameFilter::All,
        &Vec::new(),
    );
    assert_eq!(ids(&out), vec!["bbb", "aaa"]);
}

#[test]
fn search_lists_only_matching_sessions_best_first() {
    let sessions = vec![
        session("a", None, "x", 1),
        session("b", None, "x", 2),
        session("c", None, "x", 3),
    ];
    let fuzzy = vec![vec![Some(5)], vec![None], vec![Some(-5)]];
    let out =
        filter_and_sort_sessions(&sessions, "tok", SortMode::Relevance, NameFilter::All, &fuzzy);
    assert_eq!(ids(&out), vec!["c", "a"]);
}

#[test]
fn normalizing_folds_case_and_whitespace() {
    assert_eq!(normalize_whitespace_lower("  Straße\t ÄÖ \n x"), "straße äö x");
}

#[test]
fn whitespace_names_do_not_count() {
    assert!(has_session_name(&session("a", Some(" x "), "", 1)));
    assert!(!has_session_name(&session("a", Some("\u{3000}"), "", 1)));
    assert!(!has_session_name(&session("a", None, "", 1)));
}

#[test]
fn utf16_indices_count_code_units() {
    assert_eq!(utf16_index_at("a😀b", 5), 3);
    assert_eq!(utf16_index_at("a😀b", 1), 1);
    assert_eq!(utf16_index_at("äb", 2), 1);
}

#[test]
fn regex_outcomes_become_queries_and_results() {
    let ok = regex_query("a.c".to_owned(), Ok(()));
    assert_eq!(ok.regex.as_deref(), Some("a.c"));
    assert!(ok.error.is_none());
    let bad = regex_query("(".to_owned(), Err("unclosed group".to_owned()));
    assert!(bad.regex.is_none());
    assert_eq!(bad.error.as_deref(), Some("unclosed group"));
    let hit = regex_result("😀x needle", Some(6));
    assert!(hit.matches);
    assert_eq!(hit.score, 4);
    let miss = regex_result("text", None);
    assert!(!miss.matches);
}

#[test]
fn regexes_match_where_the_pattern_does() {
    let s = session("zz", None, "node 12 cve", 1);
    let digits = parse_search_query("re:\\d+");
    let res = match_session(&s, &digits, &Vec::new());
    assert!(res.matches);
    // "zz" + " " + "" + " " + "node " => digits at index 9.
    assert_eq!(res.score, 9);
    let none = parse_search_query("re:^node");
    assert!(!match_session(&s, &none, &Vec::new()).matches);
}

#[test]
fn joined_tokens_score_their_sum() {
    let s = session("x", None, "alpha beta", 1);
    let score = |query: &str, fuzzy: &Vec<Option<i64>>| {
        match_session(&s, &parse_search_query(query), fuzzy)
    };
    let first = score("\"beta\" alp", &vec![None, Some(-30)]);
    let second = score("bet", &vec![Some(7)]);
    let both = score("\"beta\" alp bet", &vec![None, Some(-30), Some(7)]);
    assert!(both.matches);
    assert_eq!(both.score, first.score + second.score);
    let missing = score("\"beta\" alp bet", &vec![None, Some(-30), None]);
    assert!(!missing.matches);
    assert_eq!(missing.score, 0);
}

#[test]
fn equal_matches_stay_in_order_and_come_once() {
    let sessions = vec![
        session("a", None, "same", 5),
        session("b", None, "same", 5),
        session("c", None, "same", 9),
    ];
    let fuzzy = vec![vec![Some(1)], vec![Some(1)], vec![Some(1)]];
    let listed = filter_and_sort_sessions(
        &sessions,
        "same",
        SortMode::Relevance,
        NameFilter::All,
        &fuzzy,
    );
    let ids: Vec<&str> = listed.iter().map(|s| s.id.as_str()).collect();
    assert_eq!(ids, vec!["c", "a", "b"]);
}

#[test]
fn phrases_score_by_where_they_start() {
    assert_eq!(collapse_whitespace("  a\t\nB  c "), "a B c");
    assert_eq!(collapse_whitespace(" "), "");
    assert_eq!(phrase_score("😀 ab ab", "ab"), Some(3));
    assert_eq!(phrase_score("ab", "abc"), None);
    assert_eq!(phrase_score("ab", ""), Some(0));
}

#[test]
fn scores_of_phrases_and_words_add_up() {
    let s = session("id", None, "alpha beta", 0);
    let score = |query: &str, fuzzy: &Vec<Option<i64>>| {
        match_session(&s, &parse_search_query(query), fuzzy).score
    };
    let phrase = score("\"beta\"", &vec![None]);
    assert_eq!(phrase, 9);
    assert_eq!(score("x", &vec![Some(-320)]), -320);
    assert_eq!(score("\"beta\" x", &vec![None, Some(-320)]), phrase - 320);
    assert_eq!(score("x \"beta\"", &vec![Some(i64::MIN), None]), i128::from(i64::MIN) + phrase);
}
