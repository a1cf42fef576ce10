//! What a search for sessions looks for: how a query is read, and when a session matches it.

use crate::order::Ranked;
use crate::session::SessionInfo;
use crate::session_selector_search::{
    fuzzy_at, fuzzy_tokens, parsed_query, phrase_position, query_score, query_tokens, quoted_tokens,
    regex_error, regex_match_start, search_text, token_score, tokens_score, QueryMode, QueryView,
    RelevanceKey, TokenKind, TokenView,
};
use crate::text::{
    count_char, find_from, index_of_char, is_blank, is_whitespace, lemma_trim_empty, occurs_at,
    trim, utf16_len, words,
};
use vstd::prelude::*;
use vstd::string::*;

verus! {

broadcast use vstd::string::group_string_axioms;

/// The words of a text, each looked for by itself and loosely.
pub open spec fn loose_words(text: Seq<char>) -> Seq<TokenView> {
    Seq::new(
        words(text).len(),
        |i: int| TokenView { kind: TokenKind::Fuzzy, value: words(text)[i] },
    )
}

proof fn lemma_no_quote(s: Seq<char>)
    requires
        !s.contains('"'),
    ensures
        index_of_char(s, '"') == s.len(),
        count_char(s, '"') == 0,
    decreases s.len(),
{
    if s.len() > 0 {
        assert(s.contains(s[0]));
        assert(!s.skip(1).contains('"')) by {
            if s.skip(1).contains('"') {
                let k = choose|k: int| 0 <= k < s.skip(1).len() && s.skip(1)[k] == '"';
                assert(s[k + 1] == '"');
            }
        }
        lemma_no_quote(s.skip(1));
    }
}

proof fn lemma_one_quote(a: Seq<char>, b: Seq<char>)
    requires
        !a.contains('"'),
    ensures
        index_of_char(a + seq!['"'] + b, '"') == a.len(),
        count_char(a + seq!['"'] + b, '"') == 1 + count_char(b, '"'),
        (a + seq!['"'] + b).take(a.len() as int) == a,
        (a + seq!['"'] + b).skip(a.len() as int + 1) == b,
    decreases a.len(),
{
    let whole = a + seq!['"'] + b;
    assert(whole.take(a.len() as int) =~= a);
    assert(whole.skip(a.len() as int + 1) =~= b);
    if a.len() > 0 {
        assert(a.contains(a[0]));
        assert(whole[0] == a[0]);
        assert(!a.skip(1).contains('"')) by {
            if a.skip(1).contains('"') {
                let k = choose|k: int| 0 <= k < a.skip(1).len() && a.skip(1)[k] == '"';
                assert(a[k + 1] == '"');
            }
        }
        lemma_one_quote(a.skip(1), b);
        assert(whole.skip(1) =~= a.skip(1) + seq!['"'] + b);
    } else {
        assert(whole.skip(1) =~= b);
    }
}

proof fn lemma_loose(s: Seq<char>)
    ensures
        fuzzy_tokens(s) == loose_words(s),
{
    assert(fuzzy_tokens(s) =~= loose_words(s));
}

/// Without quotes every word of a query is looked for by itself.
pub proof fn words_are_looked_for_one_by_one(text: Seq<char>)
    requires
        !text.contains('"'),
    ensures
        query_tokens(text) == loose_words(text),
{
    lemma_no_quote(text);
    lemma_loose(text);
}

/// What stands in quotes is one phrase, and the words before and behind it are looked for by themselves.
pub proof fn quotes_make_a_phrase(before: Seq<char>, phrase: Seq<char>, behind: Seq<char>)
    requires
        !before.contains('"'),
        !phrase.contains('"'),
        !behind.contains('"'),
        !is_blank(phrase),
    ensures
        query_tokens(before + seq!['"'] + (phrase + seq!['"'] + behind)) == loose_words(before)
            + seq![TokenView { kind: TokenKind::Phrase, value: trim(phrase) }] + loose_words(behind),
{
    let rest = phrase + seq!['"'] + behind;
    let whole = before + seq!['"'] + rest;
    lemma_one_quote(before, rest);
    lemma_one_quote(phrase, behind);
    lemma_no_quote(behind);
    lemma_loose(before);
    lemma_loose(behind);
    lemma_trim_empty(phrase);
    let said = seq![TokenView { kind: TokenKind::Phrase, value: trim(phrase) }];
    assert(quoted_tokens(behind, false) == fuzzy_tokens(behind));
    assert(quoted_tokens(rest, true) == said + quoted_tokens(behind, false));
    assert(quoted_tokens(whole, false) == fuzzy_tokens(before) + quoted_tokens(rest, true));
    assert(loose_words(before) + (said + loose_words(behind)) =~= loose_words(before) + said
        + loose_words(behind));
}

/// A quote that is not closed is part of a word.
pub proof fn open_quotes_are_no_phrase(before: Seq<char>, behind: Seq<char>)
    requires
        !before.contains('"'),
        !behind.contains('"'),
    ensures
        query_tokens(before + seq!['"'] + behind) == loose_words(before + seq!['"'] + behind),
{
    lemma_one_quote(before, behind);
    lemma_no_quote(behind);
    lemma_loose(before + seq!['"'] + behind);
}

/// A query that starts with `re:` is a pattern. Without one behind it, or with one that cannot be read,
/// it is an error; no other query is.
pub proof fn patterns_are_told_by_their_mark(pattern: Seq<char>, query: Seq<char>)
    requires
        pattern.len() > 0,
        !is_whitespace(pattern[0]),
        !is_whitespace(pattern.last()),
    ensures
        ({
            let parsed = parsed_query("re:"@ + pattern);
            &&& parsed.mode == QueryMode::Regex
            &&& parsed.error == regex_error(pattern)
            &&& parsed.regex == if regex_error(pattern) is None {
                Some(pattern)
            } else {
                None
            }
        }),
        parsed_query("re:"@).error is Some,
        !"re:"@.is_prefix_of(trim(query)) ==> {
            &&& parsed_query(query).mode == QueryMode::Tokens
            &&& parsed_query(query).error is None
        },
        is_blank(query) ==> parsed_query(query).tokens.len() == 0,
        !is_blank(query) && !"re:"@.is_prefix_of(trim(query)) ==> parsed_query(query).tokens
            == query_tokens(trim(query)),
{
    reveal_strlit("re:");
    let mark = "re:"@;
    let whole = mark + pattern;
    assert(whole[0] == 'r');
    assert(trim(whole) == whole);
    assert(whole.skip(3) =~= pattern);
    assert(trim(pattern) == pattern);
    assert(trim(mark) == mark);
    assert(mark.skip(3) =~= Seq::empty());
    assert(trim(Seq::<char>::empty()) =~= Seq::empty());
    lemma_trim_empty(query);
    if is_blank(query) {
        assert(trim(query) =~= Seq::empty());
        assert(!mark.is_prefix_of(trim(query)));
    }
}

/// A session is searched by its id, its name, its messages and its folder.
pub proof fn sessions_are_searched_by_all_they_hold(session: SessionInfo)
    ensures
        session.id@.is_prefix_of(search_text(session)),
        session.cwd@.is_suffix_of(search_text(session)),
        exists|k: int| #[trigger]
            occurs_at(search_text(session), session.all_messages_text@, k),
        session.name matches Some(name) ==> exists|k: int| #[trigger]
            occurs_at(search_text(session), name@, k),
{
    let text = search_text(session);
    let id = session.id@;
    let messages = session.all_messages_text@;
    let cwd = session.cwd@;
    assert(text.skip(text.len() - cwd.len()) =~= cwd);
    let at = text.len() - cwd.len() - 1 - messages.len();
    assert(text.subrange(at, at + messages.len()) =~= messages);
    assert(occurs_at(text, messages, at));
    if let Some(name) = session.name {
        let k = id.len() as int + 1;
        assert(text.subrange(k, k + name@.len()) =~= name@);
        assert(occurs_at(text, name@, k));
    }
}

/// A phrase is worth where it first stands: nothing stands before it that it also matches.
pub proof fn phrases_are_worth_their_first_place(text: Seq<char>, phrase: Seq<char>, k: int)
    requires
        phrase.len() > 0,
        0 <= k <= text.len() - phrase.len(),
        occurs_at(text, phrase, k),
        forall|j: int| 0 <= j < k ==> !#[trigger] occurs_at(text, phrase, j),
    ensures
        phrase_position(text, phrase) == Some(utf16_len(text.take(k)) as int),
{
    lemma_first_place(text, phrase, 0, k);
}

proof fn lemma_first_place(text: Seq<char>, phrase: Seq<char>, i: int, k: int)
    requires
        0 <= i <= k <= text.len() - phrase.len(),
        occurs_at(text, phrase, k),
        forall|j: int| 0 <= j < k ==> !#[trigger] occurs_at(text, phrase, j),
    ensures
        find_from(text, phrase, i) == Some(k),
    decreases k - i,
{
    if i < k {
        assert(!occurs_at(text, phrase, i));
        lemma_first_place(text, phrase, i + 1, k);
    }
}

/// A session matches where each part of the query does, and scores what they score together.
pub proof fn every_part_has_to_match(
    text: Seq<char>,
    tokens: Seq<TokenView>,
    row: Seq<Option<i64>>,
    i: int,
)
    ensures
        tokens_score(text, tokens, row) is Some && 0 <= i < tokens.len() ==> token_score(
            text,
            tokens[i],
            fuzzy_at(row, i),
        ) is Some,
        (forall|k: int|
            0 <= k < tokens.len() ==> token_score(text, #[trigger] tokens[k], fuzzy_at(row, k)) is Some)
            ==> tokens_score(text, tokens, row) is Some,
        tokens.len() == 1 ==> tokens_score(text, tokens, row) == token_score(
            text,
            tokens[0],
            fuzzy_at(row, 0),
        ),
    decreases tokens.len(),
{
    if tokens.len() > 0 {
        let shorter = tokens.drop_last();
        every_part_has_to_match(text, shorter, row, i);
        if forall|k: int|
            0 <= k < tokens.len() ==> token_score(text, #[trigger] tokens[k], fuzzy_at(row, k)) is Some {
            assert forall|k: int| 0 <= k < shorter.len() implies token_score(
                text,
                #[trigger] shorter[k],
                fuzzy_at(row, k),
            ) is Some by {
                assert(tokens[k] == shorter[k]);
            }
            assert(token_score(text, tokens[tokens.len() - 1], fuzzy_at(row, tokens.len() - 1)) is Some);
        }
        if tokens.len() == 1 {
            assert(shorter.len() == 0);
        }
    }
}

/// A pattern matches a session where it matches somewhere in its text, and a query without parts
/// matches every session.
pub proof fn patterns_match_where_they_are_found(
    text: Seq<char>,
    query: QueryView,
    row: Seq<Option<i64>>,
)
    ensures
        query.mode == QueryMode::Regex && query.regex is Some ==> query_score(text, query, row) is Some
            == regex_match_start(query.regex->0, text) is Some,
        query.mode == QueryMode::Regex && query.regex is None ==> query_score(text, query, row) is None,
        query.mode == QueryMode::Tokens && query.tokens.len() == 0 ==> query_score(text, query, row)
            == Some(0int),
{
}

/// Better matches, those that score less, come first, and among equal ones the newer.
pub proof fn better_and_newer_matches_come_first(a: RelevanceKey, b: RelevanceKey)
    ensures
        a.score < b.score ==> RelevanceKey::at_most(a, b) && !RelevanceKey::at_most(b, a),
        a.score == b.score && a.modified_ms > b.modified_ms ==> RelevanceKey::at_most(a, b)
            && !RelevanceKey::at_most(b, a),
{
}

} // verus!
