//! Session search: parsing a query, matching a session against it, and
//! filtering and sorting a list of sessions by it.

use crate::order::{
    comes_before, is_stable_order, lemma_covers, lemma_stable_order_exists, ranks, sort_indices,
    stable_order, Ranked,
};
use crate::session::SessionInfo;
use crate::text::{
    char_texts, char_utf16_len, chars_of, count_char, find, find_chars, has_prefix, index_of_char,
    is_blank, join, join_chars, lemma_count_char_step, lemma_trim_empty, lowercase, position_of,
    string_of, to_lowercase, trim, trim_slice, trim_str, utf16_len, utf16_len_of, words, words_of,
};
use vstd::prelude::*;
use vstd::slice::slice_subrange;
use vstd::string::*;
use vstd::utf8::{decode_utf8, encode_scalar, encode_utf8, is_char_boundary};

verus! {

broadcast use vstd::string::group_string_axioms;

/// How the session list is ordered.
#[derive(Debug, Clone, Copy, PartialEq, Eq, Structural)]
pub enum SortMode {
    Threaded,
    Recent,
    Relevance,
}

/// Which sessions are listed by name.
#[derive(Debug, Clone, Copy, PartialEq, Eq, Structural)]
pub enum NameFilter {
    All,
    Named,
}

/// How a search token is matched.
#[derive(Debug, Clone, Copy, PartialEq, Eq, Structural)]
pub enum TokenKind {
    Fuzzy,
    Phrase,
}

/// One parsed search token.
#[derive(Debug, PartialEq, Eq)]
pub struct SearchToken {
    pub kind: TokenKind,
    pub value: String,
}

impl Clone for SearchToken {
    fn clone(&self) -> (r: Self)
        ensures
            r == *self,
    {
        SearchToken { kind: self.kind, value: self.value.clone() }
    }
}

/// How the query as a whole is matched.
#[derive(Debug, Clone, Copy, PartialEq, Eq, Structural)]
pub enum QueryMode {
    Tokens,
    Regex,
}

/// A parsed search query.
#[derive(Debug)]
pub struct ParsedSearchQuery {
    pub mode: QueryMode,
    pub tokens: Vec<SearchToken>,
    /// The pattern of a query in regex mode, matched without regard to case.
    pub regex: Option<String>,
    /// If set, parsing failed and the query matches nothing.
    pub error: Option<String>,
}

/// Whether a session matches, and how well.
#[derive(Debug, Clone, Copy, PartialEq, Eq, Structural)]
pub struct MatchResult {
    pub matches: bool,
    /// In tenths. Lower is better; only meaningful when `matches`.
    pub score: i128,
}

/// The content of a search token.
pub struct TokenView {
    pub kind: TokenKind,
    pub value: Seq<char>,
}

impl View for SearchToken {
    type V = TokenView;

    open spec fn view(&self) -> TokenView {
        TokenView { kind: self.kind, value: self.value@ }
    }
}

/// The content of a parsed query.
#[verifier::ext_equal]
pub struct QueryView {
    pub mode: QueryMode,
    pub tokens: Seq<TokenView>,
    pub regex: Option<Seq<char>>,
    pub error: Option<Seq<char>>,
}

/// The texts of an optional string.
pub open spec fn opt_text(s: Option<String>) -> Option<Seq<char>> {
    match s {
        Some(v) => Some(v@),
        None => None,
    }
}

/// The contents of a list of tokens.
pub open spec fn token_views(tokens: Seq<SearchToken>) -> Seq<TokenView> {
    tokens.map_values(|t: SearchToken| t@)
}

impl View for ParsedSearchQuery {
    type V = QueryView;

    open spec fn view(&self) -> QueryView {
        QueryView {
            mode: self.mode,
            tokens: token_views(self.tokens@),
            regex: opt_text(self.regex),
            error: opt_text(self.error),
        }
    }
}

/// The message of the error with which the pattern fails to compile case-insensitively, if it
/// does.
pub uninterp spec fn regex_error(pattern: Seq<char>) -> Option<Seq<char>>;

/// Byte offset of the leftmost case-insensitive match of the pattern in the text.
pub uninterp spec fn regex_match_start(pattern: Seq<char>, text: Seq<char>) -> Option<int>;

/// Compiles the pattern with `regex::RegexBuilder`, set to ignore case, and reports the error's
/// message if that fails.
#[verifier::external_body]
fn compile_regex(pattern: &str) -> (r: Result<(), String>)
    ensures
        match r {
            Ok(_) => regex_error(pattern@) is None,
            Err(message) => regex_error(pattern@) == Some(message@),
        },
{
    match regex::RegexBuilder::new(pattern).case_insensitive(true).build() {
        Ok(_) => Ok(()),
        Err(err) => Err(err.to_string()),
    }
}

/// The start of what `regex::Regex::find` gives for the pattern, compiled to ignore case: a byte
/// offset at a character boundary of the text. A pattern that does not compile matches nothing.
#[verifier::external_body]
fn find_regex(pattern: &str, text: &str) -> (r: Option<usize>)
    ensures
        match r {
            Some(start) => {
                &&& regex_match_start(pattern@, text@) == Some(start as int)
                &&& is_char_boundary(encode_utf8(text@), start as int)
            },
            None => regex_match_start(pattern@, text@) is None,
        },
{
    let regex = regex::RegexBuilder::new(pattern).case_insensitive(true).build().ok()?;
    regex.find(text).map(|found| found.start())
}

/// The text trimmed, each run of whitespace made a single space.
pub open spec fn collapsed(text: Seq<char>) -> Seq<char> {
    join(words(text), seq![' '])
}

/// The text in lowercase, trimmed, each run of whitespace made a single space.
pub open spec fn normalized(text: Seq<char>) -> Seq<char> {
    collapsed(lowercase(text))
}

/// The text trimmed, each run of whitespace made a single space.
pub fn collapse_whitespace(text: &str) -> (r: String)
    ensures
        r@ == collapsed(text@),
{
    proof {
        reveal_strlit(" ");
    }
    let chars = chars_of(text);
    let parts = words_of(chars.as_slice());
    assert(" "@ =~= seq![' ']);
    join_chars(&parts, " ")
}

/// The text in lowercase, trimmed, each run of whitespace made a single space.
pub fn normalize_whitespace_lower(text: &str) -> (r: String)
    ensures
        r@ == normalized(text@),
{
    let lower = to_lowercase(text);
    collapse_whitespace(lower.as_str())
}

/// What a session's search runs on: id, name, messages and working directory.
pub open spec fn search_text(session: SessionInfo) -> Seq<char> {
    let name = match session.name {
        Some(name) => name@,
        None => Seq::empty(),
    };
    session.id@ + seq![' '] + name + seq![' '] + session.all_messages_text@ + seq![' ']
        + session.cwd@
}

/// What a session's search runs on: id, name, messages and working directory.
pub fn get_session_search_text(session: &SessionInfo) -> (r: String)
    ensures
        r@ == search_text(*session),
{
    proof {
        reveal_strlit(" ");
    }
    let mut text = session.id.clone();
    text.append(" ");
    if let Some(name) = &session.name {
        text.append(name.as_str());
    }
    text.append(" ");
    text.append(session.all_messages_text.as_str());
    text.append(" ");
    text.append(session.cwd.as_str());
    assert(text@ =~= search_text(*session));
    text
}

/// Whether the session has a name that is not blank.
pub open spec fn is_named(session: SessionInfo) -> bool {
    match session.name {
        Some(name) => !is_blank(name@),
        None => false,
    }
}

/// Whether the session has a name that is not blank.
#[must_use]
pub fn has_session_name(session: &SessionInfo) -> (r: bool)
    ensures
        r == is_named(*session),
{
    match &session.name {
        Some(name) => {
            proof {
                lemma_trim_empty(name@);
            }
            let chars = chars_of(name.as_str());
            trim_slice(chars.as_slice()).len() != 0
        },
        None => false,
    }
}

/// Whether the session passes the name filter.
pub open spec fn passes_name_filter(session: SessionInfo, filter: NameFilter) -> bool {
    filter == NameFilter::All || is_named(session)
}

/// Whether the session passes the name filter.
pub fn matches_name_filter(session: &SessionInfo, filter: NameFilter) -> (r: bool)
    ensures
        r == passes_name_filter(*session, filter),
{
    match filter {
        NameFilter::All => true,
        NameFilter::Named => has_session_name(session),
    }
}

/// UTF-16 code units before the byte offset.
pub open spec fn utf16_index(text: Seq<char>, byte_offset: int) -> nat {
    utf16_len(decode_utf8(encode_utf8(text).subrange(0, byte_offset)))
}

/// UTF-16 code units before the byte offset, which stands at a character boundary.
pub fn utf16_index_at(text: &str, byte_offset: usize) -> (r: u128)
    requires
        is_char_boundary(encode_utf8(text@), byte_offset as int),
    ensures
        r == utf16_index(text@, byte_offset as int),
        r <= 2 * usize::MAX,
{
    let (before, _) = text.split_at(byte_offset);
    proof {
        vstd::utf8::encode_utf8_decode_utf8(before@);
    }
    let chars = chars_of(before);
    utf16_len_of(chars.as_slice())
}

/// The words of an unquoted stretch, each a fuzzy token.
pub open spec fn fuzzy_tokens(s: Seq<char>) -> Seq<TokenView> {
    words(s).map_values(|w: Seq<char>| TokenView { kind: TokenKind::Fuzzy, value: w })
}

/// The token of a quoted stretch: none when it is blank.
pub open spec fn phrase_tokens(s: Seq<char>) -> Seq<TokenView> {
    if trim(s).len() == 0 {
        Seq::empty()
    } else {
        seq![TokenView { kind: TokenKind::Phrase, value: trim(s) }]
    }
}

/// The tokens of text whose quotes alternately open and close a phrase, starting inside a phrase
/// if `in_quote`.
pub open spec fn quoted_tokens(s: Seq<char>, in_quote: bool) -> Seq<TokenView>
    decreases s.len(),
{
    let n = index_of_char(s, '"');
    let stretch = if n < s.len() {
        s.take(n as int)
    } else {
        s
    };
    let tokens = if in_quote {
        phrase_tokens(stretch)
    } else {
        fuzzy_tokens(stretch)
    };
    if n < s.len() {
        tokens + quoted_tokens(s.skip(n as int + 1), !in_quote)
    } else {
        tokens
    }
}

/// The tokens of a query: quoted phrases and fuzzy words, or only fuzzy words when a quote is
/// left open.
pub open spec fn query_tokens(s: Seq<char>) -> Seq<TokenView> {
    if count_char(s, '"') % 2 == 0 {
        quoted_tokens(s, false)
    } else {
        fuzzy_tokens(s)
    }
}

/// A query in token mode.
pub open spec fn token_query(tokens: Seq<TokenView>) -> QueryView {
    QueryView { mode: QueryMode::Tokens, tokens, regex: None, error: None }
}

/// A query in regex mode, given the pattern and the message of its compile error, if any.
pub open spec fn pattern_query(pattern: Seq<char>, failure: Option<Seq<char>>) -> QueryView {
    QueryView {
        mode: QueryMode::Regex,
        tokens: Seq::empty(),
        regex: if failure is None {
            Some(pattern)
        } else {
            None
        },
        error: failure,
    }
}

/// What a query text means.
pub open spec fn parsed_query(query: Seq<char>) -> QueryView {
    let trimmed = trim(query);
    if trimmed.len() == 0 {
        token_query(Seq::empty())
    } else if "re:"@.is_prefix_of(trimmed) {
        let pattern = trim(trimmed.skip(3));
        if pattern.len() == 0 {
            pattern_query(pattern, Some("Empty regex"@))
        } else {
            pattern_query(pattern, regex_error(pattern))
        }
    } else {
        token_query(query_tokens(trimmed))
    }
}

/// The query in regex mode that follows from compiling its pattern.
pub fn regex_query(pattern: String, compiled: Result<(), String>) -> (r: ParsedSearchQuery)
    ensures
        r@ == pattern_query(
            pattern@,
            match compiled {
                Ok(_) => None,
                Err(message) => Some(message@),
            },
        ),
{
    let r = match compiled {
        Ok(_) => ParsedSearchQuery {
            mode: QueryMode::Regex,
            tokens: Vec::new(),
            regex: Some(pattern),
            error: None,
        },
        Err(message) => ParsedSearchQuery {
            mode: QueryMode::Regex,
            tokens: Vec::new(),
            regex: None,
            error: Some(message),
        },
    };
    assert(r@.tokens =~= Seq::empty());
    r
}

/// Appends the words of an unquoted stretch as fuzzy tokens.
fn push_fuzzy_tokens(stretch: &[char], tokens: &mut Vec<SearchToken>)
    ensures
        token_views(final(tokens)@) == token_views(old(tokens)@) + fuzzy_tokens(stretch@),
{
    let parts = words_of(stretch);
    let mut i: usize = 0;
    while i < parts.len()
        invariant
            i <= parts.len(),
            char_texts(parts@) == words(stretch@),
            token_views(tokens@) == token_views(old(tokens)@) + fuzzy_tokens(stretch@).take(
                i as int,
            ),
        decreases parts.len() - i,
    {
        let ghost before = tokens@;
        tokens.push(SearchToken { kind: TokenKind::Fuzzy, value: string_of(parts[i].as_slice()) });
        proof {
            assert(token_views(tokens@) =~= token_views(before).push(tokens@.last()@));
            assert(fuzzy_tokens(stretch@)[i as int].value == char_texts(parts@)[i as int]);
            assert(fuzzy_tokens(stretch@).take(i as int + 1) =~= fuzzy_tokens(stretch@).take(
                i as int,
            ).push(tokens@.last()@));
        }
        i = i + 1;
    }
    proof {
        assert(parts@.len() == char_texts(parts@).len());
        assert(fuzzy_tokens(stretch@).take(i as int) =~= fuzzy_tokens(stretch@));
    }
}

/// Appends the phrase token of a quoted stretch.
fn push_phrase_token(stretch: &[char], tokens: &mut Vec<SearchToken>)
    ensures
        token_views(final(tokens)@) == token_views(old(tokens)@) + phrase_tokens(stretch@),
{
    let value = trim_slice(stretch);
    if value.len() == 0 {
        assert(token_views(tokens@) =~= token_views(tokens@) + phrase_tokens(stretch@));
        return;
    }
    let ghost before = tokens@;
    tokens.push(SearchToken { kind: TokenKind::Phrase, value: string_of(value) });
    assert(token_views(tokens@) =~= token_views(before) + phrase_tokens(stretch@));
}

/// The tokens of a trimmed query.
fn tokenize(s: &[char]) -> (tokens: Vec<SearchToken>)
    ensures
        token_views(tokens@) == query_tokens(s@),
{
    let mut tokens: Vec<SearchToken> = Vec::new();
    let mut start: usize = 0;
    let mut in_quote = false;
    assert(s@.skip(0) =~= s@);
    loop
        invariant_except_break
            start <= s.len(),
            quoted_tokens(s@, false) =~= token_views(tokens@) + quoted_tokens(
                s@.skip(start as int),
                in_quote,
            ),
            count_char(s@, '"') % 2 == (count_char(s@.skip(start as int), '"') + (if in_quote {
                1int
            } else {
                0
            })) % 2,
        ensures
            in_quote == (count_char(s@, '"') % 2 == 1),
            !in_quote ==> token_views(tokens@) == quoted_tokens(s@, false),
        decreases s.len() - start,
    {
        let ghost rest = s@.skip(start as int);
        let end = position_of(s, start, '"');
        let stretch = slice_subrange(s, start, end);
        proof {
            lemma_count_char_step(rest, '"');
            assert(stretch@ =~= rest.take(end - start));
            if end >= s.len() {
                assert(stretch@ =~= rest);
            } else {
                assert(rest.skip(end - start + 1) =~= s@.skip(end + 1));
            }
        }
        if in_quote {
            push_phrase_token(stretch, &mut tokens);
        } else {
            push_fuzzy_tokens(stretch, &mut tokens);
        }
        if end >= s.len() {
            break;
        }
        start = end + 1;
        in_quote = !in_quote;
    }
    if in_quote {
        let mut plain: Vec<SearchToken> = Vec::new();
        push_fuzzy_tokens(s, &mut plain);
        assert(token_views(plain@) =~= fuzzy_tokens(s@));
        return plain;
    }
    tokens
}

/// Parses a query: `re:` starts a regex, double quotes enclose a phrase, other words match
/// fuzzily.
#[must_use]
pub fn parse_search_query(query: &str) -> (r: ParsedSearchQuery)
    ensures
        r@ == parsed_query(query@),
{
    proof {
        reveal_strlit("re:");
    }
    let all = chars_of(query);
    let trimmed = trim_slice(all.as_slice());
    if trimmed.len() == 0 {
        let r = ParsedSearchQuery {
            mode: QueryMode::Tokens,
            tokens: Vec::new(),
            regex: None,
            error: None,
        };
        assert(r@.tokens =~= Seq::empty());
        return r;
    }
    let marker = chars_of("re:");
    if has_prefix(trimmed, marker.as_slice()) {
        let rest = slice_subrange(trimmed, 3, trimmed.len());
        let pattern = string_of(trim_slice(rest));
        assert(rest@ =~= trimmed@.skip(3));
        if pattern.as_str().is_empty() {
            return regex_query(pattern, Err("Empty regex".to_owned()));
        }
        let compiled = compile_regex(pattern.as_str());
        return regex_query(pattern, compiled);
    }
    ParsedSearchQuery {
        mode: QueryMode::Tokens,
        tokens: tokenize(trimmed),
        regex: None,
        error: None,
    }
}

/// The value nearest to `n` that a score can hold.
pub open spec fn saturated(n: int) -> int {
    if n > i128::MAX {
        i128::MAX as int
    } else if n < i128::MIN {
        i128::MIN as int
    } else {
        n
    }
}

fn add_saturating(a: i128, b: u128) -> (r: i128)
    ensures
        r == saturated(a + b),
{
    if a < 0 {
        let low: u128 = if a == i128::MIN {
            0x8000_0000_0000_0000_0000_0000_0000_0000
        } else {
            (-a) as u128
        };
        if b < low {
            let below: u128 = low - b;
            if below == 0x8000_0000_0000_0000_0000_0000_0000_0000 {
                i128::MIN
            } else {
                -(below as i128)
            }
        } else if b - low > 0x7fff_ffff_ffff_ffff_ffff_ffff_ffff_ffff {
            i128::MAX
        } else {
            (b - low) as i128
        }
    } else if b > 0x7fff_ffff_ffff_ffff_ffff_ffff_ffff_ffff - a as u128 {
        i128::MAX
    } else {
        a + b as i128
    }
}

/// The score in tenths that a token adds on the text, if it matches. `fuzzy` is the score of the
/// fuzzy match of the token's value in the text, if that matches.
pub open spec fn token_score(text: Seq<char>, token: TokenView, fuzzy: Option<i64>) -> Option<int> {
    match token.kind {
        TokenKind::Phrase => phrase_position(normalized(text), normalized(token.value)),
        TokenKind::Fuzzy => match fuzzy {
            Some(score) => Some(score as int),
            None => None,
        },
    }
}

/// The fuzzy score at index `i` of the row; none beyond its end.
pub open spec fn fuzzy_at(row: Seq<Option<i64>>, i: int) -> Option<i64> {
    if 0 <= i < row.len() {
        row[i]
    } else {
        None
    }
}

/// The score of all the tokens together, if each of them matches.
pub open spec fn tokens_score(
    text: Seq<char>,
    tokens: Seq<TokenView>,
    row: Seq<Option<i64>>,
) -> Option<int>
    decreases tokens.len(),
{
    if tokens.len() == 0 {
        Some(0)
    } else {
        match tokens_score(text, tokens.drop_last(), row) {
            Some(sum) => match token_score(
                text,
                tokens.last(),
                fuzzy_at(row, tokens.len() - 1),
            ) {
                Some(score) => Some(sum + score),
                None => None,
            },
            None => None,
        }
    }
}

/// The score of a regex match: the UTF-16 index where it starts.
pub open spec fn regex_score(text: Seq<char>, start: Option<int>) -> Option<int> {
    match start {
        Some(i) => Some(utf16_index(text, i) as int),
        None => None,
    }
}

/// The score in tenths of a query on a text, if it matches. `row` holds the fuzzy score of each
/// token on the text.
pub open spec fn query_score(
    text: Seq<char>,
    query: QueryView,
    row: Seq<Option<i64>>,
) -> Option<int> {
    match query.mode {
        QueryMode::Regex => match query.regex {
            Some(pattern) => regex_score(text, regex_match_start(pattern, text)),
            None => None,
        },
        QueryMode::Tokens => tokens_score(text, query.tokens, row),
    }
}

/// The match result of an optional score.
pub open spec fn result_of(score: Option<int>) -> MatchResult {
    match score {
        Some(score) => MatchResult { matches: true, score: saturated(score) as i128 },
        None => MatchResult { matches: false, score: 0 },
    }
}

/// The match result of a regex search that found a match at the byte offset, if at all.
pub fn regex_result(text: &str, start: Option<usize>) -> (r: MatchResult)
    requires
        start matches Some(i) ==> is_char_boundary(encode_utf8(text@), i as int),
    ensures
        r == result_of(
            regex_score(
                text@,
                match start {
                    Some(i) => Some(i as int),
                    None => None,
                },
            ),
        ),
{
    match start {
        Some(i) => MatchResult { matches: true, score: utf16_index_at(text, i) as i128 },
        None => MatchResult { matches: false, score: 0 },
    }
}

/// The score of a phrase on a text, both normalized: the UTF-16 index of its first occurrence. An
/// empty phrase always scores nothing.
pub open spec fn phrase_position(text: Seq<char>, phrase: Seq<char>) -> Option<int> {
    if phrase.len() == 0 {
        Some(0)
    } else {
        match find(text, phrase) {
            Some(i) => Some(utf16_len(text.take(i)) as int),
            None => None,
        }
    }
}

proof fn lemma_utf16_len_first(s: Seq<char>)
    requires
        s.len() > 0,
    ensures
        utf16_len(s) == char_utf16_len(s[0]) + utf16_len(s.drop_first()),
    decreases s.len(),
{
    let rest = s.drop_first();
    if s.len() == 1 {
        assert(s.drop_last() =~= Seq::empty());
        assert(rest =~= Seq::empty());
    } else {
        lemma_utf16_len_first(s.drop_last());
        assert(s.drop_last().drop_first() =~= rest.drop_last());
    }
}

/// A text takes at least as many bytes in UTF-8 as it takes units in UTF-16.
proof fn lemma_utf16_fits_utf8(s: Seq<char>)
    ensures
        utf16_len(s) <= encode_utf8(s).len(),
    decreases s.len(),
{
    if s.len() > 0 {
        lemma_utf16_len_first(s);
        lemma_utf16_fits_utf8(s.drop_first());
        assert(char_utf16_len(s[0]) <= encode_scalar(s[0] as u32).len());
    }
}

proof fn lemma_utf16_len_take(s: Seq<char>, i: int)
    requires
        0 <= i <= s.len(),
    ensures
        utf16_len(s.take(i)) <= utf16_len(s),
    decreases s.len(),
{
    if i < s.len() {
        assert(s.drop_last().take(i) =~= s.take(i));
        lemma_utf16_len_take(s.drop_last(), i);
    } else {
        assert(s.take(i) =~= s);
    }
}

/// The score of a phrase on a text, both normalized: the UTF-16 index of its first occurrence. An
/// empty phrase always scores nothing.
pub fn phrase_score(text: &str, phrase: &str) -> (r: Option<usize>)
    ensures
        match r {
            Some(score) => phrase_position(text@, phrase@) == Some(score as int),
            None => phrase_position(text@, phrase@) is None,
        },
{
    if phrase.is_empty() {
        return Some(0);
    }
    let haystack = chars_of(text);
    let needle = chars_of(phrase);
    match find_chars(haystack.as_slice(), needle.as_slice()) {
        Some(i) => {
            let before = slice_subrange(haystack.as_slice(), 0, i);
            assert(before@ =~= text@.take(i as int));
            let bytes = text.as_bytes();
            proof {
                lemma_utf16_len_take(text@, i as int);
                lemma_utf16_fits_utf8(text@);
                assert(bytes.len() == encode_utf8(text@).len());
            }
            Some(utf16_len_of(before) as usize)
        },
        None => None,
    }
}

proof fn lemma_tokens_score_prefix(
    text: Seq<char>,
    tokens: Seq<TokenView>,
    row: Seq<Option<i64>>,
    n: int,
)
    requires
        0 <= n <= tokens.len(),
        tokens_score(text, tokens.take(n), row) is None,
    ensures
        tokens_score(text, tokens, row) is None,
    decreases tokens.len() - n,
{
    if n < tokens.len() {
        assert(tokens.take(n + 1).drop_last() =~= tokens.take(n));
        lemma_tokens_score_prefix(text, tokens, row, n + 1);
    } else {
        assert(tokens.take(n) =~= tokens);
    }
}

/// Matches a session against a query. `fuzzy` holds, for each token of the query, the score in
/// tenths of its fuzzy match on the session's search text, if it matches.
#[must_use]
pub fn match_session(
    session: &SessionInfo,
    parsed: &ParsedSearchQuery,
    fuzzy: &Vec<Option<i64>>,
) -> (r: MatchResult)
    ensures
        r == result_of(query_score(search_text(*session), parsed@, fuzzy@)),
{
    let text = get_session_search_text(session);
    if parsed.mode == QueryMode::Regex {
        return match &parsed.regex {
            Some(pattern) => {
                let start = find_regex(pattern.as_str(), text.as_str());
                regex_result(text.as_str(), start)
            },
            None => MatchResult { matches: false, score: 0 },
        };
    }
    let normalized_text = normalize_whitespace_lower(text.as_str());
    let mut fuzzy_total: i128 = 0;
    let mut phrase_total: u128 = 0;
    let mut i: usize = 0;
    let ghost tokens = parsed@.tokens;
    while i < parsed.tokens.len()
        invariant
            i <= parsed.tokens.len(),
            parsed.mode == QueryMode::Tokens,
            text@ == search_text(*session),
            normalized_text@ == normalized(text@),
            tokens == parsed@.tokens,
            tokens_score(text@, tokens.take(i as int), fuzzy@) == Some(fuzzy_total + phrase_total),
            -(i * 0x8000_0000_0000_0000) <= fuzzy_total <= i * 0x8000_0000_0000_0000,
            phrase_total <= i * 0xffff_ffff_ffff_ffff,
        decreases parsed.tokens.len() - i,
    {
        let token = &parsed.tokens[i];
        assert(tokens[i as int] == token@);
        proof {
            assert(tokens.take(i as int + 1).drop_last() =~= tokens.take(i as int));
        }
        let matched = if token.kind == TokenKind::Phrase {
            let phrase = normalize_whitespace_lower(token.value.as_str());
            match phrase_score(normalized_text.as_str(), phrase.as_str()) {
                Some(score) => {
                    phrase_total = phrase_total + score as u128;
                    true
                },
                None => false,
            }
        } else if i < fuzzy.len() {
            match fuzzy[i] {
                Some(score) => {
                    fuzzy_total = fuzzy_total + score as i128;
                    true
                },
                None => false,
            }
        } else {
            false
        };
        if !matched {
            proof {
                lemma_tokens_score_prefix(text@, tokens, fuzzy@, i as int + 1);
            }
            return MatchResult { matches: false, score: 0 };
        }
        i = i + 1;
    }
    assert(tokens.take(i as int) =~= tokens);
    MatchResult { matches: true, score: add_saturating(fuzzy_total, phrase_total) }
}

/// What orders sessions by relevance: the score, then the most recently modified first.
pub struct RelevanceKey {
    pub score: i128,
    pub modified_ms: i64,
}

impl Ranked for RelevanceKey {
    type Rank = RelevanceKey;

    open spec fn rank(&self) -> RelevanceKey {
        *self
    }

    open spec fn at_most(a: RelevanceKey, b: RelevanceKey) -> bool {
        a.score < b.score || (a.score == b.score && a.modified_ms >= b.modified_ms)
    }

    proof fn total(a: RelevanceKey, b: RelevanceKey) {
    }

    proof fn transitive(a: RelevanceKey, b: RelevanceKey, c: RelevanceKey) {
    }

    fn is_at_most(&self, other: &Self) -> bool {
        self.score < other.score || (self.score == other.score && self.modified_ms
            >= other.modified_ms)
    }
}

/// The row of fuzzy scores of session `i`; empty beyond the end of the table.
pub open spec fn fuzzy_row(fuzzy: Seq<Vec<Option<i64>>>, i: int) -> Seq<Option<i64>> {
    if 0 <= i < fuzzy.len() {
        fuzzy[i]@
    } else {
        Seq::empty()
    }
}

/// The score of session `i`, if it matches the query.
pub open spec fn session_score(
    sessions: Seq<SessionInfo>,
    query: QueryView,
    fuzzy: Seq<Vec<Option<i64>>>,
    i: int,
) -> Option<int> {
    query_score(search_text(sessions[i]), query, fuzzy_row(fuzzy, i))
}

/// The indices of the first `n` sessions that pass the name filter, in order.
pub open spec fn named_indices(sessions: Seq<SessionInfo>, name_filter: NameFilter, n: nat) -> Seq<
    int,
> {
    Seq::new(n, |i: int| i).filter(|i: int| passes_name_filter(sessions[i], name_filter))
}

/// The indices of the first `n` sessions that pass the name filter and match the query, in
/// order.
pub open spec fn matching_indices(
    sessions: Seq<SessionInfo>,
    query: QueryView,
    fuzzy: Seq<Vec<Option<i64>>>,
    name_filter: NameFilter,
    n: nat,
) -> Seq<int> {
    Seq::new(n, |i: int| i).filter(
        |i: int|
            passes_name_filter(sessions[i], name_filter) && session_score(
                sessions,
                query,
                fuzzy,
                i,
            ) is Some,
    )
}

/// What ranks the sessions at the given indices by relevance.
pub open spec fn relevance_keys(
    sessions: Seq<SessionInfo>,
    query: QueryView,
    fuzzy: Seq<Vec<Option<i64>>>,
    indices: Seq<int>,
) -> Seq<RelevanceKey> {
    indices.map_values(
        |i: int|
            RelevanceKey {
                score: result_of(session_score(sessions, query, fuzzy, i)).score,
                modified_ms: sessions[i].modified_ms,
            },
    )
}

/// The sessions at the given indices.
pub open spec fn sessions_at(sessions: Seq<SessionInfo>, indices: Seq<int>) -> Seq<SessionInfo> {
    indices.map_values(|i: int| sessions[i])
}

/// The indices of the sessions a search lists, in listed order.
pub open spec fn listed_indices(
    sessions: Seq<SessionInfo>,
    query: Seq<char>,
    sort_mode: SortMode,
    name_filter: NameFilter,
    fuzzy: Seq<Vec<Option<i64>>>,
) -> Seq<int> {
    let parsed = parsed_query(query);
    if is_blank(query) {
        named_indices(sessions, name_filter, sessions.len())
    } else if parsed.error is Some {
        Seq::empty()
    } else {
        let kept = matching_indices(sessions, parsed, fuzzy, name_filter, sessions.len());
        if sort_mode == SortMode::Recent {
            kept
        } else {
            stable_order::<RelevanceKey>(relevance_keys(sessions, parsed, fuzzy, kept)).map_values(
                |k: usize| kept[k as int],
            )
        }
    }
}

proof fn lemma_filter_range_step(n: nat, keep: spec_fn(int) -> bool)
    ensures
        Seq::new((n + 1) as nat, |i: int| i).filter(keep) == if keep(n as int) {
            Seq::new(n, |i: int| i).filter(keep).push(n as int)
        } else {
            Seq::new(n, |i: int| i).filter(keep)
        },
{
    let shorter = Seq::new(n, |i: int| i);
    let longer = Seq::new((n + 1) as nat, |i: int| i);
    assert(longer =~= shorter.push(n as int));
    shorter.lemma_filter_push(n as int, keep);
}

/// Filters the sessions by name and query, and sorts them: in the incoming order when the query
/// is blank or the mode is `Recent`, otherwise by score, the most recently modified first among
/// equals. `fuzzy` holds, for each session and each token of the query, the score in tenths of the
/// token's fuzzy match on the session's search text, if it matches.
#[must_use]
pub fn filter_and_sort_sessions(
    sessions: &Vec<SessionInfo>,
    query: &str,
    sort_mode: SortMode,
    name_filter: NameFilter,
    fuzzy: &Vec<Vec<Option<i64>>>,
) -> (r: Vec<SessionInfo>)
    ensures
        r@ == sessions_at(
            sessions@,
            listed_indices(sessions@, query@, sort_mode, name_filter, fuzzy@),
        ),
{
    let mut r: Vec<SessionInfo> = Vec::new();
    let trimmed = trim_str(query);
    proof {
        lemma_trim_empty(query@);
    }
    if trimmed.as_str().is_empty() {
        let mut i: usize = 0;
        assert(named_indices(sessions@, name_filter, 0) =~= Seq::empty()) by {
            reveal(Seq::filter);
        }
        while i < sessions.len()
            invariant
                i <= sessions.len(),
                r@ =~= sessions_at(sessions@, named_indices(sessions@, name_filter, i as nat)),
            decreases sessions.len() - i,
        {
            proof {
                lemma_filter_range_step(
                    i as nat,
                    |k: int| passes_name_filter(sessions@[k], name_filter),
                );
            }
            if matches_name_filter(&sessions[i], name_filter) {
                r.push(sessions[i].clone());
            }
            i = i + 1;
        }
        return r;
    }
    let parsed = parse_search_query(query);
    if parsed.error.is_some() {
        assert(r@ =~= sessions_at(sessions@, Seq::empty()));
        return r;
    }
    let mut kept: Vec<usize> = Vec::new();
    let mut keys: Vec<RelevanceKey> = Vec::new();
    let no_scores: Vec<Option<i64>> = Vec::new();
    let ghost found = |n: nat| matching_indices(sessions@, parsed@, fuzzy@, name_filter, n);
    let mut i: usize = 0;
    assert(found(0) =~= Seq::empty()) by {
        reveal(Seq::filter);
    }
    while i < sessions.len()
        invariant
            i <= sessions.len(),
            no_scores@.len() == 0,
            found == (|n: nat| matching_indices(sessions@, parsed@, fuzzy@, name_filter, n)),
            kept@.map_values(|k: usize| k as int) =~= found(i as nat),
            forall|p: int| 0 <= p < kept.len() ==> #[trigger] kept[p] < i,
            keys@ =~= relevance_keys(sessions@, parsed@, fuzzy@, found(i as nat)),
        decreases sessions.len() - i,
    {
        proof {
            lemma_filter_range_step(
                i as nat,
                |k: int|
                    passes_name_filter(sessions@[k], name_filter) && session_score(
                        sessions@,
                        parsed@,
                        fuzzy@,
                        k,
                    ) is Some,
            );
        }
        let row = if i < fuzzy.len() {
            &fuzzy[i]
        } else {
            &no_scores
        };
        assert(row@ =~= fuzzy_row(fuzzy@, i as int));
        if matches_name_filter(&sessions[i], name_filter) {
            let res = match_session(&sessions[i], &parsed, row);
            if res.matches {
                kept.push(i);
                keys.push(RelevanceKey { score: res.score, modified_ms: sessions[i].modified_ms });
            }
        }
        i = i + 1;
    }
    let ghost all = found(sessions@.len());
    if sort_mode == SortMode::Recent {
        let mut k: usize = 0;
        while k < kept.len()
            invariant
                k <= kept.len(),
                kept@.map_values(|k: usize| k as int) =~= all,
                forall|p: int| 0 <= p < kept.len() ==> #[trigger] kept[p] < sessions.len(),
                r@ =~= sessions_at(sessions@, all.take(k as int)),
            decreases kept.len() - k,
        {
            assert(all[k as int] == kept[k as int]);
            r.push(sessions[kept[k]].clone());
            k = k + 1;
        }
        assert(all.take(k as int) =~= all);
        return r;
    }
    assert(ranks(keys@) =~= keys@);
    let order = sort_indices(&keys);
    let ghost listed = order@.map_values(|k: usize| all[k as int]);
    let mut k: usize = 0;
    while k < order.len()
        invariant
            k <= order.len(),
            order.len() == keys.len(),
            keys.len() == kept.len(),
            listed == order@.map_values(|k: usize| all[k as int]),
            kept@.map_values(|k: usize| k as int) =~= all,
            forall|p: int| 0 <= p < kept.len() ==> #[trigger] kept[p] < sessions.len(),
            is_stable_order::<RelevanceKey>(order@, keys@),
            r@ =~= sessions_at(sessions@, listed.take(k as int)),
        decreases order.len() - k,
    {
        let at: usize = order[k];
        assert(all[at as int] == kept[at as int]);
        r.push(sessions[kept[at]].clone());
        k = k + 1;
    }
    assert(listed.take(k as int) =~= listed);
    r
}

/// A search that is not blank lists exactly the sessions that pass the name filter and match the
/// query, and lists nothing when the query does not parse.
pub proof fn search_lists_the_matches(
    sessions: Seq<SessionInfo>,
    query: Seq<char>,
    sort_mode: SortMode,
    name_filter: NameFilter,
    fuzzy: Seq<Vec<Option<i64>>>,
    i: int,
)
    requires
        0 <= i < sessions.len(),
        sessions.len() <= usize::MAX,
        !is_blank(query),
    ensures
        listed_indices(sessions, query, sort_mode, name_filter, fuzzy).contains(i) <==> {
            &&& parsed_query(query).error is None
            &&& passes_name_filter(sessions[i], name_filter)
            &&& session_score(sessions, parsed_query(query), fuzzy, i) is Some
        },
{
    let parsed = parsed_query(query);
    let listed = listed_indices(sessions, query, sort_mode, name_filter, fuzzy);
    if parsed.error is None {
        let all = Seq::new(sessions.len(), |i: int| i);
        let keep = |i: int|
            passes_name_filter(sessions[i], name_filter) && session_score(
                sessions,
                parsed,
                fuzzy,
                i,
            ) is Some;
        let kept = matching_indices(sessions, parsed, fuzzy, name_filter, sessions.len());
        broadcast use vstd::seq_lib::group_filter_ensures;

        all.lemma_filter_len(keep);
        assert(all[i] == i);
        assert(kept.contains(i) <==> keep(i)) by {
            if kept.contains(i) {
                let k = kept.index_of(i);
                assert(keep(kept[k]));
            }
            if keep(i) {
                assert(all.contains(i));
            }
        }
        if sort_mode != SortMode::Recent {
            let keys = relevance_keys(sessions, parsed, fuzzy, kept);
            lemma_stable_order_exists::<RelevanceKey>(keys);
            let order = stable_order::<RelevanceKey>(keys);
            lemma_covers(order, keys.len());
            if kept.contains(i) {
                let k = kept.index_of(i);
                assert(order.contains(k as usize));
                let p = order.index_of(k as usize);
                assert(listed[p] == i);
            }
            if listed.contains(i) {
                let p = listed.index_of(i);
                assert(kept[order[p] as int] == i);
            }
        }
    }
}

/// Outside the mode `Recent`, a search that is not blank lists sessions by score, the most
/// recently modified first among equal scores.
pub proof fn search_is_sorted_by_relevance(
    sessions: Seq<SessionInfo>,
    query: Seq<char>,
    sort_mode: SortMode,
    name_filter: NameFilter,
    fuzzy: Seq<Vec<Option<i64>>>,
    p: int,
    q: int,
)
    requires
        sessions.len() <= usize::MAX,
        !is_blank(query),
        sort_mode != SortMode::Recent,
        0 <= p < q < listed_indices(sessions, query, sort_mode, name_filter, fuzzy).len(),
    ensures
        ({
            let listed = listed_indices(sessions, query, sort_mode, name_filter, fuzzy);
            let a = result_of(session_score(sessions, parsed_query(query), fuzzy, listed[p])).score;
            let b = result_of(session_score(sessions, parsed_query(query), fuzzy, listed[q])).score;
            a < b || (a == b && sessions[listed[p]].modified_ms >= sessions[listed[q]].modified_ms)
        }),
{
    let parsed = parsed_query(query);
    let all = Seq::new(sessions.len(), |i: int| i);
    let keep = |i: int|
        passes_name_filter(sessions[i], name_filter) && session_score(
            sessions,
            parsed,
            fuzzy,
            i,
        ) is Some;
    all.lemma_filter_len(keep);
    let kept = matching_indices(sessions, parsed, fuzzy, name_filter, sessions.len());
    let keys = relevance_keys(sessions, parsed, fuzzy, kept);
    lemma_stable_order_exists::<RelevanceKey>(keys);
    let order = stable_order::<RelevanceKey>(keys);
    assert(comes_before::<RelevanceKey>(keys, order[p] as int, order[q] as int));
}

proof fn lemma_filter_range_rises(n: nat, keep: spec_fn(int) -> bool, kept: Seq<int>)
    requires
        kept == Seq::new(n, |i: int| i).filter(keep),
    ensures
        forall|p: int| 0 <= p < kept.len() ==> 0 <= #[trigger] kept[p] < n,
        forall|p: int, q: int|
            0 <= p < q < kept.len() ==> #[trigger] kept[p] < #[trigger] kept[q],
    decreases n,
{
    if n == 0 {
        assert(kept.len() == 0) by {
            reveal(Seq::filter);
        }
    } else {
        let before = Seq::new((n - 1) as nat, |i: int| i).filter(keep);
        lemma_filter_range_rises((n - 1) as nat, keep, before);
        lemma_filter_range_step((n - 1) as nat, keep);
    }
}

/// A blank search, and any search in the mode `Recent`, keeps the incoming order of the sessions.
pub proof fn recent_search_keeps_the_order(
    sessions: Seq<SessionInfo>,
    query: Seq<char>,
    sort_mode: SortMode,
    name_filter: NameFilter,
    fuzzy: Seq<Vec<Option<i64>>>,
    p: int,
    q: int,
)
    requires
        is_blank(query) || sort_mode == SortMode::Recent,
        0 <= p < q < listed_indices(sessions, query, sort_mode, name_filter, fuzzy).len(),
    ensures
        listed_indices(sessions, query, sort_mode, name_filter, fuzzy)[p] < listed_indices(
            sessions,
            query,
            sort_mode,
            name_filter,
            fuzzy,
        )[q],
{
    let parsed = parsed_query(query);
    lemma_filter_range_rises(
        sessions.len(),
        |i: int| passes_name_filter(sessions[i], name_filter),
        named_indices(sessions, name_filter, sessions.len()),
    );
    lemma_filter_range_rises(
        sessions.len(),
        |i: int|
            passes_name_filter(sessions[i], name_filter) && session_score(
                sessions,
                parsed,
                fuzzy,
                i,
            ) is Some,
        matching_indices(sessions, parsed, fuzzy, name_filter, sessions.len()),
    );
}

/// A blank search lists exactly the sessions that pass the name filter.
pub proof fn blank_search_lists_all(
    sessions: Seq<SessionInfo>,
    query: Seq<char>,
    sort_mode: SortMode,
    name_filter: NameFilter,
    fuzzy: Seq<Vec<Option<i64>>>,
    i: int,
)
    requires
        0 <= i < sessions.len(),
        is_blank(query),
    ensures
        listed_indices(sessions, query, sort_mode, name_filter, fuzzy).contains(i)
            <==> passes_name_filter(sessions[i], name_filter),
{
    let all = Seq::new(sessions.len(), |i: int| i);
    let keep = |i: int| passes_name_filter(sessions[i], name_filter);
    let listed = listed_indices(sessions, query, sort_mode, name_filter, fuzzy);
    broadcast use vstd::seq_lib::group_filter_ensures;

    all.lemma_filter_len(keep);
    assert(all[i] == i);
    if listed.contains(i) {
        let k = listed.index_of(i);
        assert(keep(listed[k]));
    }
    if keep(i) {
        assert(all.contains(i));
    }
}

/// A list of tokens matches where each of its parts does, and its score is then the sum of theirs.
/// No tokens match everything and score nothing, and what does not match has no score.
pub proof fn joined_tokens_add_up(
    text: Seq<char>,
    p: Seq<TokenView>,
    q: Seq<TokenView>,
    p_row: Seq<Option<i64>>,
    q_row: Seq<Option<i64>>,
)
    requires
        p_row.len() == p.len(),
    ensures
        ({
            let both = tokens_score(text, p + q, p_row + q_row);
            let first = tokens_score(text, p, p_row);
            let second = tokens_score(text, q, q_row);
            &&& both is Some <==> first is Some && second is Some
            &&& both is Some ==> both->0 == first->0 + second->0
        }),
        result_of(tokens_score(text, Seq::empty(), p_row)) == (MatchResult {
            matches: true,
            score: 0,
        }),
        tokens_score(text, p, p_row) is None ==> result_of(tokens_score(text, p, p_row)) == (
        MatchResult { matches: false, score: 0 }),
    decreases q.len(),
{
    let all = p + q;
    let row = p_row + q_row;
    if q.len() == 0 {
        assert(all =~= p);
        lemma_same_scores(text, p, p_row, row);
    } else {
        let rest = q.drop_last();
        joined_tokens_add_up(text, p, rest, p_row, q_row);
        assert(all.drop_last() =~= p + rest);
        assert(all.last() == q.last());
        assert(fuzzy_at(row, all.len() - 1) == fuzzy_at(q_row, q.len() - 1));
    }
}

/// Scores behind those of the tokens do not count.
proof fn lemma_same_scores(
    text: Seq<char>,
    tokens: Seq<TokenView>,
    row: Seq<Option<i64>>,
    longer: Seq<Option<i64>>,
)
    requires
        tokens.len() <= row.len(),
        row.is_prefix_of(longer),
    ensures
        tokens_score(text, tokens, row) == tokens_score(text, tokens, longer),
    decreases tokens.len(),
{
    if tokens.len() > 0 {
        lemma_same_scores(text, tokens.drop_last(), row, longer);
        assert(longer[tokens.len() - 1] == row[tokens.len() - 1]);
    }
}

/// No session is listed twice.
pub proof fn search_lists_nothing_twice(
    sessions: Seq<SessionInfo>,
    query: Seq<char>,
    sort_mode: SortMode,
    name_filter: NameFilter,
    fuzzy: Seq<Vec<Option<i64>>>,
)
    requires
        sessions.len() <= usize::MAX,
    ensures
        listed_indices(sessions, query, sort_mode, name_filter, fuzzy).no_duplicates(),
        forall|p: int|
            0 <= p < listed_indices(sessions, query, sort_mode, name_filter, fuzzy).len() ==> 0
                <= #[trigger] listed_indices(sessions, query, sort_mode, name_filter, fuzzy)[p]
                < sessions.len(),
{
    let parsed = parsed_query(query);
    let kept = matching_indices(sessions, parsed, fuzzy, name_filter, sessions.len());
    lemma_kept_rise(sessions, parsed, name_filter, fuzzy);
    let keys = relevance_keys(sessions, parsed, fuzzy, kept);
    lemma_stable_order_exists::<RelevanceKey>(keys);
    let order = stable_order::<RelevanceKey>(keys);
    let listed = listed_indices(sessions, query, sort_mode, name_filter, fuzzy);
    if !is_blank(query) && parsed.error is None && sort_mode != SortMode::Recent {
        assert forall|p: int, q: int| 0 <= p < q < listed.len() implies listed[p] != listed[q] by {
            assert(order[p] != order[q]);
            assert(listed[p] == kept[order[p] as int] && listed[q] == kept[order[q] as int]);
        }
        assert forall|p: int| 0 <= p < listed.len() implies 0 <= #[trigger] listed[p]
            < sessions.len() by {
            assert(listed[p] == kept[order[p] as int]);
        }
    }
}

proof fn lemma_kept_rise(
    sessions: Seq<SessionInfo>,
    parsed: QueryView,
    name_filter: NameFilter,
    fuzzy: Seq<Vec<Option<i64>>>,
)
    ensures
        ({
            let named = named_indices(sessions, name_filter, sessions.len());
            let kept = matching_indices(sessions, parsed, fuzzy, name_filter, sessions.len());
            &&& forall|p: int| 0 <= p < named.len() ==> 0 <= #[trigger] named[p] < sessions.len()
            &&& forall|p: int, q: int|
                0 <= p < q < named.len() ==> #[trigger] named[p] < #[trigger] named[q]
            &&& forall|p: int| 0 <= p < kept.len() ==> 0 <= #[trigger] kept[p] < sessions.len()
            &&& forall|p: int, q: int|
                0 <= p < q < kept.len() ==> #[trigger] kept[p] < #[trigger] kept[q]
            &&& kept.len() <= sessions.len()
        }),
{
    let keep = |i: int|
        passes_name_filter(sessions[i], name_filter) && session_score(
            sessions,
            parsed,
            fuzzy,
            i,
        ) is Some;
    lemma_filter_range_rises(
        sessions.len(),
        |i: int| passes_name_filter(sessions[i], name_filter),
        named_indices(sessions, name_filter, sessions.len()),
    );
    lemma_filter_range_rises(
        sessions.len(),
        keep,
        matching_indices(sessions, parsed, fuzzy, name_filter, sessions.len()),
    );
    Seq::new(sessions.len(), |i: int| i).lemma_filter_len(keep);
}

/// Sessions of equal score that were modified at the same time keep their incoming order.
pub proof fn equal_matches_keep_their_order(
    sessions: Seq<SessionInfo>,
    query: Seq<char>,
    sort_mode: SortMode,
    name_filter: NameFilter,
    fuzzy: Seq<Vec<Option<i64>>>,
    p: int,
    q: int,
)
    requires
        sessions.len() <= usize::MAX,
        0 <= p < q < listed_indices(sessions, query, sort_mode, name_filter, fuzzy).len(),
    ensures
        ({
            let listed = listed_indices(sessions, query, sort_mode, name_filter, fuzzy);
            let a = result_of(session_score(sessions, parsed_query(query), fuzzy, listed[p])).score;
            let b = result_of(session_score(sessions, parsed_query(query), fuzzy, listed[q])).score;
            a == b && sessions[listed[p]].modified_ms == sessions[listed[q]].modified_ms
                ==> listed[p] < listed[q]
        }),
{
    let parsed = parsed_query(query);
    let kept = matching_indices(sessions, parsed, fuzzy, name_filter, sessions.len());
    lemma_kept_rise(sessions, parsed, name_filter, fuzzy);
    if !is_blank(query) && parsed.error is None && sort_mode != SortMode::Recent {
        let keys = relevance_keys(sessions, parsed, fuzzy, kept);
        lemma_stable_order_exists::<RelevanceKey>(keys);
        let order = stable_order::<RelevanceKey>(keys);
        assert(comes_before::<RelevanceKey>(keys, order[p] as int, order[q] as int));
    }
}

} // verus!
