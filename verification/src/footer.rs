//! Three-line interactive footer.

use crate::fitting::{fit_line, fitted_line, fitted_width, is_cut, LineCut, MeasuredLine};
use crate::order::{is_stable_order, ranks, sort_indices, stable_order};
use crate::resources::{normal_parts, path_parts, NameKey};
use crate::style::{
    bold_colored, bold_fg, colored, fg, plain, push_span, raw, spans, tint_line, tinted, Measured,
    Span, SpanView, ThemeColor,
};
use crate::text::{
    char_texts, chars_of, decimal, decimal_str, digit, digit_char, has_prefix, join, join_strs,
    push_char, push_repeat, push_text, repeat, split, split_chars, str_eq, string_of, texts, trim,
    trim_slice,
};
use vstd::prelude::*;
use vstd::slice::slice_subrange;
use vstd::string::*;

verus! {

broadcast use vstd::string::group_string_axioms;

/// What the footer tells of the session.
#[derive(Debug)]
pub struct FooterStats {
    pub input: u64,
    pub output: u64,
    pub cache_read: u64,
    pub cache_write: u64,
    /// The cost in billionths of a dollar.
    pub cost: u64,
    /// How much of the context is used, in billionths of a percent.
    pub context_percent: Option<u64>,
    pub context_window: u64,
    pub model: Option<String>,
    pub provider: Option<String>,
    pub reasoning: bool,
    pub thinking_level: Option<String>,
    pub using_subscription: bool,
    pub experimental: bool,
}

/// A number of tenths as a decimal fraction.
pub open spec fn tenths(n: nat) -> Seq<char> {
    decimal(n / 10) + seq!['.', digit(n % 10)]
}

/// A number of thousandths as a decimal fraction.
pub open spec fn thousandths(n: nat) -> Seq<char> {
    decimal(n / 1000) + seq!['.', digit(n / 100 % 10), digit(n / 10 % 10), digit(n % 10)]
}

/// The quotient rounded to the nearest whole number, halves up.
pub open spec fn rounded(n: nat, d: nat) -> nat {
    (n + d / 2) / d
}

/// How a number of tokens is shown.
pub open spec fn token_text(count: nat) -> Seq<char> {
    if count < 1_000 {
        decimal(count)
    } else if count < 10_000 {
        tenths(rounded(count, 100)) + "k"@
    } else if count < 1_000_000 {
        decimal(rounded(count, 1_000)) + "k"@
    } else if count < 10_000_000 {
        tenths(rounded(count, 100_000)) + "M"@
    } else {
        decimal(rounded(count, 1_000_000)) + "M"@
    }
}

fn tenths_str(n: u128) -> (r: String)
    ensures
        r@ == tenths(n as nat),
{
    let mut r = decimal_str(n / 10);
    let ghost whole = r@;
    push_char(&mut r, '.');
    push_char(&mut r, digit_char(n % 10));
    assert(r@ =~= whole + seq!['.', digit(n as nat % 10)]);
    r
}

fn thousandths_str(n: u128) -> (r: String)
    ensures
        r@ == thousandths(n as nat),
{
    let mut r = decimal_str(n / 1000);
    let ghost whole = r@;
    push_char(&mut r, '.');
    push_char(&mut r, digit_char(n / 100 % 10));
    push_char(&mut r, digit_char(n / 10 % 10));
    push_char(&mut r, digit_char(n % 10));
    assert(r@ =~= whole + seq![
        '.',
        digit(n as nat / 100 % 10),
        digit(n as nat / 10 % 10),
        digit(n as nat % 10),
    ]);
    r
}

/// How a number of tokens is shown.
#[must_use]
pub fn format_tokens(count: u64) -> (r: String)
    ensures
        r@ == token_text(count as nat),
{
    let n: u128 = count as u128;
    if n < 1_000 {
        decimal_str(n)
    } else if n < 10_000 {
        tenths_str((n + 50) / 100).concat("k")
    } else if n < 1_000_000 {
        decimal_str((n + 500) / 1_000).concat("k")
    } else if n < 10_000_000 {
        tenths_str((n + 50_000) / 100_000).concat("M")
    } else {
        decimal_str((n + 500_000) / 1_000_000).concat("M")
    }
}

/// The parts of a path; a relative one starts at the current directory.
pub open spec fn resolved_parts(path: Seq<char>, current_dir: Seq<char>) -> Seq<Seq<char>> {
    if path.len() > 0 && path[0] == '/' {
        normal_parts(split(path, '/'))
    } else {
        normal_parts(split(current_dir + "/"@ + path, '/'))
    }
}

/// The directory as the footer shows it: below the home directory, with `~` for it.
pub open spec fn shown_directory(
    cwd: Seq<char>,
    home: Option<Seq<char>>,
    current_dir: Seq<char>,
) -> Seq<char> {
    match home {
        None => cwd,
        Some(home) => {
            let inside = resolved_parts(cwd, current_dir);
            let outside = resolved_parts(home, current_dir);
            if outside.len() <= inside.len() && inside.take(outside.len() as int) == outside {
                join(seq!["~"@] + inside.skip(outside.len() as int), "/"@)
            } else {
                cwd
            }
        },
    }
}

fn resolve_lexically(path: &str, current_dir: &str) -> (r: Vec<String>)
    ensures
        texts(r@) == resolved_parts(path@, current_dir@),
{
    let chars = chars_of(path);
    if chars.len() > 0 && chars[0] == '/' {
        path_parts(path)
    } else {
        path_parts(current_dir.to_owned().concat("/").concat(path).as_str())
    }
}

/// The directory as the footer shows it. A relative path starts at `current_dir`.
#[must_use]
pub fn format_cwd_for_footer(cwd: &str, home: Option<&str>, current_dir: &str) -> (r: String)
    ensures
        r@ == shown_directory(
            cwd@,
            match home {
                Some(home) => Some(home@),
                None => None,
            },
            current_dir@,
        ),
{
    let home_dir = match home {
        Some(home_dir) => home_dir,
        None => {
            return cwd.to_owned();
        },
    };
    let inside = resolve_lexically(cwd, current_dir);
    let outside = resolve_lexically(home_dir, current_dir);
    let ghost a = texts(inside@);
    let ghost b = texts(outside@);
    assert(a.len() == inside.len() && b.len() == outside.len());
    if outside.len() > inside.len() {
        return cwd.to_owned();
    }
    let mut i: usize = 0;
    while i < outside.len()
        invariant
            i <= outside.len() <= inside.len(),
            a == texts(inside@),
            b == texts(outside@),
            a == resolved_parts(cwd@, current_dir@),
            b == resolved_parts(home_dir@, current_dir@),
            home == Some(home_dir),
            forall|j: int| 0 <= j < i ==> a[j] == b[j],
        decreases outside.len() - i,
    {
        assert(a[i as int] == inside[i as int]@ && b[i as int] == outside[i as int]@);
        if !str_eq(inside[i].as_str(), outside[i].as_str()) {
            assert(a.take(b.len() as int)[i as int] != b[i as int]);
            return cwd.to_owned();
        }
        i = i + 1;
    }
    assert(a.take(b.len() as int) =~= b);
    let mut parts: Vec<String> = Vec::new();
    push_text(&mut parts, "~".to_owned());
    let mut k: usize = outside.len();
    while k < inside.len()
        invariant
            outside.len() <= k <= inside.len(),
            a == texts(inside@),
            texts(parts@) =~= seq!["~"@] + a.subrange(outside.len() as int, k as int),
        decreases inside.len() - k,
    {
        push_text(&mut parts, inside[k].clone());
        k = k + 1;
    }
    assert(texts(parts@) =~= seq!["~"@] + a.skip(b.len() as int));
    join_strs(&parts, "/")
}

/// The texts that are not empty.
pub open spec fn nonempty(parts: Seq<Seq<char>>) -> Seq<Seq<char>>
    decreases parts.len(),
{
    if parts.len() == 0 {
        Seq::empty()
    } else if parts.last().len() == 0 {
        nonempty(parts.drop_last())
    } else {
        nonempty(parts.drop_last()).push(parts.last())
    }
}

/// The text with line ends and tabs made spaces.
pub open spec fn spaced(text: Seq<char>) -> Seq<char> {
    text.map_values(
        |c: char|
            if c == '\r' || c == '\n' || c == '\t' {
                ' '
            } else {
                c
            },
    )
}

/// A status on one line, with single spaces.
pub open spec fn clean_status(text: Seq<char>) -> Seq<char> {
    trim(join(nonempty(split(spaced(text), ' ')), " "@))
}

/// A status on one line, with single spaces.
pub fn sanitize_status_text(text: &str) -> (r: String)
    ensures
        r@ == clean_status(text@),
{
    let chars = chars_of(text);
    let mut line: Vec<char> = Vec::new();
    let mut i: usize = 0;
    while i < chars.len()
        invariant
            i <= chars.len(),
            chars@ == text@,
            line@ =~= spaced(text@).take(i as int),
        decreases chars.len() - i,
    {
        let c = chars[i];
        line.push(
            if c == '\r' || c == '\n' || c == '\t' {
                ' '
            } else {
                c
            },
        );
        i = i + 1;
    }
    assert(line@ =~= spaced(text@));
    let pieces = split_chars(line.as_slice(), ' ');
    let ghost all = char_texts(pieces@);
    let mut parts: Vec<String> = Vec::new();
    let mut k: usize = 0;
    assert(texts(parts@) =~= nonempty(all.take(0)));
    while k < pieces.len()
        invariant
            k <= pieces.len(),
            all == char_texts(pieces@),
            texts(parts@) == nonempty(all.take(k as int)),
        decreases pieces.len() - k,
    {
        proof {
            assert(all.take(k + 1).drop_last() =~= all.take(k as int));
            assert(all.take(k + 1).last() == pieces@[k as int]@);
        }
        if pieces[k].len() > 0 {
            push_text(&mut parts, string_of(pieces[k].as_slice()));
        }
        k = k + 1;
    }
    assert(all.take(k as int) =~= all);
    let joined = chars_of(join_strs(&parts, " ").as_str());
    string_of(trim_slice(joined.as_slice()))
}

/// The branch, or the detached commit, that the content of `.git/HEAD` names.
pub open spec fn head_branch(head: Seq<char>) -> Option<Seq<char>> {
    let prefix = "ref: refs/heads/"@;
    let name = trim(
        if prefix.is_prefix_of(head) {
            head.skip(prefix.len() as int)
        } else {
            head
        },
    );
    if name.len() == 0 {
        None
    } else {
        Some(name)
    }
}

/// The branch, or the detached commit, that the content of `.git/HEAD` names.
pub fn git_branch_of_head(head: &str) -> (r: Option<String>)
    ensures
        match r {
            Some(name) => head_branch(head@) == Some(name@),
            None => head_branch(head@) is None,
        },
{
    let chars = chars_of(head);
    let prefix = chars_of("ref: refs/heads/");
    let start: usize = if has_prefix(chars.as_slice(), prefix.as_slice()) {
        prefix.len()
    } else {
        0
    };
    assert(chars@.skip(0) =~= chars@);
    let rest = slice_subrange(chars.as_slice(), start, chars.len());
    assert(rest@ =~= chars@.skip(start as int));
    let name = trim_slice(rest);
    if name.len() == 0 {
        None
    } else {
        Some(string_of(name))
    }
}

/// The line of the directory, the branch and the session's name.
pub open spec fn location_text(
    directory: Seq<char>,
    branch: Option<Seq<char>>,
    name: Option<Seq<char>>,
) -> Seq<char> {
    let with_branch = match branch {
        Some(branch) => directory + " ("@ + branch + ")"@,
        None => directory,
    };
    match name {
        Some(name) => with_branch + " • "@ + name,
        None => with_branch,
    }
}

/// The content of an optional text.
pub open spec fn opt_text(text: Option<String>) -> Option<Seq<char>> {
    match text {
        Some(t) => Some(t@),
        None => None,
    }
}

/// The line of the directory, the branch and the session's name.
pub fn location_line(directory: &str, branch: &Option<String>, name: &Option<String>) -> (r: String)
    ensures
        r@ == location_text(directory@, opt_text(*branch), opt_text(*name)),
{
    let mut r = directory.to_owned();
    if let Some(branch) = branch {
        r = r.concat(" (").concat(branch.as_str()).concat(")");
    }
    if let Some(name) = name {
        r = r.concat(" • ").concat(name.as_str());
    }
    r
}

/// The color of the context display.
pub open spec fn context_color(percent: Option<u64>) -> Option<ThemeColor> {
    match percent {
        Some(p) if p > 90_000_000_000 => Some(ThemeColor::Error),
        Some(p) if p > 70_000_000_000 => Some(ThemeColor::Warning),
        _ => None,
    }
}

/// How much of the context is used.
pub open spec fn context_text(percent: Option<u64>, window: nat, auto_compact: bool) -> Seq<char> {
    let used = match percent {
        Some(p) => tenths(rounded(p as nat, 100_000_000)) + "%/"@,
        None => "?/"@,
    };
    used + token_text(window) + if auto_compact {
        " (auto)"@
    } else {
        Seq::empty()
    }
}

/// A count with a sign before it, if it is not zero.
pub open spec fn counted(sign: Seq<char>, count: u64) -> Seq<SpanView> {
    if count > 0 {
        seq![plain(sign + token_text(count as nat))]
    } else {
        Seq::empty()
    }
}

/// The share of the prompt that came from the cache, if a cache was used.
pub open spec fn cache_share(stats: FooterStats) -> Seq<SpanView> {
    let prompt = stats.input as nat + stats.cache_read as nat + stats.cache_write as nat;
    if stats.cache_read > 0 || stats.cache_write > 0 {
        seq![plain("CH"@ + tenths(rounded(stats.cache_read as nat * 1000, prompt)) + "%"@)]
    } else {
        Seq::empty()
    }
}

/// The cost, if there is any or a subscription covers it.
pub open spec fn cost_part(stats: FooterStats) -> Seq<SpanView> {
    if stats.cost > 0 || stats.using_subscription {
        seq![
            plain(
                "$"@ + thousandths(rounded(stats.cost as nat, 1_000_000))
                    + if stats.using_subscription {
                    " (sub)"@
                } else {
                    Seq::empty()
                },
            ),
        ]
    } else {
        Seq::empty()
    }
}

/// The parts on the left of the second line, from the token counts to the context.
pub open spec fn stat_parts(stats: FooterStats, auto_compact: bool) -> Seq<SpanView> {
    counted("↑"@, stats.input) + counted("↓"@, stats.output) + counted("R"@, stats.cache_read)
        + counted("W"@, stats.cache_write) + cache_share(stats) + cost_part(stats) + seq![
        SpanView {
            text: context_text(stats.context_percent, stats.context_window as nat, auto_compact),
            color: context_color(stats.context_percent),
            bold: false,
            italic: false,
        },
    ]
}

/// The parts with a space between them.
pub open spec fn spaced_parts(parts: Seq<SpanView>) -> Seq<SpanView>
    decreases parts.len(),
{
    if parts.len() <= 1 {
        parts
    } else {
        spaced_parts(parts.drop_last()) + seq![plain(" "@), parts.last()]
    }
}

/// The left of the second line. What has no color of its own is dim.
pub open spec fn stats_left_spans(stats: FooterStats, auto_compact: bool) -> Seq<SpanView> {
    let parts = spaced_parts(stat_parts(stats, auto_compact));
    if stats.experimental {
        parts + seq![
            plain(" "@),
            colored(ThemeColor::Dim, "•"@),
            plain(" "@),
            bold_colored(ThemeColor::Warning, "xp"@),
        ]
    } else {
        parts
    }
}

fn push_count(parts: &mut Vec<Span>, sign: &str, count: u64)
    ensures
        spans(final(parts)@) == spans(old(parts)@) + counted(sign@, count),
{
    if count > 0 {
        let text = sign.to_owned().concat(format_tokens(count).as_str());
        push_span(parts, raw(text.as_str()));
    }
    assert(spans(parts@) =~= spans(old(parts)@) + counted(sign@, count));
}

fn context_span(stats: &FooterStats, auto_compact: bool) -> (r: Span)
    ensures
        r@ == (SpanView {
            text: context_text(stats.context_percent, stats.context_window as nat, auto_compact),
            color: context_color(stats.context_percent),
            bold: false,
            italic: false,
        }),
{
    let used = match stats.context_percent {
        Some(p) => tenths_str((p as u128 + 50_000_000) / 100_000_000).concat("%/"),
        None => "?/".to_owned(),
    };
    let auto = if auto_compact {
        " (auto)"
    } else {
        ""
    };
    proof {
        reveal_strlit("");
        assert(""@ =~= Seq::empty());
    }
    let text = used.concat(format_tokens(stats.context_window).as_str()).concat(auto);
    match stats.context_percent {
        Some(p) if p > 90_000_000_000 => fg(ThemeColor::Error, text.as_str()),
        Some(p) if p > 70_000_000_000 => fg(ThemeColor::Warning, text.as_str()),
        _ => raw(text.as_str()),
    }
}

fn collect_parts(stats: &FooterStats, auto_compact: bool) -> (r: Vec<Span>)
    ensures
        spans(r@) == stat_parts(*stats, auto_compact),
{
    let mut parts: Vec<Span> = Vec::new();
    push_count(&mut parts, "↑", stats.input);
    push_count(&mut parts, "↓", stats.output);
    push_count(&mut parts, "R", stats.cache_read);
    push_count(&mut parts, "W", stats.cache_write);
    let ghost counts = spans(parts@);
    if stats.cache_read > 0 || stats.cache_write > 0 {
        let prompt: u128 = stats.input as u128 + stats.cache_read as u128
            + stats.cache_write as u128;
        let share: u128 = (stats.cache_read as u128 * 1000 + prompt / 2) / prompt;
        let text = "CH".to_owned().concat(tenths_str(share).as_str()).concat("%");
        push_span(&mut parts, raw(text.as_str()));
    }
    assert(spans(parts@) =~= counts + cache_share(*stats));
    if stats.cost > 0 || stats.using_subscription {
        let covered = if stats.using_subscription {
            " (sub)"
        } else {
            ""
        };
        proof {
            reveal_strlit("");
            assert(""@ =~= Seq::empty());
        }
        let text = "$".to_owned().concat(
            thousandths_str((stats.cost as u128 + 500_000) / 1_000_000).as_str(),
        ).concat(covered);
        push_span(&mut parts, raw(text.as_str()));
    }
    assert(spans(parts@) =~= counts + cache_share(*stats) + cost_part(*stats));
    push_span(&mut parts, context_span(stats, auto_compact));
    assert(spans(parts@) =~= stat_parts(*stats, auto_compact));
    parts
}

/// The left of the second line.
pub fn stats_left(stats: &FooterStats, auto_compact: bool) -> (r: Vec<Span>)
    ensures
        spans(r@) == stats_left_spans(*stats, auto_compact),
{
    let parts = collect_parts(stats, auto_compact);
    let ghost all = spans(parts@);
    let mut line: Vec<Span> = Vec::new();
    let mut i: usize = 0;
    assert(spans(line@) =~= spaced_parts(all.take(0)));
    while i < parts.len()
        invariant
            i <= parts.len(),
            all == spans(parts@),
            spans(line@) == spaced_parts(all.take(i as int)),
        decreases parts.len() - i,
    {
        proof {
            assert(all.take(i + 1).drop_last() =~= all.take(i as int));
            assert(all.take(i + 1).last() == parts@[i as int]@);
            assert(all.take(1) =~= seq![all[0]]);
        }
        let ghost before = spans(line@);
        if i > 0 {
            push_span(&mut line, raw(" "));
        }
        push_span(&mut line, parts[i].clone());
        assert(spans(line@) =~= if i > 0 {
            before + seq![plain(" "@), parts@[i as int]@]
        } else {
            before.push(parts@[i as int]@)
        });
        i = i + 1;
    }
    assert(all.take(i as int) =~= all);
    if stats.experimental {
        push_span(&mut line, raw(" "));
        push_span(&mut line, fg(ThemeColor::Dim, "•"));
        push_span(&mut line, raw(" "));
        push_span(&mut line, bold_fg(ThemeColor::Warning, "xp"));
    }
    assert(spans(line@) =~= stats_left_spans(*stats, auto_compact));
    line
}

/// The model and how it thinks.
pub open spec fn model_text(stats: FooterStats) -> Seq<char> {
    let name = match stats.model {
        Some(model) => model@,
        None => "no-model"@,
    };
    if !stats.reasoning {
        name
    } else {
        match stats.thinking_level {
            Some(level) if level@ != "off"@ => name + " • "@ + level@,
            _ => name + " • thinking off"@,
        }
    }
}

/// The model with its provider before it, where there is more than one provider.
pub open spec fn provider_model_text(stats: FooterStats, providers: nat) -> Option<Seq<char>> {
    match stats.provider {
        Some(provider) if providers > 1 && stats.model is Some => Some(
            "("@ + provider@ + ") "@ + model_text(stats),
        ),
        _ => None,
    }
}

/// The model and how it thinks.
pub fn right_text(stats: &FooterStats) -> (r: String)
    ensures
        r@ == model_text(*stats),
{
    let name = match &stats.model {
        Some(model) => model.clone(),
        None => "no-model".to_owned(),
    };
    if !stats.reasoning {
        return name;
    }
    match &stats.thinking_level {
        Some(level) => {
            if str_eq(level.as_str(), "off") {
                name.concat(" • thinking off")
            } else {
                name.concat(" • ").concat(level.as_str())
            }
        },
        None => name.concat(" • thinking off"),
    }
}

/// The model with its provider before it, where there is more than one provider.
pub fn right_text_with_provider(stats: &FooterStats, providers: usize) -> (r: Option<String>)
    ensures
        opt_text(r) == provider_model_text(*stats, providers as nat),
{
    if providers > 1 && stats.model.is_some() {
        match &stats.provider {
            Some(provider) => Some(
                "(".to_owned().concat(provider.as_str()).concat(") ").concat(
                    right_text(stats).as_str(),
                ),
            ),
            None => None,
        }
    } else {
        None
    }
}

/// Whether the right text with the provider is used: where it fits beside the left text.
fn shows_provider(width: usize, left_width: usize, with_provider_width: usize) -> (r: bool)
    ensures
        r == (left_width + 2 + with_provider_width <= width),
{
    left_width as u128 + 2 + with_provider_width as u128 <= width as u128
}

/// How the right text is placed beside the left text.
#[derive(Debug, Clone, Copy, PartialEq, Eq, Structural)]
pub enum RightSide {
    /// The whole text, after this many spaces.
    Whole(usize),
    /// The text cut to this many columns.
    Cut(usize),
    /// No room.
    Nothing,
}

/// How the right text is placed beside the left text.
pub open spec fn right_placement(width: int, left_width: int, right_width: int) -> RightSide {
    if left_width + 2 + right_width <= width {
        RightSide::Whole((width - left_width - right_width) as usize)
    } else if width > left_width + 2 {
        RightSide::Cut((width - left_width - 2) as usize)
    } else {
        RightSide::Nothing
    }
}

/// How the right text is placed beside the left text.
pub fn place_right(width: usize, left_width: usize, right_width: usize) -> (r: RightSide)
    ensures
        r == right_placement(width as int, left_width as int, right_width as int),
{
    if left_width as u128 + 2 + right_width as u128 <= width as u128 {
        RightSide::Whole(width - left_width - right_width)
    } else if width > 2 && width - 2 > left_width {
        RightSide::Cut(width - left_width - 2)
    } else {
        RightSide::Nothing
    }
}

/// The spaces before a right text that was cut.
pub fn cut_padding(width: usize, left_width: usize, cut_width: usize) -> (r: usize)
    ensures
        r == if left_width + cut_width < width {
            width - left_width - cut_width
        } else {
            0
        },
{
    if (left_width as u128) + (cut_width as u128) < width as u128 {
        width - left_width - cut_width
    } else {
        0
    }
}

/// The right of the second line: the spaces before the text and the text, whole or as it was cut.
pub open spec fn right_spans(
    left_width: int,
    right: Seq<char>,
    right_width: int,
    cut: Seq<char>,
    cut_width: int,
    width: int,
) -> Seq<SpanView> {
    match right_placement(width, left_width, right_width) {
        RightSide::Whole(padding) => seq![
            colored(ThemeColor::Dim, repeat(' ', padding as nat) + right),
        ],
        RightSide::Cut(_) => {
            let padding = if left_width + cut_width < width {
                (width - left_width - cut_width) as nat
            } else {
                0
            };
            seq![colored(ThemeColor::Dim, repeat(' ', padding) + cut)]
        },
        RightSide::Nothing => Seq::empty(),
    }
}

/// Whether the right text, where it has to be cut, was cut to the columns that its place gives.
pub open spec fn is_right_cut(
    left_width: int,
    right_width: int,
    cut_width: int,
    width: int,
) -> bool {
    match right_placement(width, left_width, right_width) {
        RightSide::Cut(columns) => cut_width <= columns,
        _ => true,
    }
}

/// The second line: the left text, and on the right the model. `cut` is the right text cut to the
/// columns that its place gives.
pub fn second_line(
    left: MeasuredLine,
    right: &Measured,
    cut: &Measured,
    width: usize,
) -> (r: MeasuredLine)
    requires
        left.width <= width,
        is_right_cut(
            left.width as int,
            right.width as int,
            cut.width as int,
            width as int,
        ),
    ensures
        spans(r.spans@) == spans(left.spans@) + right_spans(
            left.width as int,
            right.text@,
            right.width as int,
            cut.text@,
            cut.width as int,
            width as int,
        ),
        r.width == if right_placement(width as int, left.width as int, right.width as int)
            is Nothing {
            left.width
        } else {
            width
        },
{
    let left_width = left.width;
    let mut line = left.spans;
    let mut taken = left_width;
    let ghost before = spans(line@);
    match place_right(width, left_width, right.width) {
        RightSide::Whole(padding) => {
            let mut text = String::new();
            push_repeat(&mut text, ' ', padding);
            let text = text.concat(right.text.as_str());
            assert(text@ =~= repeat(' ', padding as nat) + right.text@);
            push_span(&mut line, fg(ThemeColor::Dim, text.as_str()));
            taken = left_width + padding + right.width;
        },
        RightSide::Cut(_) => {
            let padding = cut_padding(width, left_width, cut.width);
            let mut text = String::new();
            push_repeat(&mut text, ' ', padding);
            let text = text.concat(cut.text.as_str());
            assert(text@ =~= repeat(' ', padding as nat) + cut.text@);
            push_span(&mut line, fg(ThemeColor::Dim, text.as_str()));
            taken = left_width + padding + cut.width;
        },
        RightSide::Nothing => {},
    }
    assert(spans(line@) =~= before + right_spans(
        left_width as int,
        right.text@,
        right.width as int,
        cut.text@,
        cut.width as int,
        width as int,
    ));
    MeasuredLine { spans: line, width: taken }
}

/// Whether the right text is shown with the provider: where that fits beside the left text.
pub open spec fn names_provider(
    stats: FooterStats,
    providers: nat,
    left_width: int,
    with_provider_width: int,
    width: int,
) -> bool {
    provider_model_text(stats, providers) is Some && left_width + 2 + with_provider_width <= width
}

/// The right text that is shown, and the columns that it takes: with the provider where that fits
/// beside the left text.
pub fn choose_right(
    stats: &FooterStats,
    providers: usize,
    left_width: usize,
    with_provider_width: usize,
    model_width: usize,
    width: usize,
) -> (r: Measured)
    ensures
        if names_provider(
            *stats,
            providers as nat,
            left_width as int,
            with_provider_width as int,
            width as int,
        ) {
            Some(r.text@) == provider_model_text(*stats, providers as nat) && r.width
                == with_provider_width
        } else {
            r.text@ == model_text(*stats) && r.width == model_width
        },
{
    if let Some(text) = right_text_with_provider(stats, providers) {
        if shows_provider(width, left_width, with_provider_width) {
            return Measured { text, width: with_provider_width };
        }
    }
    Measured { text: right_text(stats), width: model_width }
}

/// A line with the whole right text fills the width exactly, with at least two spaces between the
/// texts; a cut one leaves room for two.
pub proof fn right_side_fits(width: int, left_width: int, right_width: int)
    requires
        0 <= width <= usize::MAX,
        0 <= left_width,
        0 <= right_width,
    ensures
        match right_placement(width, left_width, right_width) {
            RightSide::Whole(padding) => left_width + padding + right_width == width && padding >= 2,
            RightSide::Cut(columns) => left_width + 2 + columns == width && 0 < columns
                < right_width,
            RightSide::Nothing => width <= left_width + 2,
        },
{
}

/// The statuses of extensions on one line, by key.
pub open spec fn status_text(keys: Seq<Seq<char>>, statuses: Seq<Seq<char>>) -> Seq<char> {
    join(
        stable_order::<NameKey>(keys).map_values(|i: usize| clean_status(statuses[i as int])),
        " "@,
    )
}

/// The statuses of extensions on one line, by key.
pub fn status_line(statuses: &Vec<(String, String)>) -> (r: String)
    ensures
        r@ == status_text(
            statuses@.map_values(|s: (String, String)| s.0@),
            statuses@.map_values(|s: (String, String)| s.1@),
        ),
{
    let ghost keys = statuses@.map_values(|s: (String, String)| s.0@);
    let ghost values = statuses@.map_values(|s: (String, String)| s.1@);
    let mut names: Vec<NameKey> = Vec::new();
    let mut i: usize = 0;
    while i < statuses.len()
        invariant
            i <= statuses.len(),
            keys == statuses@.map_values(|s: (String, String)| s.0@),
            ranks(names@) =~= keys.take(i as int),
        decreases statuses.len() - i,
    {
        let key = NameKey { name: chars_of(statuses[i].0.as_str()) };
        let ghost before = names@;
        names.push(key);
        assert(ranks(names@) =~= ranks(before).push(key.name@));
        i = i + 1;
    }
    assert(ranks(names@) =~= keys);
    let order = sort_indices(&names);
    let mut parts: Vec<String> = Vec::new();
    let mut p: usize = 0;
    while p < order.len()
        invariant
            p <= order.len(),
            is_stable_order::<NameKey>(order@, keys),
            keys.len() == statuses.len(),
            values == statuses@.map_values(|s: (String, String)| s.1@),
            texts(parts@) =~= order@.map_values(
                |i: usize| clean_status(values[i as int]),
            ).take(p as int),
        decreases order.len() - p,
    {
        let at: usize = order[p];
        push_text(&mut parts, sanitize_status_text(statuses[at].1.as_str()));
        p = p + 1;
    }
    assert(texts(parts@) =~= order@.map_values(|i: usize| clean_status(values[i as int])));
    join_strs(&parts, " ")
}

fn one_span(span: Span) -> (r: Vec<Span>)
    ensures
        spans(r@) == seq![span@],
{
    let mut line: Vec<Span> = Vec::new();
    push_span(&mut line, span);
    assert(spans(line@) =~= seq![span@]);
    line
}

/// The footer's own setting.
#[derive(Debug)]
pub struct FooterComponent {
    pub auto_compact_enabled: bool,
}

/// What the footer shows.
#[derive(Debug)]
pub struct FooterData {
    /// The directory as the footer shows it.
    pub directory: String,
    pub branch: Option<String>,
    pub session_name: Option<String>,
    pub stats: FooterStats,
    pub providers: usize,
    /// The statuses of extensions, each under a key.
    pub statuses: Vec<(String, String)>,
}

/// How wide the footer's texts are, and the texts cut to the columns left for them.
#[derive(Debug)]
pub struct FooterCuts {
    pub location: LineCut,
    pub left: LineCut,
    /// The columns of the right text with the provider.
    pub with_provider_width: usize,
    /// The columns of the right text without it.
    pub model_width: usize,
    /// The right text cut to the columns that its place gives.
    pub right: Measured,
    pub status: LineCut,
}

impl FooterCuts {
    /// The columns that the left text of the second line takes.
    pub open spec fn left_width(self, width: int) -> int {
        fitted_width(
            self.left.width as int,
            self.left.cut.width as int,
            width,
            "..."@.len() as int,
        )
    }

    /// Whether the right text names the provider.
    pub open spec fn names_provider(self, content: FooterData, width: int) -> bool {
        names_provider(
            content.stats,
            content.providers as nat,
            self.left_width(width),
            self.with_provider_width as int,
            width,
        )
    }

    /// The columns that the whole right text takes.
    pub open spec fn right_width(self, content: FooterData, width: int) -> int {
        if self.names_provider(content, width) {
            self.with_provider_width as int
        } else {
            self.model_width as int
        }
    }

    /// Whether the texts that are too wide were cut to the columns left for them.
    pub open spec fn fits(self, content: FooterData, width: int) -> bool {
        let mark = "..."@.len() as int;
        &&& is_cut(self.location.width as int, self.location.cut.width as int, width, mark)
        &&& is_cut(self.left.width as int, self.left.cut.width as int, width, mark)
        &&& is_cut(self.status.width as int, self.status.cut.width as int, width, mark)
        &&& is_right_cut(
            self.left_width(width),
            self.right_width(content, width),
            self.right.width as int,
            width,
        )
    }
}

/// The spans of measured lines.
pub open spec fn measured_spans(lines: Seq<MeasuredLine>) -> Seq<Seq<SpanView>> {
    lines.map_values(|line: MeasuredLine| spans(line.spans@))
}

/// A line cut to the width, with three dots behind it where it was too wide.
pub open spec fn dotted(
    line: Seq<SpanView>,
    cut: LineCut,
    width: int,
    dots: SpanView,
) -> Seq<SpanView> {
    fitted_line(line, cut.width as int, spans(cut.cut.spans@), width, dots)
}

impl FooterComponent {
    /// The lines of the footer: where the session is, what it used and the model, and the statuses
    /// of extensions.
    pub open spec fn lines(
        &self,
        content: FooterData,
        cuts: FooterCuts,
        width: int,
    ) -> Seq<Seq<SpanView>> {
        seq![
            dotted(
                seq![
                    colored(
                        ThemeColor::Dim,
                        location_text(
                            content.directory@,
                            opt_text(content.branch),
                            opt_text(content.session_name),
                        ),
                    ),
                ],
                cuts.location,
                width,
                colored(ThemeColor::Dim, "..."@),
            ),
            tinted(
                dotted(
                    stats_left_spans(content.stats, self.auto_compact_enabled),
                    cuts.left,
                    width,
                    plain("..."@),
                ),
                Some(ThemeColor::Dim),
            ) + right_spans(
                cuts.left_width(width),
                if cuts.names_provider(content, width) {
                    provider_model_text(content.stats, content.providers as nat)->0
                } else {
                    model_text(content.stats)
                },
                cuts.right_width(content, width),
                cuts.right.text@,
                cuts.right.width as int,
                width,
            ),
            dotted(
                seq![
                    plain(
                        status_text(
                            content.statuses@.map_values(|s: (String, String)| s.0@),
                            content.statuses@.map_values(|s: (String, String)| s.1@),
                        ),
                    ),
                ],
                cuts.status,
                width,
                colored(ThemeColor::Dim, "..."@),
            ),
        ]
    }

    /// The lines of the footer. None of them is wider than the width.
    pub fn render(&self, content: &FooterData, cuts: FooterCuts, width: u16) -> (r: Vec<
        MeasuredLine,
    >)
        requires
            cuts.fits(*content, width as int),
        ensures
            r@.len() == 3,
            measured_spans(r@) == self.lines(*content, cuts, width as int),
            forall|i: int| 0 <= i < r@.len() ==> (#[trigger] r@[i]).width <= width,
    {
        let ghost given = cuts;
        let columns = width as usize;
        let place = location_line(
            content.directory.as_str(),
            &content.branch,
            &content.session_name,
        );
        let location = fit_line(
            one_span(fg(ThemeColor::Dim, place.as_str())),
            cuts.location,
            columns,
            fg(ThemeColor::Dim, "..."),
        );
        let used = fit_line(
            stats_left(&content.stats, self.auto_compact_enabled),
            cuts.left,
            columns,
            raw("..."),
        );
        let right = choose_right(
            &content.stats,
            content.providers,
            used.width,
            cuts.with_provider_width,
            cuts.model_width,
            columns,
        );
        let left = MeasuredLine {
            spans: tint_line(&used.spans, Some(ThemeColor::Dim)),
            width: used.width,
        };
        let second = second_line(left, &right, &cuts.right, columns);
        let status = fit_line(
            one_span(raw(status_line(&content.statuses).as_str())),
            cuts.status,
            columns,
            fg(ThemeColor::Dim, "..."),
        );
        let mut lines: Vec<MeasuredLine> = Vec::new();
        lines.push(location);
        lines.push(second);
        lines.push(status);
        assert(measured_spans(lines@) =~= self.lines(*content, given, width as int));
        lines
    }

    /// A footer that shows automatic compaction as enabled.
    #[must_use]
    pub fn new() -> (r: Self)
        ensures
            r.auto_compact_enabled,
    {
        FooterComponent { auto_compact_enabled: true }
    }

    /// Whether automatic compaction is shown as enabled.
    pub fn set_auto_compact_enabled(&mut self, enabled: bool)
        ensures
            final(self).auto_compact_enabled == enabled,
    {
        self.auto_compact_enabled = enabled;
    }
}

} // verus!
