//! What texts keep when they are trimmed, split, counted and shown: the meaning of the functions that
//! everything shown is made with.

use crate::bash_execution::split_pieces_join;
use crate::entries::{flattened, utf16_prefix};
use crate::footer::{
    context_text, head_branch, location_text, model_text, provider_model_text, rounded, tenths,
    thousandths, token_text, FooterStats,
};
use crate::keybinding_hints::{is_alt, key_alternatives, key_combination, key_part};
use crate::label_times::{label_time, two_digits, CivilTime};
use crate::session_selector::{session_age, shortened_path};
use crate::text::{
    char_utf16_len, decimal, digit, index_of_char, is_blank, is_whitespace, join,
    lemma_index_of_char_bounds, split, trim, trim_end, trim_start, utf16_len, words,
};
use crate::tool_calls::{
    abbreviated, described_call, line_range, or_else, signed_decimal, ArgumentsView,
};
use vstd::prelude::*;
use vstd::string::*;

verus! {

broadcast use vstd::string::group_string_axioms;

proof fn lemma_trim_start(s: Seq<char>)
    ensures
        trim_start(s).len() <= s.len(),
        s.skip(s.len() - trim_start(s).len()) == trim_start(s),
        is_blank(s.take(s.len() - trim_start(s).len())),
        trim_start(s).len() > 0 ==> !is_whitespace(trim_start(s)[0]),
    decreases s.len(),
{
    if s.len() > 0 && is_whitespace(s[0]) {
        let rest = s.skip(1);
        lemma_trim_start(rest);
        let n = rest.len() - trim_start(rest).len();
        assert(s.skip(n + 1) =~= rest.skip(n));
        assert forall|i: int| 0 <= i < n + 1 implies is_whitespace(#[trigger] s.take(n + 1)[i]) by {
            if i > 0 {
                assert(rest.take(n)[i - 1] == s[i]);
            }
        }
    } else {
        assert(s.skip(0) =~= s);
    }
}

proof fn lemma_trim_end(s: Seq<char>)
    ensures
        trim_end(s).len() <= s.len(),
        s.take(trim_end(s).len() as int) == trim_end(s),
        is_blank(s.skip(trim_end(s).len() as int)),
        trim_end(s).len() > 0 ==> !is_whitespace(trim_end(s).last()),
    decreases s.len(),
{
    if s.len() > 0 && is_whitespace(s.last()) {
        let rest = s.drop_last();
        lemma_trim_end(rest);
        let n = trim_end(rest).len() as int;
        assert(s.take(n) =~= rest.take(n));
        assert forall|i: int| 0 <= i < s.len() - n implies is_whitespace(#[trigger] s.skip(n)[i]) by {
            if i < s.len() - n - 1 {
                assert(rest.skip(n)[i] == s[n + i]);
            }
        }
    } else {
        assert(s.take(s.len() as int) =~= s);
    }
}

/// Trimming takes whitespace away at both ends, all of it and nothing else.
pub proof fn trimming_takes_the_space_around(s: Seq<char>)
    ensures
        exists|i: int, j: int|
            0 <= i <= j <= s.len() && trim(s) == #[trigger] s.subrange(i, j) && is_blank(s.take(i))
                && is_blank(s.skip(j)),
        trim(s).len() > 0 ==> !is_whitespace(trim(s)[0]) && !is_whitespace(trim(s).last()),
{
    lemma_trim_start(s);
    let t = trim_start(s);
    lemma_trim_end(t);
    let i = s.len() - t.len();
    let j = i + trim(s).len();
    assert(s.subrange(i, j) =~= t.take(trim(s).len() as int));
    assert forall|k: int| 0 <= k < s.len() - j implies is_whitespace(#[trigger] s.skip(j)[k]) by {
        assert(t.skip(trim(s).len() as int)[k] == s[j + k]);
    }
}

proof fn lemma_pieces(s: Seq<char>, c: char, k: int)
    requires
        0 <= k < split(s, c).len(),
    ensures
        !split(s, c)[k].contains(c),
    decreases s.len(),
{
    lemma_index_of_char_bounds(s, c);
    let n = index_of_char(s, c);
    if n < s.len() {
        if k > 0 {
            lemma_pieces(s.skip(n as int + 1), c, k - 1);
        } else {
            assert forall|i: int| 0 <= i < n implies s.take(n as int)[i] != c by {
                assert(s[i] != c);
            }
        }
    } else {
        assert(!s.contains(c));
    }
}

/// The pieces of a split text do not hold what it was split at, and joined by it they are the text.
pub proof fn pieces_lie_between_the_separators(s: Seq<char>, c: char, k: int)
    ensures
        join(split(s, c), seq![c]) == s,
        0 <= k < split(s, c).len() ==> !split(s, c)[k].contains(c),
{
    split_pieces_join(s, c);
    if 0 <= k < split(s, c).len() {
        lemma_pieces(s, c, k);
    }
}

proof fn lemma_word_len(s: Seq<char>)
    ensures
        crate::text::word_len(s) <= s.len(),
        forall|i: int| 0 <= i < crate::text::word_len(s) ==> !is_whitespace(#[trigger] s[i]),
        crate::text::word_len(s) < s.len() ==> is_whitespace(s[crate::text::word_len(s) as int]),
    decreases s.len(),
{
    if s.len() > 0 && !is_whitespace(s[0]) {
        lemma_word_len(s.skip(1));
        assert forall|i: int| 0 <= i < crate::text::word_len(s) implies !is_whitespace(
            #[trigger] s[i],
        ) by {
            if i > 0 {
                assert(s.skip(1)[i - 1] == s[i]);
            }
        }
    }
}

/// A text without its whitespace.
pub open spec fn without_space(s: Seq<char>) -> Seq<char>
    decreases s.len(),
{
    if s.len() == 0 {
        Seq::empty()
    } else if is_whitespace(s[0]) {
        without_space(s.skip(1))
    } else {
        seq![s[0]] + without_space(s.skip(1))
    }
}

proof fn lemma_without_space_word(s: Seq<char>, n: int)
    requires
        0 <= n <= s.len(),
        forall|i: int| 0 <= i < n ==> !is_whitespace(#[trigger] s[i]),
    ensures
        without_space(s) == s.take(n) + without_space(s.skip(n)),
    decreases n,
{
    if n == 0 {
        assert(s.skip(0) =~= s);
        assert(s.take(0) + without_space(s) =~= without_space(s));
    } else {
        let rest = s.skip(1);
        assert(!is_whitespace(s[0]));
        assert forall|i: int| 0 <= i < n - 1 implies !is_whitespace(#[trigger] rest[i]) by {
            assert(!is_whitespace(s[i + 1]));
        }
        lemma_without_space_word(rest, n - 1);
        assert(rest.skip(n - 1) =~= s.skip(n));
        assert(seq![s[0]] + (rest.take(n - 1) + without_space(s.skip(n))) =~= s.take(n)
            + without_space(s.skip(n)));
    }
}

proof fn lemma_flatten_first(first: Seq<char>, rest: Seq<Seq<char>>)
    ensures
        (seq![first] + rest).flatten() == first + rest.flatten(),
{
    let all = seq![first] + rest;
    assert(all.drop_first() =~= rest);
    assert(all.first() == first);
}

/// Words are not empty, and what is not whitespace stands in them, in order.
pub proof fn words_hold_what_is_not_space(s: Seq<char>, k: int)
    ensures
        words(s).flatten() == without_space(s),
        0 <= k < words(s).len() ==> words(s)[k].len() > 0,
    decreases s.len(),
{
    if s.len() == 0 {
        assert(words(s).flatten() =~= Seq::empty());
    } else if is_whitespace(s[0]) {
        words_hold_what_is_not_space(s.skip(1), k);
    } else {
        lemma_word_len(s);
        let n = crate::text::word_len(s) as int;
        words_hold_what_is_not_space(s.skip(n), k - 1);
        lemma_without_space_word(s, n);
        lemma_flatten_first(s.take(n), words(s.skip(n)));
    }
}

proof fn lemma_rounded(n: nat, d: nat)
    requires
        d > 0,
    ensures
        2 * (rounded(n, d) * d) <= 2 * n + d,
        2 * n < 2 * (rounded(n, d) * d) + d + 1,
{
    let h = d / 2;
    let m = n + h;
    vstd::arithmetic::div_mod::lemma_fundamental_div_mod(m as int, d as int);
    vstd::arithmetic::mul::lemma_mul_is_commutative(d as int, m as int / d as int);
    assert(rounded(n, d) * d + m % d == m);
}

/// Counts are shown exactly below a thousand; above, in thousands and millions, to the nearest, with one
/// decimal where the number before the point has one digit.
pub proof fn counts_are_rounded_to_the_nearest(count: nat)
    ensures
        count < 1_000 ==> token_text(count) == decimal(count),
        1_000 <= count < 10_000 ==> exists|n: nat|
            count <= 100 * n + 50 && 100 * n <= count + 50 && token_text(count) == #[trigger] tenths(
                n,
            ) + "k"@,
        10_000 <= count < 1_000_000 ==> exists|n: nat|
            count <= 1_000 * n + 500 && 1_000 * n <= count + 500 && token_text(count)
                == #[trigger] decimal(n) + "k"@,
        1_000_000 <= count < 10_000_000 ==> exists|n: nat|
            count <= 100_000 * n + 50_000 && 100_000 * n <= count + 50_000 && token_text(count)
                == #[trigger] tenths(n) + "M"@,
        10_000_000 <= count ==> exists|n: nat|
            count <= 1_000_000 * n + 500_000 && 1_000_000 * n <= count + 500_000 && token_text(count)
                == #[trigger] decimal(n) + "M"@,
{
    lemma_rounded(count, 100);
    lemma_rounded(count, 1_000);
    lemma_rounded(count, 100_000);
    lemma_rounded(count, 1_000_000);
    if 1_000 <= count < 10_000 {
        assert(token_text(count) == tenths(rounded(count, 100)) + "k"@);
    } else if 10_000 <= count < 1_000_000 {
        assert(token_text(count) == decimal(rounded(count, 1_000)) + "k"@);
    } else if 1_000_000 <= count < 10_000_000 {
        assert(token_text(count) == tenths(rounded(count, 100_000)) + "M"@);
    } else if 10_000_000 <= count {
        assert(token_text(count) == decimal(rounded(count, 1_000_000)) + "M"@);
    }
}

/// A number of tenths is shown with its last digit behind the point, one of thousandths with its last
/// three.
pub proof fn points_stand_before_the_last_digits(n: nat)
    ensures
        ({
            let text = tenths(n);
            &&& n >= 10 ==> text.take(text.len() - 2) + text.skip(text.len() - 1) == decimal(n)
            &&& text[text.len() - 2] == '.'
        }),
        ({
            let text = thousandths(n);
            &&& n >= 1000 ==> text.take(text.len() - 4) + text.skip(text.len() - 3) == decimal(n)
            &&& text[text.len() - 4] == '.'
        }),
{
    let text = tenths(n);
    if n >= 10 {
        assert(text.take(text.len() - 2) + text.skip(text.len() - 1) =~= decimal(n));
    }
    let long = thousandths(n);
    if n >= 1000 {
        assert(n / 10 / 10 / 10 == n / 1000);
        assert(n / 10 / 10 == n / 100);
        assert(decimal(n) == decimal(n / 10).push(digit(n % 10)));
        assert(decimal(n / 10) == decimal(n / 10 / 10).push(digit(n / 10 % 10)));
        assert(decimal(n / 100) == decimal(n / 100 / 10).push(digit(n / 100 % 10)));
        assert(long.take(long.len() - 4) + long.skip(long.len() - 3) =~= decimal(n));
    }
}

/// The footer tells the used share of the context to a tenth of a percent, before the size of the
/// context; where it is not known a question mark stands for it.
pub proof fn context_use_is_told_in_percent(percent: Option<u64>, window: nat, auto_compact: bool)
    ensures
        percent matches Some(p) ==> exists|n: nat|
            p <= 100_000_000 * n + 50_000_000 && 100_000_000 * n <= p + 50_000_000 && (
            #[trigger] tenths(n) + "%/"@ + token_text(window)).is_prefix_of(
                context_text(percent, window, auto_compact),
            ),
        percent is None ==> ("?/"@ + token_text(window)).is_prefix_of(
            context_text(percent, window, auto_compact),
        ),
        context_text(percent, window, true) == context_text(percent, window, false) + " (auto)"@,
{
    assert(context_text(percent, window, false) + " (auto)"@ =~= context_text(percent, window, true));
    if let Some(p) = percent {
        lemma_rounded(p as nat, 100_000_000);
        let n = rounded(p as nat, 100_000_000);
        assert((tenths(n) + "%/"@ + token_text(window)).is_prefix_of(
            context_text(percent, window, auto_compact),
        ));
    }
}

/// The branch that a repository stands on is read from what its head names, without the space around
/// it; a head that names a commit is shown as it is.
pub proof fn branches_are_read_from_the_head(name: Seq<char>)
    requires
        name.len() > 0,
        !is_whitespace(name[0]),
        !is_whitespace(name.last()),
    ensures
        head_branch("ref: refs/heads/"@ + name) == Some(name),
        head_branch("ref: refs/heads/"@ + name.push('\n')) == Some(name),
        !"ref: refs/heads/"@.is_prefix_of(name) ==> head_branch(name) == Some(name),
{
    let prefix = "ref: refs/heads/"@;
    assert((prefix + name).skip(prefix.len() as int) =~= name);
    let line = name.push('\n');
    assert((prefix + line).skip(prefix.len() as int) =~= line);
    assert(line.drop_last() =~= name);
    assert(line[0] == name[0]);
    assert(trim_start(line) == line);
}

/// The place starts with the directory and ends with the session's name; the branch stands in brackets
/// right behind the directory.
pub proof fn places_tell_directory_branch_and_name(
    directory: Seq<char>,
    branch: Option<Seq<char>>,
    name: Option<Seq<char>>,
)
    ensures
        directory.is_prefix_of(location_text(directory, branch, name)),
        branch matches Some(branch_name) ==> (directory + " ("@ + branch_name + ")"@).is_prefix_of(
            location_text(directory, branch, name),
        ),
        name matches Some(session) ==> (" • "@ + session).is_suffix_of(
            location_text(directory, branch, name),
        ),
        branch is None && name is None ==> location_text(directory, branch, name) == directory,
{
    if let Some(session) = name {
        let tail = " • "@ + session;
        let whole = location_text(directory, branch, name);
        assert(whole.skip(whole.len() - tail.len()) =~= tail);
    }
}

/// The model is shown first, with how hard it thinks if it can; its provider stands before it only where
/// there are several.
pub proof fn models_are_shown_with_their_thinking(stats: FooterStats, providers: nat)
    ensures
        stats.model matches Some(model) ==> model@.is_prefix_of(model_text(stats)),
        !stats.reasoning && stats.model is Some ==> model_text(stats) == stats.model->0@,
        stats.reasoning && stats.thinking_level is Some && stats.thinking_level->0@ != "off"@ ==> (
        " • "@ + stats.thinking_level->0@).is_suffix_of(model_text(stats)),
        provider_model_text(stats, providers) is Some <==> providers > 1 && stats.provider is Some
            && stats.model is Some,
        provider_model_text(stats, providers) matches Some(text) ==> text == "("@
            + stats.provider->0@ + ") "@ + model_text(stats),
{
    if stats.reasoning && stats.thinking_level is Some && stats.thinking_level->0@ != "off"@ {
        let tail = " • "@ + stats.thinking_level->0@;
        let whole = model_text(stats);
        assert(whole.skip(whole.len() - tail.len()) =~= tail);
    }
}

/// Hours, minutes and years are shown with two digits.
pub proof fn times_have_two_digits(n: nat)
    requires
        n < 100,
    ensures
        two_digits(n) == seq![digit(n / 10), digit(n % 10)],
{
    reveal_with_fuel(decimal, 2);
    assert(two_digits(n) =~= seq![digit(n / 10), digit(n % 10)]);
}

/// A label tells the time of day; the day is told before it where it is another than today, and the
/// year before that where it is another than this one.
pub proof fn labels_tell_what_differs_from_now(date: CivilTime, now: CivilTime)
    ensures
        ({
            let time = two_digits(date.hour as nat) + ":"@ + two_digits(date.minute as nat);
            let day = decimal(date.month as nat) + "/"@ + decimal(date.day as nat) + " "@ + time;
            let text = label_time(date, now);
            let today = date.year == now.year && date.month == now.month && date.day == now.day;
            &&& time.is_suffix_of(text)
            &&& today ==> text == time
            &&& !today ==> day.is_suffix_of(text)
            &&& !today && date.year == now.year ==> text == day
            &&& date.year != now.year ==> text.len() > day.len()
        }),
{
    let time = two_digits(date.hour as nat) + ":"@ + two_digits(date.minute as nat);
    let day = decimal(date.month as nat) + "/"@ + decimal(date.day as nat) + " "@ + time;
    let text = label_time(date, now);
    assert(day.skip(day.len() - time.len()) =~= time);
    assert(text.skip(text.len() - time.len()) =~= time);
    if date.year != now.year {
        reveal_strlit("/");
        assert(text.skip(text.len() - day.len()) =~= day);
    }
}

/// On other machines than a Mac keys are shown as they are written.
pub proof fn keys_are_shown_as_written(key: Seq<char>)
    ensures
        key_alternatives(key, false, false) == key,
{
    let whole = split(key, '/');
    assert forall|i: int| 0 <= i < whole.len() implies key_combination(whole[i], false, false)
        == whole[i] by {
        let parts = split(whole[i], '+');
        assert(parts.map_values(|part: Seq<char>| key_part(part, false, false)) =~= parts);
        split_pieces_join(whole[i], '+');
    }
    assert(whole.map_values(|keys: Seq<char>| key_combination(keys, false, false)) =~= whole);
    split_pieces_join(key, '/');
}

/// On a Mac the alt key is called option and every other part of a key keeps its name.
pub proof fn only_alt_has_another_name(part: Seq<char>)
    ensures
        is_alt(part) ==> key_part(part, false, true) == "option"@,
        !is_alt(part) ==> key_part(part, false, true) == part,
        part.len() > 0 ==> key_part(part, true, false) == crate::keybinding_hints::char_uppercase(
            part[0],
        ) + part.skip(1),
{
}

/// A range of lines starts at the offset, or at the first line, and holds as many lines as the limit
/// says.
pub proof fn ranges_hold_as_many_lines_as_asked_for(offset: Option<i64>, limit: Option<i64>)
    ensures
        offset is None && limit is None ==> line_range(offset, limit).len() == 0,
        offset is Some && limit is None ==> line_range(offset, limit) == ":"@ + signed_decimal(
            offset->0 as int,
        ),
        offset is None && limit is Some ==> line_range(offset, limit) == ":1-"@ + signed_decimal(
            limit->0 as int,
        ),
        offset is Some && limit is Some ==> exists|last: int|
            last - offset->0 + 1 == limit->0 && line_range(offset, limit) == ":"@ + signed_decimal(
                offset->0 as int,
            ) + "-"@ + #[trigger] signed_decimal(last),
{
    if offset is Some && limit is Some {
        let last = offset->0 + limit->0 - 1;
        assert(line_range(offset, limit) =~= ":"@ + signed_decimal(offset->0 as int) + "-"@
            + signed_decimal(last));
    } else if limit is Some {
        reveal_strlit(":");
        reveal_strlit("-");
        reveal_strlit(":1-");
        assert(signed_decimal(1) =~= seq!['1']);
        assert(line_range(offset, limit) =~= ":1-"@ + signed_decimal(limit->0 as int));
    } else if offset is Some {
        assert(line_range(offset, limit) =~= ":"@ + signed_decimal(offset->0 as int));
    }
}

proof fn lemma_call_heads()
    ensures
        "[read: "@ == "["@ + "read"@ + ": "@,
        "[write: "@ == "["@ + "write"@ + ": "@,
        "[edit: "@ == "["@ + "edit"@ + ": "@,
        "[bash: "@ == "["@ + "bash"@ + ": "@,
        "[grep: /"@ == "["@ + "grep"@ + ": "@ + "/"@,
        "[find: "@ == "["@ + "find"@ + ": "@,
        "[ls: "@ == "["@ + "ls"@ + ": "@,
        "]"@.len() == 1,
        "]"@[0] == ']',
{
    reveal_strlit("[");
    reveal_strlit("]");
    reveal_strlit("/");
    reveal_strlit(": ");
    reveal_strlit("read");
    reveal_strlit("write");
    reveal_strlit("edit");
    reveal_strlit("bash");
    reveal_strlit("grep");
    reveal_strlit("find");
    reveal_strlit("ls");
    reveal_strlit("[read: ");
    reveal_strlit("[write: ");
    reveal_strlit("[edit: ");
    reveal_strlit("[bash: ");
    reveal_strlit("[grep: /");
    reveal_strlit("[find: ");
    reveal_strlit("[ls: ");
    assert("[read: "@ =~= "["@ + "read"@ + ": "@);
    assert("[write: "@ =~= "["@ + "write"@ + ": "@);
    assert("[edit: "@ =~= "["@ + "edit"@ + ": "@);
    assert("[bash: "@ =~= "["@ + "bash"@ + ": "@);
    assert("[grep: /"@ =~= "["@ + "grep"@ + ": "@ + "/"@);
    assert("[find: "@ =~= "["@ + "find"@ + ": "@);
    assert("[ls: "@ =~= "["@ + "ls"@ + ": "@);
}

/// The call of any tool is described in brackets, with the name of the tool first.
pub proof fn calls_start_with_their_tool(
    name: Seq<char>,
    args: ArgumentsView,
    home: Option<Seq<char>>,
)
    ensures
        ("["@ + name + ": "@).is_prefix_of(described_call(name, args, home)),
        described_call(name, args, home).last() == ']',
{
    lemma_call_heads();
    let head = "["@ + name + ": "@;
    let call = described_call(name, args, home);
    let file = shortened_path(or_else(args.path, args.file_path), home);
    let place = shortened_path(or_else(args.path, "."@), home);
    if name == "read"@ {
        lemma_call(call, head, file + line_range(args.offset, args.limit));
    } else if name == "write"@ || name == "edit"@ {
        lemma_call(call, head, file);
    } else if name == "bash"@ {
        lemma_call(call, head, abbreviated(flattened(args.command), args.command, 50));
    } else if name == "grep"@ {
        lemma_call(call, head, "/"@ + args.pattern + "/ in "@ + place);
    } else if name == "find"@ {
        lemma_call(call, head, args.pattern + " in "@ + place);
    } else if name == "ls"@ {
        lemma_call(call, head, place);
    } else {
        lemma_call(call, head, abbreviated(args.json, args.json, 40));
    }
}

proof fn lemma_call(call: Seq<char>, head: Seq<char>, told: Seq<char>)
    requires
        call =~= head + told + "]"@,
    ensures
        head.is_prefix_of(call),
        call.last() == ']',
{
    reveal_strlit("]");
}

proof fn lemma_tools_differ()
    ensures
        "read"@[0] == 'r',
        "write"@[0] == 'w',
        "edit"@[0] == 'e',
        "bash"@[0] == 'b',
        "grep"@[0] == 'g',
        "find"@[0] == 'f',
        "ls"@[0] == 'l',
{
    reveal_strlit("read");
    reveal_strlit("write");
    reveal_strlit("edit");
    reveal_strlit("bash");
    reveal_strlit("grep");
    reveal_strlit("find");
    reveal_strlit("ls");
}

/// A tool that works on a file is described by the file, one that searches by what it searches for and
/// where, and a command by itself.
pub proof fn calls_tell_what_they_work_on(args: ArgumentsView)
    ensures
        args.path.len() > 0 ==> {
            &&& described_call("write"@, args, None) == "[write: "@ + args.path + "]"@
            &&& described_call("edit"@, args, None) == "[edit: "@ + args.path + "]"@
            &&& described_call("ls"@, args, None) == "[ls: "@ + args.path + "]"@
            &&& described_call("find"@, args, None) == "[find: "@ + args.pattern + " in "@ + args.path
                + "]"@
            &&& described_call("grep"@, args, None) == "[grep: /"@ + args.pattern + "/ in "@
                + args.path + "]"@
            &&& described_call("read"@, args, None) == "[read: "@ + args.path + line_range(
                args.offset,
                args.limit,
            ) + "]"@
        },
        args.path.len() == 0 ==> {
            &&& described_call("write"@, args, None) == "[write: "@ + args.file_path + "]"@
            &&& described_call("edit"@, args, None) == "[edit: "@ + args.file_path + "]"@
            &&& described_call("ls"@, args, None) == "[ls: "@ + "."@ + "]"@
        },
{
    lemma_tools_differ();
}

proof fn lemma_prefix_whole(s: Seq<char>, n: int)
    requires
        utf16_len(s) <= n,
    ensures
        utf16_prefix(s, n) == s,
    decreases s.len(),
{
    if s.len() > 0 {
        lemma_units_first(s);
        lemma_prefix_whole(s.skip(1), n - char_utf16_len(s[0]));
        assert(seq![s[0]] + s.skip(1) =~= s);
    }
}

proof fn lemma_units_first(s: Seq<char>)
    requires
        s.len() > 0,
    ensures
        utf16_len(s) == char_utf16_len(s[0]) + utf16_len(s.skip(1)),
        utf16_len(s) > 0,
    decreases s.len(),
{
    if s.len() > 1 {
        lemma_units_first(s.drop_last());
        assert(s.drop_last().skip(1) =~= s.skip(1).drop_last());
    } else {
        assert(s.skip(1) =~= Seq::empty());
        assert(s.drop_last() =~= Seq::empty());
    }
}

/// A text that is short enough is shown whole, and a longer one ends with dots.
pub proof fn only_long_texts_are_abbreviated(whole: Seq<char>, n: int)
    requires
        n >= 0,
    ensures
        utf16_len(whole) <= n ==> abbreviated(whole, whole, n) == whole,
        utf16_len(whole) > n ==> "..."@.is_suffix_of(abbreviated(whole, whole, n)),
{
    if utf16_len(whole) <= n {
        lemma_prefix_whole(whole, n);
        assert(whole + Seq::<char>::empty() =~= whole);
    } else {
        let text = abbreviated(whole, whole, n);
        assert(text.skip(text.len() - "..."@.len()) =~= "..."@);
    }
}

/// The age of a session is told in the largest unit that it fills, without what is left over.
pub proof fn ages_are_told_in_the_largest_unit(diff_ms: int, n: nat)
    ensures
        diff_ms < 60_000 ==> session_age(diff_ms) == "now"@,
        0 < n < 60 && n * 60_000 <= diff_ms < (n + 1) * 60_000 ==> session_age(diff_ms) == decimal(n)
            + "m"@,
        0 < n < 24 && n * 3_600_000 <= diff_ms < (n + 1) * 3_600_000 ==> session_age(diff_ms)
            == decimal(n) + "h"@,
        0 < n < 7 && n * 86_400_000 <= diff_ms < (n + 1) * 86_400_000 ==> session_age(diff_ms)
            == decimal(n) + "d"@,
        0 < n && n * 604_800_000 <= diff_ms < (n + 1) * 604_800_000 && diff_ms < 2_592_000_000
            ==> session_age(diff_ms) == decimal(n) + "w"@,
        0 < n && n * 2_592_000_000 <= diff_ms < (n + 1) * 2_592_000_000 && diff_ms < 31_536_000_000
            ==> session_age(diff_ms) == decimal(n) + "mo"@,
        0 < n && n * 31_536_000_000 <= diff_ms < (n + 1) * 31_536_000_000 ==> session_age(diff_ms)
            == decimal(n) + "y"@,
{
}

/// A path under the home directory is shown from a tilde on, and any other as it is.
pub proof fn home_is_shown_as_a_tilde(path: Seq<char>, home: Seq<char>, rest: Seq<char>)
    requires
        home.len() > 0,
    ensures
        shortened_path(home + rest, Some(home)) == seq!['~'] + rest,
        !home.is_prefix_of(path) ==> shortened_path(path, Some(home)) == path,
        shortened_path(path, None) == path,
{
    assert((home + rest).skip(home.len() as int) =~= rest);
    assert(home.is_prefix_of(home + rest));
}

} // verus!
