//! How much is shown and for how long: the sizes of lists, previews and messages, and how amounts are
//! told.

use crate::entries::{content_preview, content_text, Content};
use crate::footer::{cache_share, cost_part, tenths, thousandths, FooterStats};
use crate::label_times::{label_time, two_digits, CivilTime};
use crate::model_selector::ModelSelectorView;
use crate::numbers::decimal_reads_back;
use crate::scroll::valid_selection;
use crate::session_selector_component::{
    deleted, loaded, DeleteResult, LoadReason, SessionSelectorComponent,
};
use crate::settings_selector::{timeout_choice, trust_label, trust_value};
use crate::text::{char_utf16_len, decimal, is_whitespace, utf16_len};
use crate::tool_calls::abbreviated;
use crate::tree_component::TreeSelectorComponent;
use crate::user_message_selector::UserMessageList;
use vstd::prelude::*;
use vstd::string::*;

verus! {

broadcast use vstd::string::group_string_axioms;

/// What can be seen of the characters is not whitespace; the space, the tab and the line ends are.
pub proof fn visible_characters_are_no_whitespace(c: char)
    ensures
        '!' <= c <= '~' ==> !is_whitespace(c),
        c == ' ' || c == '\t' || c == '\n' || c == '\r' ==> is_whitespace(c),
{
}

/// A character outside the basic plane is two units long, and any other is one.
pub proof fn characters_are_one_or_two_units_long(c: char)
    ensures
        1 <= char_utf16_len(c) <= 2,
        c <= '\u{ffff}' ==> char_utf16_len(c) == 1,
        c >= '\u{10000}' ==> char_utf16_len(c) == 2,
{
}

/// Content is previewed whole up to two hundred units.
pub proof fn short_contents_are_previewed_whole(content: Content)
    requires
        utf16_len(content_text(content)) <= 200,
    ensures
        content_preview(content) == content_text(content),
{
    crate::text_laws::only_long_texts_are_abbreviated(content_text(content), 200);
    let text = content_text(content);
    assert(abbreviated(text, text, 200) == content_preview(content) + Seq::<char>::empty());
    assert(content_preview(content) + Seq::<char>::empty() =~= content_preview(content));
}

/// The footer tells the cost to a tenth of a cent, and that a subscription covers it.
pub proof fn costs_are_told_in_dollars(stats: FooterStats)
    ensures
        stats.cost > 0 || stats.using_subscription ==> cost_part(stats).len() == 1 && exists|n: nat|
            stats.cost <= 1_000_000 * n + 500_000 && 1_000_000 * n <= stats.cost + 500_000 && (
            #[trigger] ("$"@ + thousandths(n))).is_prefix_of(cost_part(stats)[0].text),
        stats.cost == 0 && !stats.using_subscription ==> cost_part(stats).len() == 0,
{
    if stats.cost > 0 || stats.using_subscription {
        let n = crate::footer::rounded(stats.cost as nat, 1_000_000);
        assert(("$"@ + thousandths(n)).is_prefix_of(cost_part(stats)[0].text));
    }
}

/// The share of the prompt that came from the cache is told where the cache was used: all of it is a
/// hundred percent, none of it zero.
pub proof fn cache_shares_are_told_in_percent(stats: FooterStats)
    ensures
        stats.cache_read == 0 && stats.cache_write == 0 ==> cache_share(stats).len() == 0,
        stats.cache_read > 0 && stats.cache_write == 0 && stats.input == 0 ==> cache_share(
            stats,
        )[0].text == "CH"@ + tenths(1000) + "%"@,
        stats.cache_read == 0 && stats.cache_write > 0 ==> cache_share(stats)[0].text == "CH"@ + tenths(
            0,
        ) + "%"@,
{
    let prompt = stats.input as nat + stats.cache_read as nat + stats.cache_write as nat;
    if stats.cache_read > 0 && stats.cache_write == 0 && stats.input == 0 {
        let d = prompt as int;
        vstd::arithmetic::div_mod::lemma_div_multiples_vanish_fancy(1000, d / 2, d);
        assert(1000 * d == stats.cache_read as nat * 1000);
        assert((stats.cache_read as nat * 1000 + prompt / 2) / prompt == 1000) by {
            vstd::arithmetic::mul::lemma_mul_is_commutative(1000, d);
        }
    }
    if stats.cache_read == 0 && stats.cache_write > 0 {
        vstd::arithmetic::div_mod::lemma_basic_div(prompt as int / 2, prompt as int);
    }
}

/// The year of a label is told by its last two digits.
pub proof fn years_are_told_by_two_digits(date: CivilTime, now: CivilTime)
    requires
        date.year != now.year,
        2000 <= date.year < 2100,
    ensures
        two_digits((date.year - 2000) as nat).is_prefix_of(label_time(date, now)),
{
    assert(date.year as int % 100 == date.year - 2000);
}

/// Ten models and ten messages are shown at a time, or all of them.
pub proof fn lists_show_a_screenful(models: ModelSelectorView, messages: UserMessageList)
    requires
        valid_selection(models.selected, models.filtered.len() as int),
        messages.wf(),
    ensures
        models.filtered.len() > 10 ==> models.list_lines().len() == 10 + 1 + models.notes().len(),
        models.filtered.len() <= 10 ==> models.list_lines().len() == models.filtered.len()
            + models.notes().len(),
        messages.messages@.len() > 10 ==> messages.window().len() == 10,
        messages.messages@.len() <= 10 ==> messages.window().len() == messages.messages@.len(),
{
}

/// A failed load is told for four seconds.
pub proof fn failed_loads_are_told_for_four_seconds(
    before: SessionSelectorComponent,
    after: SessionSelectorComponent,
    scope: crate::session_selector::SessionScope,
    reason: LoadReason,
    message: String,
    fuzzy: Seq<Vec<Option<i64>>>,
    now_ms: u64,
)
    requires
        loaded(before, after, scope, reason, Err(message), fuzzy, now_ms),
        now_ms <= u64::MAX - 4000,
    ensures
        after.header.status_deadline is Some,
        after.header.status_deadline->0 == now_ms + 4000,
{
}

/// A deletion is told for two seconds, and a failed one for three.
pub proof fn deletions_are_told_for_seconds(
    before: SessionSelectorComponent,
    after: SessionSelectorComponent,
    path: Seq<char>,
    result: DeleteResult,
    fuzzy: Seq<Vec<Option<i64>>>,
    now_ms: u64,
)
    requires
        deleted(before, after, path, result, fuzzy, now_ms),
        now_ms <= u64::MAX - 3000,
    ensures
        after.header.status_deadline is Some,
        after.header.status_deadline->0 == now_ms + if result.ok {
            2000int
        } else {
            3000
        },
{
}

/// An empty tree is given up at its deadline, and once.
pub proof fn empty_trees_are_given_up_once(tree: TreeSelectorComponent, now_ms: u64, later_ms: u64)
    ensures
        tree.gives_up(now_ms) ==> tree.empty_tree_deadline is Some && now_ms
            >= tree.empty_tree_deadline->0,
        tree.gives_up(now_ms) ==> !tree.after_giving_up(now_ms).gives_up(later_ms),
        !tree.gives_up(now_ms) ==> tree.after_giving_up(now_ms) == tree,
        tree.empty_tree_deadline is Some && now_ms >= tree.empty_tree_deadline->0 ==> tree.gives_up(
            now_ms,
        ),
{
}

/// The labels of trust say what their values do.
pub proof fn trust_labels_say_what_they_do()
    ensures
        trust_value("Always trust"@) == Some("always"@),
        trust_value("Never trust"@) == Some("never"@),
        trust_value("Ask"@) == Some("ask"@),
        trust_label("always"@) == "Always trust"@,
        trust_label("never"@) == "Never trust"@,
        trust_label("ask"@) == "Ask"@,
{
    reveal_strlit("Always trust");
    reveal_strlit("Never trust");
    reveal_strlit("Ask");
    reveal_strlit("always");
    reveal_strlit("never");
    reveal_strlit("ask");
    assert("Always trust"@.len() == 12 && "Never trust"@.len() == 11 && "Ask"@.len() == 3);
    assert("always"@.len() == 6 && "never"@.len() == 5 && "ask"@.len() == 3);
}

/// A timeout that is chosen lasts as long as its label says, in minutes or in seconds.
pub proof fn timeouts_last_as_long_as_they_say(n: nat)
    ensures
        timeout_choice(decimal(n) + " min"@) matches Some(ms) ==> ms == n * 60_000,
        timeout_choice(decimal(n) + " sec"@) matches Some(ms) ==> ms == n * 1_000,
        timeout_choice("disabled"@) == Some(0u64),
{
    reveal_strlit(" min");
    reveal_strlit(" sec");
    reveal_strlit("30 sec");
    reveal_strlit("1 min");
    reveal_strlit("2 min");
    reveal_strlit("5 min");
    reveal_strlit("disabled");
    reveal_with_fuel(decimal, 2);
    decimal_reads_back(n);
    decimal_reads_back(1);
    decimal_reads_back(2);
    decimal_reads_back(5);
    decimal_reads_back(30);
    let minutes = decimal(n) + " min"@;
    let seconds = decimal(n) + " sec"@;
    assert(minutes.take(minutes.len() - 4) =~= decimal(n));
    assert(seconds.take(seconds.len() - 4) =~= decimal(n));
    assert(minutes.last() == 'n');
    assert(seconds.last() == 'c');
    assert("30 sec"@.last() == 'c' && "1 min"@.last() == 'n' && "2 min"@.last() == 'n'
        && "5 min"@.last() == 'n' && "disabled"@.last() == 'd');
    assert("30 sec"@.take(2) =~= decimal(30));
    assert("1 min"@.take(1) =~= decimal(1));
    assert("2 min"@.take(1) =~= decimal(2));
    assert("5 min"@.take(1) =~= decimal(5));
}

} // verus!
