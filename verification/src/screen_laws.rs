//! What screens show: which line is marked, what stands on which line, and that styling keeps the text.

use crate::assistant_message::MessagePart;
use crate::config_selector::{item_of, ConfigWriteScope, FlatEntry, ResourceList};
use crate::config_view::{count_items, ConfigSelectorComponent};
use crate::first_time_setup::choice_row;
use crate::footer::{
    location_text, opt_text, right_spans, status_text, FooterComponent, FooterCuts, FooterData,
};
use crate::keybinding_hints::{KeyMatches, KeyTable};
use crate::login_dialog::LoginView;
use crate::message_blocks::{part_texts, CustomMessageComponent};
use crate::session_header::SessionSelectorHeader;
use crate::session_rows::{message_room, position_label, RowView};
use crate::session_screen::{selector_reacted, KeyTarget};
use crate::session_selector_component::{SelectorMode, SelectorRequest, SessionSelectorComponent};
use crate::style::{emboldened, plain, text_of, tinted, SpanView, ThemeColor};
use crate::text::{decimal, join};
use crate::transcript::PieceView;
use crate::tree_help::{
    compacted_keys, help_item_text, key_base, key_modifiers, packed_lines, search_spans,
    through_last,
};
use vstd::prelude::*;
use vstd::string::*;

verus! {

broadcast use vstd::string::group_string_axioms;

/// A line of the list of resources shows its resource behind its box, and only the selected one is
/// marked; groups are shown by their label.
pub proof fn resource_lines_show_their_resource(
    list: ResourceList,
    entry: FlatEntry,
    selected: bool,
)
    ensures
        entry matches FlatEntry::Item(g, s, i) ==> {
            let line = list.line_spans(entry, selected);
            let item = item_of(list.groups(), g, s, i);
            &&& (line[0].text == ">     "@) == selected
            &&& line[1] == list.checkbox(item)
            &&& line[3].text == item.display_name
            &&& list.suffix(item) is Some == (line.len() == 5)
        },
        entry matches FlatEntry::Group(g) ==> list.groups()[g as int].label.is_prefix_of(
            list.line_spans(entry, selected)[1].text,
        ),
        entry matches FlatEntry::Subgroup(g, s) ==> list.line_spans(entry, selected)[1].text
            == list.groups()[g as int].subgroups[s as int].label,
{
    reveal_strlit(">     ");
    reveal_strlit("      ");
    assert(">     "@[0] == '>' && "      "@[0] == ' ');
}

/// Headings are not counted as resources.
pub proof fn only_resources_are_counted(lines: Seq<FlatEntry>, n: nat)
    requires
        n < lines.len(),
    ensures
        lines[n as int] is Item ==> count_items(lines, n + 1) == count_items(lines, n) + 1,
        !(lines[n as int] is Item) ==> count_items(lines, n + 1) == count_items(lines, n),
        count_items(lines, 0) == 0,
{
}

/// The place in a list is told from one on.
pub proof fn places_are_counted_from_one(selected: nat, len: nat)
    ensures
        position_label(selected, len) == "  ("@ + decimal(selected + 1) + "/"@ + decimal(len) + ")"@,
{
}

/// The screen of the resources is titled after whose settings it writes.
pub proof fn titles_tell_whose_settings_are_written(selector: ConfigSelectorComponent)
    ensures
        selector.write_scope == ConfigWriteScope::Project ==> "Project"@.is_prefix_of(
            selector.title_text(),
        ) && ".pi/settings.json"@.is_prefix_of(selector.scope_text()),
        selector.write_scope == ConfigWriteScope::Global ==> "Global"@.is_prefix_of(
            selector.title_text(),
        ) && "~/.pi/agent/settings.json"@ == selector.scope_text(),
{
    reveal_strlit("Project");
    reveal_strlit("Global");
    reveal_strlit("Project Local Resources");
    reveal_strlit("Global Resources");
    reveal_strlit(".pi/settings.json");
    reveal_strlit(".pi/settings.json · inherited global resources are dimmed");
    assert("Project"@.is_prefix_of("Project Local Resources"@));
    assert("Global"@.is_prefix_of("Global Resources"@));
    assert(".pi/settings.json"@.is_prefix_of(
        ".pi/settings.json · inherited global resources are dimmed"@,
    ));
}

/// A choice is shown by its label, with a mark before the selected one.
pub proof fn choices_are_shown_by_their_label(label: Seq<char>, selected: bool)
    ensures
        choice_row(label, selected).len() == 2,
        choice_row(label, selected)[1].text == label,
        (choice_row(label, selected)[0].text == "→ "@) == selected,
{
    reveal_strlit("→ ");
    reveal_strlit("  ");
    assert("→ "@[0] == '→' && "  "@[0] == ' ');
}

/// A row of the session list shows its mark, its lines, its message and what is told at the right, and
/// fills the width where there is room.
pub proof fn session_rows_fill_the_width(
    row: RowView,
    message: Seq<char>,
    message_width: int,
    prefix_width: int,
    right_width: int,
    width: int,
)
    requires
        0 <= message_width,
        0 <= prefix_width,
        0 <= right_width,
    ensures
        ({
            let line = row.line(message, message_width, prefix_width, right_width, width);
            &&& line.len() == 5
            &&& (line[0].text == "› "@) == row.selected
            &&& line[1].text == row.prefix
            &&& line[2].text == message
            &&& line[2].color == row.message_color
            &&& line[4].text == row.right
            &&& 2 + prefix_width + message_width + right_width < width ==> 2 + prefix_width
                + message_width + line[3].text.len() + right_width == width
            &&& line[3].text.len() >= 1
        }),
        message_width <= message_room(width, prefix_width, right_width) && message_room(
            width,
            prefix_width,
            right_width,
        ) > 10 ==> 2 + prefix_width + message_width + right_width < width,
{
    reveal_strlit("› ");
    reveal_strlit("  ");
    assert("› "@[0] == '›' && "  "@[0] == ' ');
}

/// A login shows its input only while it is wanted, and a masked one never as text.
pub proof fn inputs_are_shown_while_they_are_wanted(login: LoginView, width: nat, k: int)
    requires
        0 <= k < login.screen(width).len(),
    ensures
        login.screen(width)[k] == PieceView::Input ==> login.input_visible && !login.masked,
        login.input.len() + 2 <= width ==> login.masked_line(width).len() == width,
{
    reveal_strlit(" ");
}

/// What styling adds leaves the texts of a line and their order.
pub proof fn styling_keeps_the_text(line: Seq<SpanView>, bold: bool, color: Option<ThemeColor>)
    ensures
        text_of(tinted(line, color)) == text_of(line),
        text_of(emboldened(line, bold)) == text_of(line),
    decreases line.len(),
{
    if line.len() > 0 {
        styling_keeps_the_text(line.drop_last(), bold, color);
        assert(tinted(line, color).drop_last() =~= tinted(line.drop_last(), color));
        assert(emboldened(line, bold).drop_last() =~= emboldened(line.drop_last(), bold));
    }
}

/// Tinting colors what has no color of its own, and nothing else.
pub proof fn tinting_keeps_other_colors(line: Seq<SpanView>, color: Option<ThemeColor>, i: int)
    requires
        0 <= i < line.len(),
    ensures
        line[i].color is Some ==> tinted(line, color)[i] == line[i],
        line[i].color is None ==> tinted(line, color)[i].color == color,
        tinted(line, color)[i].bold == line[i].bold,
        emboldened(line, true)[i].bold,
        emboldened(line, false)[i] == line[i],
{
}

/// A key is its modifiers and what they modify.
pub proof fn keys_are_modifiers_and_a_base(key: Seq<char>)
    ensures
        key_modifiers(key) + key_base(key) == key,
        !key_base(key).contains('+'),
        key_modifiers(key).len() > 0 ==> key_modifiers(key).last() == '+',
    decreases key.len(),
{
    lemma_through_last(key, '+');
    assert(key_modifiers(key) + key_base(key) =~= key);
}

proof fn lemma_through_last(s: Seq<char>, c: char)
    ensures
        through_last(s, c) <= s.len(),
        through_last(s, c) > 0 ==> s[through_last(s, c) - 1] == c,
        forall|i: int| through_last(s, c) <= i < s.len() ==> #[trigger] s[i] != c,
    decreases s.len(),
{
    if s.len() > 0 && s.last() != c {
        lemma_through_last(s.drop_last(), c);
        assert forall|i: int| through_last(s, c) <= i < s.len() implies #[trigger] s[i] != c by {
            if i < s.len() - 1 {
                assert(s.drop_last()[i] == s[i]);
            }
        }
    }
}

proof fn lemma_parts_of_key(modifiers: Seq<char>, base: Seq<char>)
    requires
        modifiers.len() == 0 || modifiers.last() == '+',
        !base.contains('+'),
    ensures
        key_modifiers(modifiers + base) == modifiers,
        key_base(modifiers + base) == base,
{
    let key = modifiers + base;
    lemma_through_last(key, '+');
    let n = through_last(key, '+') as int;
    if n > modifiers.len() {
        assert(key[n - 1] == base[n - 1 - modifiers.len()]);
        assert(base.contains('+'));
    }
    if n < modifiers.len() {
        assert(key[modifiers.len() - 1] == '+');
    }
    assert(key.take(n) =~= modifiers);
    assert(key.skip(n) =~= base);
}

/// Keys with the same modifiers are shown with them once; others are shown one by one.
pub proof fn shared_modifiers_are_shown_once(
    modifiers: Seq<char>,
    a: Seq<char>,
    b: Seq<char>,
    other: Seq<char>,
)
    requires
        modifiers.len() > 0,
        modifiers.last() == '+',
        !a.contains('+'),
        !b.contains('+'),
        key_modifiers(other) != modifiers,
    ensures
        compacted_keys(seq![modifiers + a, modifiers + b]) == modifiers + a + seq!['/'] + b,
        compacted_keys(seq![modifiers + a, other]) == modifiers + a + seq!['/'] + other,
        compacted_keys(seq![a, b]) == a + seq!['/'] + b,
        compacted_keys(seq![other]) == other,
{
    reveal_with_fuel(join, 3);
    lemma_parts_of_key(modifiers, a);
    lemma_parts_of_key(modifiers, b);
    lemma_parts_of_key(Seq::empty(), a);
    assert(Seq::<char>::empty() + a =~= a);
    let same = seq![modifiers + a, modifiers + b];
    let bases = same.map_values(|key: Seq<char>| key_base(key));
    assert(bases =~= seq![a, b]);
    lemma_join_two(a, b);
    assert(modifiers + (a + seq!['/'] + b) =~= modifiers + a + seq!['/'] + b);
    let mixed = seq![modifiers + a, other];
    assert(mixed[1] == other);
    lemma_join_two(modifiers + a, other);
}

proof fn lemma_join_two(a: Seq<char>, b: Seq<char>)
    ensures
        join(seq![a, b], seq!['/']) == a + seq!['/'] + b,
{
    let both = seq![a, b];
    assert(both.drop_last() =~= seq![a]);
    assert(join(seq![a], seq!['/']) == a);
}

/// Help names what keys do, with the keys if there are any.
pub proof fn help_names_what_keys_do(keys: Seq<char>, label: Seq<char>)
    ensures
        help_item_text(Seq::empty(), label, true) == label,
        help_item_text(Seq::empty(), label, false) == label,
        keys.len() > 0 ==> help_item_text(keys, label, true) == label + seq![' '] + keys,
        keys.len() > 0 ==> help_item_text(keys, label, false) == keys + seq![' '] + label,
{
}

/// Help is packed into lines that are no wider than the screen, as far as each item fits it.
pub proof fn help_lines_stay_on_the_screen(
    items: Seq<Seq<char>>,
    columns: Seq<usize>,
    width: nat,
)
    requires
        items.len() == columns.len(),
        forall|i: int| 0 <= i < columns.len() ==> #[trigger] columns[i] <= width,
    ensures
        packed_lines(items, columns, width).columns <= width,
        packed_lines(items, columns, width).full.len() <= items.len(),
{
    lemma_packed(items, columns, width);
}

proof fn lemma_packed(items: Seq<Seq<char>>, columns: Seq<usize>, width: nat)
    requires
        items.len() <= columns.len(),
        forall|i: int| 0 <= i < columns.len() ==> #[trigger] columns[i] <= width,
    ensures
        packed_lines(items, columns, width).columns <= width,
        packed_lines(items, columns, width).full.len() <= items.len(),
    decreases items.len(),
{
    if items.len() > 0 {
        lemma_packed(items.drop_last(), columns, width);
        assert(columns[items.len() - 1] <= width);
    }
}

/// The search of the tree is shown as it was typed.
pub proof fn searches_are_shown_as_typed(query: Seq<char>)
    ensures
        query.len() > 0 ==> search_spans(query).last().text == query,
        search_spans(Seq::empty()).len() < search_spans(seq!['x']).len(),
{
}

/// While a session is renamed keys go to its name, and cancelling goes back to the list without a change.
pub proof fn renaming_takes_the_keys(
    before: SessionSelectorComponent,
    after: SessionSelectorComponent,
    key: KeyMatches,
    fuzzy: Seq<Vec<Option<i64>>>,
    now_ms: u64,
    target: KeyTarget,
    requests: Seq<SelectorRequest>,
)
    requires
        before.mode == SelectorMode::Rename,
        selector_reacted(before, after, key, fuzzy, now_ms, target, requests),
    ensures
        after.session_list == before.session_list,
        after.header == before.header,
        key.has("tui.select.cancel"@) ==> after.mode == SelectorMode::List
            && after.rename_target_path is None && target == KeyTarget::Nothing,
        !key.has("tui.select.cancel"@) ==> after == before && target == KeyTarget::NameInput
            && requests.len() == 0,
{
}

/// The header asks before a session is deleted, and otherwise shows its message, in the color of errors
/// if it is one.
pub proof fn headers_ask_and_tell(header: SessionSelectorHeader, table: KeyTable)
    ensures
        header.confirming_delete_path is Some ==> header.first_hint(table).spans[0].text
            == "Delete session? "@ && header.first_hint(table).color == Some(ThemeColor::Error),
        header.confirming_delete_path is None && header.status_message is Some ==> {
            let status = header.status_message->0;
            &&& header.first_hint(table).spans == seq![plain(status.message@)]
            &&& (header.first_hint(table).color == Some(ThemeColor::Error)) == status.is_error
            &&& header.second_hint(table).spans.len() == 0
        },
{
}

/// The footer shows where the session is on its first line, what it used on the second and what
/// extensions tell on the third.
pub proof fn footers_have_three_lines(
    footer: FooterComponent,
    content: FooterData,
    cuts: FooterCuts,
    width: int,
)
    requires
        0 < width,
        cuts.location.width <= width,
        cuts.status.width <= width,
    ensures
        footer.lines(content, cuts, width).len() == 3,
        footer.lines(content, cuts, width)[0].len() == 1,
        footer.lines(content, cuts, width)[0][0].text == location_text(
            content.directory@,
            opt_text(content.branch),
            opt_text(content.session_name),
        ),
        footer.lines(content, cuts, width)[2].len() == 1,
        footer.lines(content, cuts, width)[2][0].text == status_text(
            content.statuses@.map_values(|s: (String, String)| s.0@),
            content.statuses@.map_values(|s: (String, String)| s.1@),
        ),
{
}

/// What stands at the right of the footer ends where the line does, if it fits whole.
pub proof fn right_sides_end_with_the_line(
    left_width: int,
    right: Seq<char>,
    cut: Seq<char>,
    cut_width: int,
    width: int,
)
    requires
        0 <= left_width,
        width <= usize::MAX,
        left_width + 2 + right.len() <= width,
    ensures
        ({
            let spans = right_spans(left_width, right, right.len() as int, cut, cut_width, width);
            &&& spans.len() == 1
            &&& left_width + spans[0].text.len() == width
            &&& right.is_suffix_of(spans[0].text)
        }),
{
    let spans = right_spans(left_width, right, right.len() as int, cut, cut_width, width);
    let text = spans[0].text;
    assert(text.skip(text.len() - right.len()) =~= right);
}

proof fn lemma_part_texts(parts: Seq<MessagePart>, i: int)
    requires
        0 <= i < parts.len(),
        parts[i] is Text,
    ensures
        part_texts(parts).contains(parts[i]->Text_0@),
    decreases parts.len(),
{
    let before = part_texts(parts.drop_last());
    if i < parts.len() - 1 {
        lemma_part_texts(parts.drop_last(), i);
        let k = choose|k: int| 0 <= k < before.len() && before[k] == parts[i]->Text_0@;
        assert(part_texts(parts)[k] == parts[i]->Text_0@);
    } else {
        assert(part_texts(parts).last() == parts[i]->Text_0@);
    }
}

/// A message of an extension is headed by its type and shows all of its texts.
pub proof fn extension_messages_show_their_texts(message: CustomMessageComponent, i: int)
    requires
        0 <= i < message.content@.len(),
        message.content@[i] is Text,
    ensures
        message.block().len() == 3,
        message.block()[2] is Markdown,
        message.block()[2]->Markdown_text == join(part_texts(message.content@), "\n"@),
        part_texts(message.content@).contains(message.content@[i]->Text_0@),
        message.block()[0] matches PieceView::Text { spans, padding } ==> spans[0].text == "["@
            + message.custom_type@ + "]"@,
{
    lemma_part_texts(message.content@, i);
}

} // verus!
