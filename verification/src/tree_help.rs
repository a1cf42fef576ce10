//! The help lines above the session tree, and fitting lines into columns.

use crate::keybinding_hints::{format_key_text, key_alternatives, KeyTable};
use crate::style::{colored, fg, plain, push_span, raw, spans, Span, SpanView, ThemeColor};
use crate::text::{
    chars_of, join, join_strs, push_char, push_text, slice_eq, string_of, texts, trim_end,
};
use vstd::prelude::*;
use vstd::slice::slice_subrange;
use vstd::string::*;

verus! {

broadcast use vstd::string::group_string_axioms;

/// Length of the text up to and including its last `c`; 0 when there is none.
pub open spec fn through_last(s: Seq<char>, c: char) -> nat
    decreases s.len(),
{
    if s.len() == 0 {
        0
    } else if s.last() == c {
        s.len()
    } else {
        through_last(s.drop_last(), c)
    }
}

/// The modifiers of a key: everything through its last `+`.
pub open spec fn key_modifiers(key: Seq<char>) -> Seq<char> {
    key.take(through_last(key, '+') as int)
}

/// The key without its modifiers.
pub open spec fn key_base(key: Seq<char>) -> Seq<char> {
    key.skip(through_last(key, '+') as int)
}

/// The keys joined by `/`, with modifiers that all of them share written once.
pub open spec fn compacted_keys(keys: Seq<Seq<char>>) -> Seq<char> {
    if keys.len() == 1 {
        keys[0]
    } else if key_modifiers(keys[0]).len() > 0 && forall|i: int|
        0 <= i < keys.len() ==> key_modifiers(#[trigger] keys[i]) == key_modifiers(keys[0]) {
        key_modifiers(keys[0]) + join(
            keys.map_values(|key: Seq<char>| key_base(key)),
            seq!['/'],
        )
    } else {
        join(keys, seq!['/'])
    }
}

fn length_through_last(s: &Vec<char>, c: char) -> (r: usize)
    ensures
        r == through_last(s@, c),
        r <= s@.len(),
{
    let mut i: usize = s.len();
    assert(s@.take(s@.len() as int) =~= s@);
    while i > 0 && s[i - 1] != c
        invariant
            i <= s.len(),
            through_last(s@, c) == through_last(s@.take(i as int), c),
        decreases i,
    {
        assert(s@.take(i as int).drop_last() =~= s@.take(i - 1));
        i = i - 1;
    }
    i
}

/// The keys joined by `/`, with modifiers that all of them share written once.
pub fn compact_raw_keys(keys: &Vec<String>) -> (r: String)
    requires
        keys@.len() > 0,
    ensures
        r@ == compacted_keys(texts(keys@)),
{
    proof {
        reveal_strlit("/");
        assert("/"@ =~= seq!['/']);
    }
    let ghost all = texts(keys@);
    if keys.len() == 1 {
        return keys[0].clone();
    }
    let first = chars_of(keys[0].as_str());
    let shared: usize = length_through_last(&first, '+');
    let prefix = slice_subrange(first.as_slice(), 0, shared);
    assert(prefix@ =~= key_modifiers(all[0]));
    let mut same = shared > 0;
    let mut bases: Vec<String> = Vec::new();
    let mut i: usize = 0;
    while i < keys.len()
        invariant
            i <= keys.len(),
            all == texts(keys@),
            prefix@ == key_modifiers(all[0]),
            same == (prefix@.len() > 0 && forall|j: int|
                0 <= j < i ==> key_modifiers(#[trigger] all[j]) == prefix@),
            texts(bases@) =~= all.map_values(|key: Seq<char>| key_base(key)).take(i as int),
        decreases keys.len() - i,
    {
        let key = chars_of(keys[i].as_str());
        assert(key@ == all[i as int]);
        let cut: usize = length_through_last(&key, '+');
        let modifiers = slice_subrange(key.as_slice(), 0, cut);
        assert(modifiers@ =~= key_modifiers(all[i as int]));
        if !slice_eq(modifiers, prefix) {
            assert(key_modifiers(all[i as int]) != prefix@);
            same = false;
        }
        let base = slice_subrange(key.as_slice(), cut, key.len());
        assert(base@ =~= key_base(all[i as int]));
        push_text(&mut bases, string_of(base));
        i = i + 1;
    }
    if same {
        let joined = join_strs(&bases, "/");
        assert(texts(bases@) =~= all.map_values(|key: Seq<char>| key_base(key)));
        string_of(prefix).concat(joined.as_str())
    } else {
        assert(prefix@.len() > 0 ==> !(forall|j: int|
            0 <= j < all.len() ==> key_modifiers(#[trigger] all[j]) == key_modifiers(all[0])));
        join_strs(keys, "/")
    }
}

/// The text with every match of the pattern replaced, as `regex::Regex::replace_all` does it; the
/// text itself when the pattern does not compile.
pub uninterp spec fn regex_replaced(
    pattern: Seq<char>,
    text: Seq<char>,
    replacement: Seq<char>,
) -> Seq<char>;

/// Compiles the pattern with `regex::Regex::new` and replaces its matches with
/// `regex::Regex::replace_all`.
#[verifier::external_body]
fn replace_regex(pattern: &str, text: &str, replacement: &str) -> (r: String)
    ensures
        r@ == regex_replaced(pattern@, text@, replacement@),
{
    match regex::Regex::new(pattern) {
        Ok(regex) => regex.replace_all(text, replacement).into_owned(),
        Err(_) => text.to_owned(),
    }
}

/// Key names as symbols: arrows for the cursor keys, short names for the page keys.
pub open spec fn symbolized(text: Seq<char>) -> Seq<char> {
    let text = regex_replaced(r"\bpageUp\b"@, text, "pgup"@);
    let text = regex_replaced(r"\bpageDown\b"@, text, "pgdn"@);
    let text = regex_replaced(r"\bup\b"@, text, "↑"@);
    let text = regex_replaced(r"\bdown\b"@, text, "↓"@);
    let text = regex_replaced(r"\bleft\b"@, text, "←"@);
    regex_replaced(r"\bright\b"@, text, "→"@)
}

/// The first key of each of the keybindings that has one.
pub open spec fn first_keys(table: KeyTable, ids: Seq<Seq<char>>) -> Seq<Seq<char>>
    decreases ids.len(),
{
    if ids.len() == 0 {
        Seq::empty()
    } else {
        let before = first_keys(table, ids.drop_last());
        let keys = KeyTable::keys_from(table.bindings@, ids.last());
        if keys.len() > 0 {
            before.push(keys[0])
        } else {
            before
        }
    }
}

/// How the keys of some keybindings are written in the help: the first of each, compacted and as
/// symbols.
pub open spec fn help_keys(table: KeyTable, ids: Seq<Seq<char>>) -> Seq<char> {
    let keys = first_keys(table, ids);
    if keys.len() == 0 {
        Seq::empty()
    } else {
        symbolized(key_alternatives(compacted_keys(keys), false, table.macos))
    }
}

/// How the keys of some keybindings are written in the help.
pub fn format_help_keys(table: &KeyTable, ids: &Vec<String>) -> (r: String)
    ensures
        r@ == help_keys(*table, texts(ids@)),
{
    let mut keys: Vec<String> = Vec::new();
    let ghost all = texts(ids@);
    let mut i: usize = 0;
    assert(all.take(0) =~= Seq::empty());
    while i < ids.len()
        invariant
            i <= ids.len(),
            all == texts(ids@),
            texts(keys@) =~= first_keys(*table, all.take(i as int)),
        decreases ids.len() - i,
    {
        assert(all.take(i as int + 1).drop_last() =~= all.take(i as int));
        assert(all.take(i as int + 1).last() == ids@[i as int]@);
        if let Some(key) = table.first_key(ids[i].as_str()) {
            push_text(&mut keys, key);
        }
        i = i + 1;
    }
    assert(all.take(i as int) =~= all);
    if keys.len() == 0 {
        return String::new();
    }
    let text = format_key_text(compact_raw_keys(&keys).as_str(), false, table.macos);
    let text = replace_regex(r"\bpageUp\b", text.as_str(), "pgup");
    let text = replace_regex(r"\bpageDown\b", text.as_str(), "pgdn");
    let text = replace_regex(r"\bup\b", text.as_str(), "↑");
    let text = replace_regex(r"\bdown\b", text.as_str(), "↓");
    let text = replace_regex(r"\bleft\b", text.as_str(), "←");
    replace_regex(r"\bright\b", text.as_str(), "→")
}

/// One item of the help: what some keybindings do.
#[derive(Debug)]
pub struct TreeHelpItem {
    pub ids: Vec<String>,
    pub label: String,
    pub label_first: bool,
}

/// The text of a help item, given how its keys are written.
pub open spec fn help_item_text(keys: Seq<char>, label: Seq<char>, label_first: bool) -> Seq<char> {
    if keys.len() == 0 {
        label
    } else if label_first {
        label + seq![' '] + keys
    } else {
        keys + seq![' '] + label
    }
}

/// The text of a help item, given how its keys are written.
pub fn help_item(keys: &str, label: &str, label_first: bool) -> (r: String)
    ensures
        r@ == help_item_text(keys@, label@, label_first),
{
    if keys.is_empty() {
        return label.to_owned();
    }
    let mut r = String::new();
    if label_first {
        r.append(label);
        push_char(&mut r, ' ');
        r.append(keys);
    } else {
        r.append(keys);
        push_char(&mut r, ' ');
        r.append(label);
    }
    assert(r@ =~= help_item_text(keys@, label@, label_first));
    r
}

fn id_list(ids: &[&str]) -> (r: Vec<String>)
    ensures
        texts(r@) == ids@.map_values(|s: &str| s@),
{
    let mut r: Vec<String> = Vec::new();
    let mut i: usize = 0;
    while i < ids.len()
        invariant
            i <= ids.len(),
            texts(r@) =~= ids@.map_values(|s: &str| s@).take(i as int),
        decreases ids.len() - i,
    {
        push_text(&mut r, ids[i].to_owned());
        i = i + 1;
    }
    r
}

/// The content of a help item.
pub struct HelpItemView {
    pub ids: Seq<Seq<char>>,
    pub label: Seq<char>,
    pub label_first: bool,
}

impl View for TreeHelpItem {
    type V = HelpItemView;

    open spec fn view(&self) -> HelpItemView {
        HelpItemView { ids: texts(self.ids@), label: self.label@, label_first: self.label_first }
    }
}

/// The items of the help.
pub open spec fn tree_help() -> Seq<HelpItemView> {
    seq![
        HelpItemView {
            ids: seq!["tui.select.up"@, "tui.select.down"@],
            label: "move"@,
            label_first: false,
        },
        HelpItemView {
            ids: seq!["tui.editor.cursorLeft"@, "tui.editor.cursorRight"@],
            label: "page"@,
            label_first: false,
        },
        HelpItemView {
            ids: seq!["app.tree.foldOrUp"@, "app.tree.unfoldOrDown"@],
            label: "branch"@,
            label_first: false,
        },
        HelpItemView { ids: seq!["app.message.copy"@], label: "copy"@, label_first: false },
        HelpItemView { ids: seq!["app.tree.editLabel"@], label: "label"@, label_first: false },
        HelpItemView {
            ids: seq!["app.tree.toggleLabelTimestamp"@],
            label: "label time"@,
            label_first: false,
        },
        HelpItemView {
            ids: seq![
                "app.tree.filter.default"@,
                "app.tree.filter.noTools"@,
                "app.tree.filter.userOnly"@,
                "app.tree.filter.labeledOnly"@,
                "app.tree.filter.all"@,
            ],
            label: "filters"@,
            label_first: true,
        },
        HelpItemView {
            ids: seq!["app.tree.filter.cycleForward"@, "app.tree.filter.cycleBackward"@],
            label: "cycle"@,
            label_first: true,
        },
    ]
}

fn help_entry(ids: &[&str], label: &str, label_first: bool) -> (r: TreeHelpItem)
    ensures
        r@.ids == ids@.map_values(|s: &str| s@),
        r@.label == label@,
        r@.label_first == label_first,
{
    TreeHelpItem { ids: id_list(ids), label: label.to_owned(), label_first }
}

/// The items of the help.
pub fn tree_help_items() -> (r: Vec<TreeHelpItem>)
    ensures
        r@.map_values(|item: TreeHelpItem| item@) == tree_help(),
{
    let mut r: Vec<TreeHelpItem> = Vec::new();
    r.push(help_entry(&["tui.select.up", "tui.select.down"], "move", false));
    r.push(help_entry(&["tui.editor.cursorLeft", "tui.editor.cursorRight"], "page", false));
    r.push(help_entry(&["app.tree.foldOrUp", "app.tree.unfoldOrDown"], "branch", false));
    r.push(help_entry(&["app.message.copy"], "copy", false));
    r.push(help_entry(&["app.tree.editLabel"], "label", false));
    r.push(help_entry(&["app.tree.toggleLabelTimestamp"], "label time", false));
    r.push(
        help_entry(
            &[
                "app.tree.filter.default",
                "app.tree.filter.noTools",
                "app.tree.filter.userOnly",
                "app.tree.filter.labeledOnly",
                "app.tree.filter.all",
            ],
            "filters",
            true,
        ),
    );
    r.push(
        help_entry(
            &["app.tree.filter.cycleForward", "app.tree.filter.cycleBackward"],
            "cycle",
            true,
        ),
    );
    proof {
        let views = r@.map_values(|item: TreeHelpItem| item@);
        assert(views.len() == tree_help().len());
        assert forall|i: int| 0 <= i < views.len() implies views[i] == tree_help()[i] by {
            assert(views[i].ids =~= tree_help()[i].ids);
        }
        assert(views =~= tree_help());
    }
    r
}

/// The lines of the help while they are being filled: those that are full, and the current one with
/// its columns.
pub struct PackedView {
    pub full: Seq<Seq<char>>,
    pub current: Seq<char>,
    pub columns: nat,
}

/// A line that starts with the item: indented if that fits.
pub open spec fn started_line(full: Seq<Seq<char>>, item: Seq<char>, columns: nat, width: nat)
    -> PackedView {
    if columns + 2 <= width {
        PackedView { full, current: "  "@ + item, columns: columns + 2 }
    } else {
        PackedView { full, current: item, columns }
    }
}

/// The help lines that hold the items: as many on a line as fit, separated by dots.
pub open spec fn packed_lines(items: Seq<Seq<char>>, columns: Seq<usize>, width: nat) -> PackedView
    decreases items.len(),
{
    if items.len() == 0 {
        PackedView { full: Seq::empty(), current: Seq::empty(), columns: 0 }
    } else {
        let before = packed_lines(items.drop_last(), columns, width);
        let item = items.last();
        let wide = columns[items.len() - 1] as nat;
        if before.current.len() == 0 {
            started_line(before.full, item, wide, width)
        } else if before.columns + 3 + wide <= width {
            PackedView {
                full: before.full,
                current: before.current + " · "@ + item,
                columns: before.columns + 3 + wide,
            }
        } else {
            started_line(before.full.push(trim_end(before.current)), item, wide, width)
        }
    }
}

/// All of the packed lines.
pub open spec fn all_lines(packed: PackedView) -> Seq<Seq<char>> {
    if packed.current.len() == 0 {
        packed.full
    } else {
        packed.full.push(trim_end(packed.current))
    }
}

fn trim_end_str(s: &str) -> (r: String)
    ensures
        r@ == trim_end(s@),
{
    let chars = chars_of(s);
    let mut end: usize = chars.len();
    assert(s@.take(s@.len() as int) =~= s@);
    while end > 0 && crate::text::is_white(chars[end - 1])
        invariant
            end <= chars.len(),
            chars@ == s@,
            trim_end(s@) == trim_end(s@.take(end as int)),
        decreases end,
    {
        assert(s@.take(end as int).drop_last() =~= s@.take(end - 1));
        end = end - 1;
    }
    let kept = slice_subrange(chars.as_slice(), 0, end);
    assert(kept@ =~= s@.take(end as int));
    string_of(kept)
}

/// The help lines that hold the items, each of which takes the given columns: as many on a line as
/// fit into the width, separated by dots.
pub fn pack_help(items: &Vec<String>, columns: &Vec<usize>, width: usize) -> (r: Vec<String>)
    requires
        items@.len() == columns@.len(),
    ensures
        texts(r@) == all_lines(
            packed_lines(
                texts(items@),
                columns@,
                if width > 1 {
                    width as nat
                } else {
                    1
                },
            ),
        ),
{
    let room: u128 = if width > 1 {
        width as u128
    } else {
        1
    };
    let ghost all = texts(items@);
    let mut full: Vec<String> = Vec::new();
    let mut current = String::new();
    let mut taken: u128 = 0;
    let mut i: usize = 0;
    assert(all.take(0) =~= Seq::empty());
    while i < items.len()
        invariant
            i <= items.len(),
            items@.len() == columns@.len(),
            all == texts(items@),
            1 <= room <= usize::MAX,
            taken <= usize::MAX as u128 + 2,
            ({
                let packed = packed_lines(all.take(i as int), columns@, room as nat);
                &&& texts(full@) =~= packed.full
                &&& current@ == packed.current
                &&& taken == packed.columns
            }),
        decreases items.len() - i,
    {
        proof {
            assert(all.take(i as int + 1).drop_last() =~= all.take(i as int));
            assert(all.take(i as int + 1).last() == items@[i as int]@);
        }
        let wide: u128 = columns[i] as u128;
        let item = items[i].as_str();
        if !current.as_str().is_empty() && taken + 3 + wide <= room {
            current.append(" · ");
            current.append(item);
            taken = taken + 3 + wide;
        } else {
            if !current.as_str().is_empty() {
                push_text(&mut full, trim_end_str(current.as_str()));
            }
            if wide + 2 <= room {
                current = "  ".to_owned().concat(item);
                taken = wide + 2;
            } else {
                current = item.to_owned();
                taken = wide;
            }
        }
        i = i + 1;
    }
    assert(all.take(i as int) =~= all);
    if !current.as_str().is_empty() {
        push_text(&mut full, trim_end_str(current.as_str()));
    }
    full
}

/// How the items of the help are written.
pub open spec fn help_texts(table: KeyTable) -> Seq<Seq<char>> {
    tree_help().map_values(
        |item: HelpItemView|
            help_item_text(help_keys(table, item.ids), item.label, item.label_first),
    )
}

/// How the items of the help are written.
pub fn write_help(table: &KeyTable) -> (r: Vec<String>)
    ensures
        texts(r@) == help_texts(*table),
{
    let items = tree_help_items();
    let ghost views = items@.map_values(|item: TreeHelpItem| item@);
    let ghost wanted = help_texts(*table);
    let mut r: Vec<String> = Vec::new();
    let mut i: usize = 0;
    assert(views.len() == items@.len());
    while i < items.len()
        invariant
            i <= items.len(),
            views == items@.map_values(|item: TreeHelpItem| item@),
            views == tree_help(),
            wanted == help_texts(*table),
            wanted.len() == items@.len(),
            texts(r@) =~= wanted.take(i as int),
        decreases items.len() - i,
    {
        let item = &items[i];
        let keys = format_help_keys(table, &item.ids);
        assert(views[i as int] == item@);
        push_text(&mut r, help_item(keys.as_str(), item.label.as_str(), item.label_first));
        i = i + 1;
    }
    assert(wanted.take(i as int) =~= wanted);
    r
}

/// The line that shows the search query.
pub open spec fn search_spans(query: Seq<char>) -> Seq<SpanView> {
    if query.len() == 0 {
        seq![plain("  "@), colored(ThemeColor::Muted, "Type to search:"@)]
    } else {
        seq![
            plain("  "@),
            colored(ThemeColor::Muted, "Type to search:"@),
            plain(" "@),
            colored(ThemeColor::Accent, query),
        ]
    }
}

/// The line that shows the search query.
pub fn search_line(query: &str) -> (r: Vec<Span>)
    ensures
        spans(r@) == search_spans(query@),
{
    let mut line: Vec<Span> = Vec::new();
    push_span(&mut line, raw("  "));
    push_span(&mut line, fg(ThemeColor::Muted, "Type to search:"));
    if !query.is_empty() {
        push_span(&mut line, raw(" "));
        push_span(&mut line, fg(ThemeColor::Accent, query));
        assert(spans(line@) =~= seq![
            plain("  "@),
            colored(ThemeColor::Muted, "Type to search:"@),
            plain(" "@),
            colored(ThemeColor::Accent, query@),
        ]);
    } else {
        assert(spans(line@) =~= seq![
            plain("  "@),
            colored(ThemeColor::Muted, "Type to search:"@),
        ]);
    }
    line
}

} // verus!
