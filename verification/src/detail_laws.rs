//! What small steps do: how lines are told apart, what is looked up under a name, and which text a
//! message, a theme or a key stands for.

use crate::app_keybindings::{app_actions, fold_actions};
use crate::bash_execution::{clean_newlines, continued, split_pieces_join};
use crate::entries::{blocks_text, content_text, flattened, Block, Content};
use crate::extension_ui::{current_theme, ThemeCatalogItem, ThemeTexts};
use crate::json::is_json;
use crate::keybinding_hints::{BoundKeys, KeyTable};
use crate::lines::lines;
use crate::scroll::{clamped, window_end, window_start};
use crate::session::{CanonicalPaths, SessionInfo};
use crate::session_header::SessionSelectorHeader;
use crate::session_selector_component::{first_line, name_at, trash_complaint, TrashOutcome};
use crate::text::{decimal, is_blank, join, lemma_index_of_char_bounds, split, texts, trim};
use crate::tool_execution::args_text;
use crate::tree_arena::{last_with_id, RowView};
use crate::tree_rows::status_labels;
use crate::tree_selector::FilterMode;
use vstd::prelude::*;
use vstd::string::*;

verus! {

broadcast use vstd::string::group_string_axioms;

/// A selection beyond the end of its list goes to the last item, and any other stays.
pub proof fn selections_stay_in_their_list(selected: int, len: int)
    requires
        0 <= selected,
        0 <= len,
    ensures
        selected < len ==> clamped(selected, len) == selected,
        0 < len <= selected ==> clamped(selected, len) == len - 1,
        len == 0 ==> clamped(selected, len) == 0,
{
}

/// A window shows as many items as it has room for, or all of them, and the selected one stands in the
/// middle where there are enough on both sides.
pub proof fn windows_are_filled(selected: int, len: int, room: int)
    requires
        0 <= selected < len,
        0 < room,
    ensures
        window_end(selected, len, room) - window_start(selected, len, room) == if len < room {
            len
        } else {
            room
        },
        room / 2 <= selected && selected - room / 2 + room <= len ==> window_start(selected, len, room)
            == selected - room / 2,
{
}

/// The lines of a text without carriage returns are what stands between its line ends; one at the very
/// end starts no line.
pub proof fn lines_stand_between_line_ends(text: Seq<char>)
    requires
        text.len() > 0,
        text.last() != '\n',
        !text.contains('\r'),
    ensures
        join(lines(text), seq!['\n']) == text,
        lines(text.push('\n')) == lines(text),
        lines(Seq::empty()).len() == 0,
{
    let pieces = split(text, '\n');
    split_pieces_join(text, '\n');
    lemma_no_return(text);
    if pieces.last().len() == 0 {
        assert(pieces.len() > 1) by {
            if pieces.len() == 1 {
                assert(join(pieces, seq!['\n']) == pieces[0]);
            }
        }
        let whole = join(pieces, seq!['\n']);
        assert(whole == join(pieces.drop_last(), seq!['\n']) + seq!['\n'] + pieces.last());
        assert(whole.last() == '\n');
    }
    assert(pieces.drop_last().map_values(|line: Seq<char>| crate::lines::without_return(line))
        =~= pieces.drop_last());
    assert(lines(text) =~= pieces);
    let longer = text.push('\n');
    assert(longer =~= text + seq!['\n'] + Seq::empty());
    lemma_split_append(text);
    let all = split(longer, '\n');
    assert(all =~= pieces.push(Seq::empty()));
    assert(all.drop_last() =~= pieces);
    assert(pieces.map_values(|line: Seq<char>| crate::lines::without_return(line)) =~= pieces);
    assert(lines(longer) =~= pieces);
    assert(split(Seq::<char>::empty(), '\n') =~= seq![Seq::<char>::empty()]);
}

proof fn lemma_no_return(text: Seq<char>)
    requires
        !text.contains('\r'),
    ensures
        forall|i: int|
            0 <= i < split(text, '\n').len() ==> crate::lines::without_return(
                #[trigger] split(text, '\n')[i],
            ) == split(text, '\n')[i],
    decreases text.len(),
{
    let n = crate::text::index_of_char(text, '\n') as int;
    lemma_index_of_char_bounds(text, '\n');
    if n < text.len() {
        let rest = text.skip(n + 1);
        assert(!rest.contains('\r')) by {
            if rest.contains('\r') {
                let k = choose|k: int| 0 <= k < rest.len() && rest[k] == '\r';
                assert(text[n + 1 + k] == '\r');
            }
        }
        lemma_no_return(rest);
        let head = text.take(n);
        if head.len() > 0 {
            assert(text.contains(head.last())) by {
                assert(text[n - 1] == head.last());
            }
        }
        let pieces = split(text, '\n');
        assert(pieces == seq![head] + split(rest, '\n'));
        assert forall|i: int| 0 <= i < pieces.len() implies crate::lines::without_return(
            #[trigger] pieces[i],
        ) == pieces[i] by {
            if i > 0 {
                assert(pieces[i] == split(rest, '\n')[i - 1]);
            }
        }
    } else if text.len() > 0 {
        assert(text.contains(text.last())) by {
            assert(text[text.len() - 1] == text.last());
        }
    }
}

proof fn lemma_split_append(text: Seq<char>)
    ensures
        split(text.push('\n'), '\n') == split(text, '\n').push(Seq::empty()),
    decreases text.len(),
{
    let longer = text.push('\n');
    lemma_index_of_char_bounds(text, '\n');
    lemma_index_of_char_bounds(longer, '\n');
    let n = crate::text::index_of_char(text, '\n') as int;
    let m = crate::text::index_of_char(longer, '\n') as int;
    assert(longer[text.len() as int] == '\n');
    if n < text.len() {
        assert(longer[n] == '\n');
        assert(m == n) by {
            if m < n {
                assert(longer[m] == text[m]);
            }
        }
        lemma_split_append(text.skip(n + 1));
        assert(longer.skip(n + 1) =~= text.skip(n + 1).push('\n'));
        assert(longer.take(n) =~= text.take(n));
        assert(split(longer, '\n') =~= split(text, '\n').push(Seq::empty()));
    } else {
        assert(m == text.len()) by {
            if m < text.len() {
                assert(longer[m] == text[m]);
            }
        }
        assert(longer.take(m) =~= text);
        assert(longer.skip(m + 1) =~= Seq::empty());
        assert(split(Seq::<char>::empty(), '\n') =~= seq![Seq::<char>::empty()]);
        assert(split(longer, '\n') =~= seq![text] + seq![Seq::<char>::empty()]);
        assert(split(longer, '\n') =~= split(text, '\n').push(Seq::empty()));
    }
}

/// Cleaned output holds no carriage returns, and output without them stays as it is.
pub proof fn carriage_returns_become_line_ends(s: Seq<char>)
    ensures
        !clean_newlines(s).contains('\r'),
        !s.contains('\r') ==> clean_newlines(s) == s,
    decreases s.len(),
{
    if s.len() > 0 {
        let (head, rest) = if s.len() > 1 && s[0] == '\r' && s[1] == '\n' {
            ('\n', s.skip(2))
        } else if s[0] == '\r' {
            ('\n', s.skip(1))
        } else {
            (s[0], s.skip(1))
        };
        carriage_returns_become_line_ends(rest);
        let clean = clean_newlines(s);
        assert(clean == seq![head] + clean_newlines(rest));
        if clean.contains('\r') {
            let k = choose|k: int| 0 <= k < clean.len() && clean[k] == '\r';
            assert(clean_newlines(rest)[k - 1] == '\r');
        }
        if !s.contains('\r') {
            assert(s.contains(s[0]));
            assert(!rest.contains('\r')) by {
                if rest.contains('\r') {
                    let k = choose|k: int| 0 <= k < rest.len() && rest[k] == '\r';
                    assert(s[k + 1] == '\r');
                }
            }
            assert(seq![s[0]] + s.skip(1) =~= s);
        }
    }
}

/// Output that comes later goes on where the last line stopped.
pub proof fn later_output_goes_on_with_the_last_line(
    before: Seq<Seq<char>>,
    last: Seq<char>,
    more: Seq<Seq<char>>,
)
    requires
        more.len() > 0,
    ensures
        continued(before.push(last), more) == before + seq![last + more[0]] + more.skip(1),
        continued(Seq::empty(), more) == more,
{
    assert(before.push(last).drop_last() =~= before);
    assert(before.push(last + more[0]) + more.skip(1) =~= before + seq![last + more[0]] + more.skip(
        1,
    ));
}

/// A path that has been resolved is looked up under its name; any other stands for itself.
pub proof fn resolved_paths_are_looked_up(
    entries: Seq<(String, String)>,
    i: int,
    path: Seq<char>,
)
    requires
        0 <= i < entries.len(),
        forall|j: int| 0 <= j < i ==> (#[trigger] entries[j]).0@ != entries[i].0@,
    ensures
        CanonicalPaths::lookup(entries, entries[i].0@) == entries[i].1@,
        (forall|j: int| 0 <= j < entries.len() ==> (#[trigger] entries[j]).0@ != path)
            ==> CanonicalPaths::lookup(entries, path) == path,
    decreases entries.len(),
{
    let rest = entries.skip(1);
    if i > 0 {
        assert(entries[0].0@ != entries[i].0@);
        assert(rest[i - 1] == entries[i]);
        assert forall|j: int| 0 <= j < i - 1 implies (#[trigger] rest[j]).0@ != rest[i - 1].0@ by {
            assert(entries[j + 1].0@ != entries[i].0@);
        }
        resolved_paths_are_looked_up(rest, i - 1, path);
    }
    lemma_not_resolved(entries, path);
}

proof fn lemma_not_resolved(entries: Seq<(String, String)>, path: Seq<char>)
    ensures
        (forall|j: int| 0 <= j < entries.len() ==> (#[trigger] entries[j]).0@ != path)
            ==> CanonicalPaths::lookup(entries, path) == path,
    decreases entries.len(),
{
    if entries.len() > 0 && (forall|j: int|
        0 <= j < entries.len() ==> (#[trigger] entries[j]).0@ != path) {
        let rest = entries.skip(1);
        assert(entries[0].0@ != path);
        assert forall|j: int| 0 <= j < rest.len() implies (#[trigger] rest[j]).0@ != path by {
            assert(entries[j + 1].0@ != path);
        }
        lemma_not_resolved(rest, path);
    }
}

/// The name that a session is renamed from is its own; a session that is not there has none.
pub proof fn names_are_those_of_the_session(sessions: Seq<SessionInfo>, i: int)
    requires
        0 <= i < sessions.len(),
        forall|j: int| 0 <= j < i ==> (#[trigger] sessions[j]).path@ != sessions[i].path@,
    ensures
        sessions[i].name matches Some(name) ==> name_at(sessions, sessions[i].path@) == name@,
        sessions[i].name is None ==> name_at(sessions, sessions[i].path@).len() == 0,
    decreases sessions.len(),
{
    if i > 0 {
        let rest = sessions.skip(1);
        assert(sessions[0].path@ != sessions[i].path@);
        assert(rest[i - 1] == sessions[i]);
        assert forall|j: int| 0 <= j < i - 1 implies (#[trigger] rest[j]).path@ != rest[i - 1].path@ by {
            assert(sessions[j + 1].path@ != sessions[i].path@);
        }
        names_are_those_of_the_session(rest, i - 1);
    }
}

/// The first line of a text ends before its first line end.
pub proof fn first_lines_end_before_the_line_end(line: Seq<char>, rest: Seq<char>)
    requires
        !line.contains('\n'),
        line.len() == 0 || line.last() != '\r',
    ensures
        first_line(line + seq!['\n'] + rest) == line,
        first_line(line + seq!['\r', '\n'] + rest) == line,
        first_line(line) == line,
{
    let a = line + seq!['\n'] + rest;
    let b = line + seq!['\r', '\n'] + rest;
    lemma_index_of_char_bounds(a, '\n');
    lemma_index_of_char_bounds(b, '\n');
    lemma_index_of_char_bounds(line, '\n');
    let n = line.len() as int;
    assert(a[n] == '\n');
    assert(b[n] == '\r');
    assert(b[n + 1] == '\n');
    let i = crate::text::index_of_char(a, '\n') as int;
    let j = crate::text::index_of_char(b, '\n') as int;
    let k = crate::text::index_of_char(line, '\n') as int;
    if i < n {
        assert(a[i] == line[i]);
        assert(line.contains('\n'));
    }
    if j < n {
        assert(b[j] == line[j]);
        assert(line.contains('\n'));
    }
    if k < n {
        assert(line.contains('\n'));
    }
    assert(i == n);
    assert(j == n + 1);
    assert(a.take(n) =~= line);
    assert(b.take(n + 1) =~= line.push('\r'));
    assert(line.push('\r').drop_last() =~= line);
    assert(line.take(n) =~= line);
}

/// Moving to the trash complains with what it printed, if anything, or with why it did not start.
pub proof fn trash_complains_with_what_it_printed(outcome: TrashOutcome)
    ensures
        outcome matches TrashOutcome::NotStarted(message) ==> trash_complaint(outcome) == Some(
            message@,
        ),
        outcome is Ran ==> trash_complaint(outcome) is Some == (trim(outcome->stderr@).len() > 0),
        outcome is Ran && trash_complaint(outcome) is Some ==> trash_complaint(outcome) == Some(
            first_line(trim(outcome->stderr@)),
        ),
{
}

proof fn lemma_last_with_id(rows: Seq<RowView>, id: Seq<char>, n: nat)
    requires
        n <= rows.len() <= usize::MAX,
    ensures
        match last_with_id(rows, id, n) {
            Some(k) => k < n && rows[k as int].entry.id@ == id && forall|j: int|
                k < j < n ==> (#[trigger] rows[j]).entry.id@ != id,
            None => forall|j: int| 0 <= j < n ==> (#[trigger] rows[j]).entry.id@ != id,
        },
    decreases n,
{
    if n > 0 && rows[n - 1].entry.id@ != id {
        lemma_last_with_id(rows, id, (n - 1) as nat);
    }
}

/// An entry is found by its id, the last one of several with the same.
pub proof fn entries_are_found_by_their_id(rows: Seq<RowView>, k: int)
    requires
        0 <= k < rows.len() <= usize::MAX,
        forall|j: int| k < j < rows.len() ==> (#[trigger] rows[j]).entry.id@ != rows[k].entry.id@,
    ensures
        last_with_id(rows, rows[k].entry.id@, rows.len()) == Some(k as usize),
{
    lemma_last_with_id(rows, rows[k].entry.id@, rows.len());
    if let Some(i) = last_with_id(rows, rows[k].entry.id@, rows.len()) {
        if i < k {
            assert(rows[k].entry.id@ != rows[k].entry.id@);
        }
    }
}

/// The keys of an action are those that it is bound to.
pub proof fn actions_have_the_keys_they_are_bound_to(
    bindings: Seq<BoundKeys>,
    i: int,
    id: Seq<char>,
)
    requires
        0 <= i < bindings.len(),
        forall|j: int| 0 <= j < i ==> (#[trigger] bindings[j]).id@ != bindings[i].id@,
    ensures
        KeyTable::keys_from(bindings, bindings[i].id@) == texts(bindings[i].keys@),
        KeyTable::keys_from(Seq::empty(), id).len() == 0,
    decreases bindings.len(),
{
    if i > 0 {
        let rest = bindings.skip(1);
        assert(bindings[0].id@ != bindings[i].id@);
        assert(rest[i - 1] == bindings[i]);
        assert forall|j: int| 0 <= j < i - 1 implies (#[trigger] rest[j]).id@ != rest[i - 1].id@ by {
            assert(bindings[j + 1].id@ != bindings[i].id@);
        }
        actions_have_the_keys_they_are_bound_to(rest, i - 1, id);
    }
}

/// The dark and the light theme are sent as they are, and the dark one where none is chosen.
pub proof fn built_in_themes_are_sent_as_they_are(
    themes: Seq<ThemeCatalogItem>,
    theme_texts: ThemeTexts,
)
    requires
        is_json(theme_texts.dark@),
        is_json(theme_texts.light@),
    ensures
        current_theme(themes, None, theme_texts) is Some,
        current_theme(themes, None, theme_texts)->0.name == "dark"@,
        current_theme(themes, None, theme_texts)->0.json == theme_texts.dark@,
        current_theme(themes, Some("dark"@), theme_texts)->0.json == theme_texts.dark@,
        current_theme(themes, Some("light"@), theme_texts)->0.name == "light"@,
        current_theme(themes, Some("light"@), theme_texts)->0.json == theme_texts.light@,
{
    reveal_strlit("dark");
    reveal_strlit("light");
    assert("dark"@.len() == 4 && "light"@.len() == 5);
}

/// A tool is shown with its arguments, unless it has none.
pub proof fn arguments_are_shown_if_there_are_any(
    keys: Option<Seq<Seq<char>>>,
    compact: Seq<char>,
)
    ensures
        keys is None || keys->0.len() > 0 ==> args_text(keys, compact) == " "@ + compact,
        keys is Some && keys->0.len() == 0 ==> args_text(keys, compact).len() == 0,
{
}

/// While sessions are loaded the header tells how many of how many are.
pub proof fn headers_tell_the_progress(header: SessionSelectorHeader, loaded: usize, total: usize)
    requires
        header.loading,
        header.load_progress == Some((loaded, total)),
    ensures
        header.scope_spans().last().text == "Loading "@ + (decimal(loaded as nat) + "/"@ + decimal(
            total as nat,
        )),
{
}

/// Each view of the tree but the default one is named below it, each otherwise.
pub proof fn views_are_named_below_the_tree(a: FilterMode, b: FilterMode, times: bool)
    ensures
        status_labels(a, false) == status_labels(b, false) <==> a == b,
        status_labels(FilterMode::Default, false).len() == 0,
        status_labels(a, true) == status_labels(a, false) + " [+label time]"@,
{
    reveal_strlit(" [no-tools]");
    reveal_strlit(" [user]");
    reveal_strlit(" [labeled]");
    reveal_strlit(" [all]");
    assert(" [no-tools]"@.len() == 11 && " [user]"@.len() == 7 && " [labeled]"@.len() == 10
        && " [all]"@.len() == 6);
}

/// The text of a message is that of its text blocks, one after the other.
pub proof fn blocks_make_up_the_text(blocks: Seq<Block>, text: String)
    ensures
        blocks_text(blocks.push(Block::Text(text))) == blocks_text(blocks) + text@,
        content_text(Content::Text(text)) == text@,
        blocks_text(Seq::empty()).len() == 0,
{
    assert(blocks.push(Block::Text(text)).drop_last() =~= blocks);
}

/// A flattened text stands on one line.
pub proof fn flattened_texts_stand_on_one_line(text: Seq<char>)
    ensures
        !flattened(text).contains('\n'),
        !flattened(text).contains('\t'),
{
    let flat = text.map_values(
        |c: char|
            if c == '\n' || c == '\t' {
                ' '
            } else {
                c
            },
    );
    crate::text_laws::trimming_takes_the_space_around(flat);
    let (i, j) = choose|i: int, j: int|
        0 <= i <= j <= flat.len() && trim(flat) == #[trigger] flat.subrange(i, j) && is_blank(
            flat.take(i),
        ) && is_blank(flat.skip(j));
    let shown = flattened(text);
    assert(shown == trim(flat));
    assert forall|k: int| 0 <= k < shown.len() implies shown[k] != '\n' && shown[k] != '\t' by {
        assert(shown[k] == flat[i + k]);
    }
}

/// Branches are folded and unfolded with the same modifiers, to the left and to the right; a Mac has the
/// alt key first.
pub proof fn folding_keys_point_both_ways(macos: bool)
    ensures
        fold_actions(macos)[0].default_keys.len() == 2,
        fold_actions(macos)[1].default_keys.len() == 2,
        fold_actions(true)[0].default_keys[0] == fold_actions(false)[0].default_keys[1],
        fold_actions(true)[0].default_keys[1] == fold_actions(false)[0].default_keys[0],
        fold_actions(true)[0].default_keys[0] == "alt+left"@,
        fold_actions(true)[1].default_keys[0] == "alt+right"@,
        fold_actions(macos)[0].id == "app.tree.foldOrUp"@,
        fold_actions(macos)[1].id == "app.tree.unfoldOrDown"@,
{
}

/// Cycling backward is cycling forward with shift, for the models and for the views of the tree.
pub proof fn backward_is_forward_with_shift(macos: bool)
    ensures
        ({
            let actions = app_actions(macos);
            &&& actions[5].id == "app.model.cycleForward"@
            &&& actions[6].id == "app.model.cycleBackward"@
            &&& actions[6].default_keys[0] == "shift+"@ + actions[5].default_keys[0]
            &&& actions[40].id == "app.tree.filter.cycleForward"@
            &&& actions[41].id == "app.tree.filter.cycleBackward"@
            &&& actions[41].default_keys[0] == "shift+"@ + actions[40].default_keys[0]
        }),
{
    reveal_strlit("shift+");
    reveal_strlit("ctrl+p");
    reveal_strlit("ctrl+o");
    reveal_strlit("shift+ctrl+p");
    reveal_strlit("shift+ctrl+o");
    assert("shift+"@ + "ctrl+p"@ =~= "shift+ctrl+p"@);
    assert("shift+"@ + "ctrl+o"@ =~= "shift+ctrl+o"@);
}

} // verus!
