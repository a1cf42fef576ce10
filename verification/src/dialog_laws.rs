//! What dialogs answer and blocks show: what is submitted, how long a countdown runs, and what becomes
//! visible when a block is expanded.

use crate::columns::{clusters, cut_columns, LinePiece};
use crate::countdown_timer::{remaining_ms, seconds_up, DialogCountdown};
use crate::diff::diff_color;
use crate::extension_dialogs::{
    edited_text, editor_command, DialogActionView, ExtensionEditor, ExtensionInput,
};
use crate::fitting::{fitted_line, fitted_text, fitted_width, is_cut};
use crate::keybinding_hints::KeyMatches;
use crate::message_blocks::{
    BranchSummaryMessageComponent, CompactionSummaryMessageComponent,
    SkillInvocationMessageComponent,
};
use crate::session_header::{left_room, name_label, sort_label, title_line, SessionSelectorHeader};
use crate::session_selector_search::{NameFilter, SortMode};
use crate::status_indicator::spinner;
use crate::style::{SpanView, ThemeColor};
use crate::text::{is_whitespace, join, trim};
use crate::tool_execution::{result_texts, ResultPart, ToolExecutionComponent, ToolState};
use crate::transcript::PieceView;
use vstd::prelude::*;
use vstd::string::*;

verus! {

broadcast use vstd::string::group_string_axioms;

/// An input submits what was typed into it; cancelling gives up, and any other key is typed.
pub proof fn inputs_submit_what_was_typed(input: ExtensionInput, keys: KeyMatches, data: Seq<char>)
    requires
        data != "\n"@,
    ensures
        keys.has("tui.select.confirm"@) ==> input.answered(keys, data) == DialogActionView::Submit(
            input.value@,
        ),
        !keys.has("tui.select.confirm"@) && keys.has("tui.select.cancel"@) ==> input.answered(
            keys,
            data,
        ) == DialogActionView::Cancel,
        !keys.has("tui.select.confirm"@) && !keys.has("tui.select.cancel"@) ==> input.answered(
            keys,
            data,
        ) == DialogActionView::Edit,
        input.answered(keys, "\n"@) == DialogActionView::Submit(input.value@),
{
}

/// An editor submits its text without the space around it; its other keys give up and open the outside
/// editor, and the rest is typed.
pub proof fn editors_submit_their_text(editor: ExtensionEditor, keys: KeyMatches, text: Seq<char>)
    ensures
        ({
            let cancel = keys.has("tui.select.cancel"@);
            let outside = keys.has("app.editor.external"@);
            let confirm = keys.has("tui.select.confirm"@);
            let answer = editor.answered(keys, text);
            &&& (answer == DialogActionView::Cancel) == cancel
            &&& (answer == DialogActionView::OpenExternalEditor) == (outside && !cancel)
            &&& answer is Submit == (confirm && !cancel && !outside)
            &&& answer is Submit ==> answer == DialogActionView::Submit(trim(text))
            &&& !cancel && !outside && !confirm ==> answer == DialogActionView::Edit
        }),
{
}

/// The command that is configured for the outside editor is taken before those of the environment.
pub proof fn configured_editors_come_first(
    configured: Option<Seq<char>>,
    visual: Option<Seq<char>>,
    editor: Option<Seq<char>>,
    windows: bool,
)
    ensures
        ({
            let command = editor_command(configured, visual, editor, windows);
            &&& configured is Some ==> Some(command) == configured
            &&& configured is None && visual is Some ==> Some(command) == visual
            &&& configured is None && visual is None && editor is Some ==> Some(command) == editor
            &&& configured is None && visual is None && editor is None ==> command == if windows {
                "notepad"@
            } else {
                "nano"@
            }
        }),
{
}

/// Of the line ends that an outside editor leaves at the end of a text, one is taken away; a text
/// without one stays.
pub proof fn one_line_end_is_taken_away(text: Seq<char>)
    ensures
        edited_text(text.push('\n')) == text,
        text.len() == 0 || text.last() != '\n' ==> edited_text(text) == text,
{
    assert(text.push('\n').drop_last() =~= text);
}

/// A countdown shows the seconds that are left, a started one as a whole.
pub proof fn countdowns_show_started_seconds(deadline_ms: int, now_ms: int)
    ensures
        ({
            let shown = seconds_up(remaining_ms(deadline_ms, now_ms));
            &&& now_ms >= deadline_ms ==> shown == 0
            &&& now_ms < deadline_ms ==> (shown - 1) * 1000 < deadline_ms - now_ms <= shown * 1000
        }),
{
}

/// A dialog is cancelled at its deadline, not before it, and once only.
pub proof fn dialogs_expire_once(countdown: DialogCountdown, now_ms: u64, later_ms: u64)
    requires
        countdown.deadline_ms is Some,
        !countdown.expired,
    ensures
        countdown.ticked(now_ms).1 == (now_ms >= countdown.deadline_ms->0),
        !countdown.ticked(now_ms).1 ==> countdown.ticked(now_ms).0 == countdown,
        countdown.ticked(now_ms).1 ==> countdown.ticked(now_ms).0.expired
            && !countdown.ticked(now_ms).0.ticked(later_ms).1,
{
}

/// The spinner turns with every frame and is back where it was after ten.
pub proof fn spinners_turn(frame: nat)
    ensures
        spinner(frame) != spinner(frame + 1),
        spinner(frame) == spinner(frame + 10),
        forall|k: nat| 0 < k < 10 ==> spinner(frame) != #[trigger] spinner(frame + k),
{
    reveal_strlit("⠋");
    reveal_strlit("⠙");
    reveal_strlit("⠹");
    reveal_strlit("⠸");
    reveal_strlit("⠼");
    reveal_strlit("⠴");
    reveal_strlit("⠦");
    reveal_strlit("⠧");
    reveal_strlit("⠇");
    reveal_strlit("⠏");
    assert("⠋"@[0] == '⠋' && "⠙"@[0] == '⠙' && "⠹"@[0] == '⠹' && "⠸"@[0] == '⠸' && "⠼"@[0]
        == '⠼' && "⠴"@[0] == '⠴' && "⠦"@[0] == '⠦' && "⠧"@[0] == '⠧' && "⠇"@[0] == '⠇'
        && "⠏"@[0] == '⠏');
    assert forall|k: nat| 0 < k < 10 implies spinner(frame) != #[trigger] spinner(frame + k) by {}
}

/// A text that fits its room is shown whole; a longer one is cut and ends with the ellipsis, and takes
/// no more than the room.
pub proof fn texts_stay_in_their_room(
    text: Seq<char>,
    text_width: int,
    cut: Seq<char>,
    cut_width: int,
    room: int,
    ellipsis: Seq<char>,
)
    requires
        0 <= text_width,
        0 <= cut_width,
        0 < room <= usize::MAX,
        is_cut(text_width, cut_width, room, ellipsis.len() as int),
    ensures
        fitted_width(text_width, cut_width, room, ellipsis.len() as int) <= room,
        text_width <= room ==> fitted_text(text, text_width, cut, room, ellipsis) == text
            && fitted_width(text_width, cut_width, room, ellipsis.len() as int) == text_width,
        text_width > room && ellipsis.len() < room ==> fitted_text(
            text,
            text_width,
            cut,
            room,
            ellipsis,
        ) == cut + ellipsis && fitted_width(text_width, cut_width, room, ellipsis.len() as int)
            == cut_width + ellipsis.len(),
        fitted_text(text, text_width, cut, 0, ellipsis).len() == 0,
{
}

/// A line is cut as a text is, with the ellipsis in its own style.
pub proof fn lines_stay_in_their_room(
    line: Seq<SpanView>,
    line_width: int,
    cut: Seq<SpanView>,
    room: int,
    ellipsis: SpanView,
)
    requires
        0 < room,
    ensures
        line_width <= room ==> fitted_line(line, line_width, cut, room, ellipsis) == line,
        line_width > room && ellipsis.text.len() < room ==> fitted_line(
            line,
            line_width,
            cut,
            room,
            ellipsis,
        ) == cut + seq![ellipsis],
        line_width > room ==> fitted_line(line, line_width, cut, room, ellipsis).last().color
            == ellipsis.color,
{
}

/// The title of the session chooser stands at the left and what is listed at the right end of the line.
pub proof fn titles_fill_the_line(
    left: Seq<char>,
    left_width: int,
    right: Seq<SpanView>,
    right_width: int,
    width: int,
)
    requires
        0 <= left_width,
        0 <= right_width,
        left_width + right_width <= width,
    ensures
        ({
            let line = title_line(left, left_width, right, right_width, width);
            &&& line[0].text == left
            &&& left_width + line[1].text.len() + right_width == width
            &&& line.skip(2) == right
        }),
        left_room(width, right_width) + right_width <= width,
{
    let line = title_line(left, left_width, right, right_width, width);
    assert(line.skip(2) =~= right);
}

/// The text that the pieces of a line make up.
pub open spec fn line_chars(pieces: Seq<LinePiece>) -> Seq<char>
    decreases pieces.len(),
{
    if pieces.len() == 0 {
        Seq::empty()
    } else {
        match pieces[0] {
            LinePiece::Code(code) => code@ + line_chars(pieces.skip(1)),
            LinePiece::Cluster { text, .. } => text@ + line_chars(pieces.skip(1)),
        }
    }
}

proof fn lemma_plain_columns(
    pieces: Seq<LinePiece>,
    chars: Seq<char>,
    i: int,
    start: int,
    end: int,
    strict: bool,
)
    requires
        0 <= i <= pieces.len(),
        0 <= start <= end <= pieces.len(),
        chars.len() == pieces.len(),
        forall|k: int|
            0 <= k < pieces.len() ==> (#[trigger] pieces[k] matches LinePiece::Cluster { text, width }
                && text@ == seq![chars[k]] && width == 1),
    ensures
        i <= start ==> cut_columns(pieces, i, i, Seq::empty(), start, end, strict) == chars.subrange(
            start,
            end,
        ),
        start <= i <= end ==> cut_columns(pieces, i, i, Seq::empty(), start, end, strict)
            == chars.subrange(i, end),
    decreases pieces.len() - i,
{
    if i >= end {
        assert(i <= start ==> start == end);
        assert(chars.subrange(end, end) =~= Seq::empty());
    } else {
        lemma_plain_columns(pieces, chars, i + 1, start, end, strict);
        assert(pieces[i] is Cluster);
        let rest = cut_columns(pieces, i + 1, i + 1, Seq::empty(), start, end, strict);
        assert(Seq::<char>::empty() + seq![chars[i]] + rest =~= seq![chars[i]] + rest);
        if start <= i {
            assert(seq![chars[i]] + chars.subrange(i + 1, end) =~= chars.subrange(i, end));
        }
    }
}

/// Of a line of one-column characters, the characters in the columns that are asked for are kept, and no
/// others.
pub proof fn columns_are_cut_where_they_stand(
    pieces: Seq<LinePiece>,
    chars: Seq<char>,
    start: int,
    end: int,
    strict: bool,
)
    requires
        0 <= start <= end <= pieces.len(),
        chars.len() == pieces.len(),
        forall|k: int|
            0 <= k < pieces.len() ==> (#[trigger] pieces[k] matches LinePiece::Cluster { text, width }
                && text@ == seq![chars[k]] && width == 1),
    ensures
        cut_columns(pieces, 0, 0, Seq::empty(), start, end, strict) == chars.subrange(start, end),
{
    lemma_plain_columns(pieces, chars, 0, start, end, strict);
}

/// Clusters hold all characters of a text, in its order; each starts with one that takes up room, or
/// with the first.
pub proof fn clusters_hold_the_text(chars: Seq<char>, widths: Seq<usize>)
    requires
        widths.len() == chars.len(),
    ensures
        clusters(chars, widths).flatten() == chars,
        chars.len() > 0 ==> clusters(chars, widths).len() > 0,
    decreases chars.len(),
{
    if chars.len() > 0 {
        let before = clusters(chars.drop_last(), widths);
        lemma_clusters_len(chars.drop_last(), widths);
        lemma_clusters_flat(chars.drop_last(), widths);
        lemma_clusters_flat(chars, widths);
        lemma_clusters_len(chars, widths);
    } else {
        lemma_clusters_flat(chars, widths);
    }
}

proof fn lemma_clusters_len(chars: Seq<char>, widths: Seq<usize>)
    ensures
        chars.len() > 0 ==> clusters(chars, widths).len() > 0,
    decreases chars.len(),
{
    if chars.len() > 0 {
        lemma_clusters_len(chars.drop_last(), widths);
    }
}

proof fn lemma_clusters_flat(chars: Seq<char>, widths: Seq<usize>)
    ensures
        clusters(chars, widths).flatten() == chars,
    decreases chars.len(),
{
    if chars.len() == 0 {
        assert(clusters(chars, widths).flatten() =~= chars);
    } else {
        let before = clusters(chars.drop_last(), widths);
        lemma_clusters_flat(chars.drop_last(), widths);
        lemma_clusters_len(chars.drop_last(), widths);
        before.lemma_flatten_and_flatten_alt_are_equivalent();
        let after = clusters(chars, widths);
        after.lemma_flatten_and_flatten_alt_are_equivalent();
        if chars.len() == 1 || widths[chars.len() - 1] > 0 {
            assert(after.drop_last() =~= before);
            assert(before.flatten() + seq![chars.last()] =~= chars);
        } else {
            let tail = before.last().push(chars.last());
            assert(after.drop_last() =~= before.drop_last());
            assert(after.last() == tail);
            before.drop_last().lemma_flatten_and_flatten_alt_are_equivalent();
            assert(before.flatten_alt() == before.drop_last().flatten_alt() + before.last());
            assert(before.drop_last().flatten_alt() + tail =~= before.flatten_alt().push(
                chars.last(),
            ));
            assert(chars.drop_last().push(chars.last()) =~= chars);
        }
    }
}

/// A numbered line of a diff is shown as added or removed by the sign that it starts with; all others are
/// shown as context. Every line is shown.
pub proof fn diffs_tell_added_from_removed(line: Seq<char>, k: int)
    requires
        1 <= k < line.len(),
        is_whitespace(line[k]),
    ensures
        (diff_color(line) == ThemeColor::ToolDiffAdded) == (line[0] == '+'),
        (diff_color(line) == ThemeColor::ToolDiffRemoved) == (line[0] == '-'),
        line[0] != '+' && line[0] != '-' ==> diff_color(line) == ThemeColor::ToolDiffContext,
{
}

proof fn lemma_result_texts(parts: Seq<ResultPart>, i: int)
    requires
        0 <= i < parts.len(),
        parts[i] is Text,
    ensures
        result_texts(parts).contains(parts[i]->Text_0@),
    decreases parts.len(),
{
    let before = result_texts(parts.drop_last());
    if i < parts.len() - 1 {
        lemma_result_texts(parts.drop_last(), i);
        let k = choose|k: int| 0 <= k < before.len() && before[k] == parts[i]->Text_0@;
        assert(result_texts(parts)[k] == parts[i]->Text_0@);
    } else {
        assert(result_texts(parts).last() == parts[i]->Text_0@);
    }
}

proof fn lemma_result_texts_from(parts: Seq<ResultPart>, t: int)
    requires
        0 <= t < result_texts(parts).len(),
    ensures
        exists|i: int|
            0 <= i < parts.len() && (#[trigger] parts[i]) is Text && parts[i]->Text_0@
                == result_texts(parts)[t],
    decreases parts.len(),
{
    let before = result_texts(parts.drop_last());
    if t < before.len() {
        lemma_result_texts_from(parts.drop_last(), t);
        let i = choose|i: int|
            0 <= i < parts.len() - 1 && (#[trigger] parts.drop_last()[i]) is Text
                && parts.drop_last()[i]->Text_0@ == before[t];
        assert(parts[i] == parts.drop_last()[i]);
    } else {
        assert(parts[parts.len() - 1] is Text);
    }
}

/// What a tool gave back as text is its output, nothing left out and nothing else; before it has run
/// there is none.
pub proof fn outputs_hold_the_texts(tool: ToolExecutionComponent, i: int, t: int)
    ensures
        tool.result is None ==> tool.output_text().len() == 0,
        tool.result matches Some(parts) ==> {
            &&& tool.output_text() == join(result_texts(parts@), "\n"@)
            &&& 0 <= i < parts@.len() && parts@[i] is Text ==> result_texts(parts@).contains(
                parts@[i]->Text_0@,
            )
            &&& 0 <= t < result_texts(parts@).len() ==> exists|j: int|
                0 <= j < parts@.len() && (#[trigger] parts@[j]) is Text && parts@[j]->Text_0@
                    == result_texts(parts@)[t]
        },
{
    if let Some(parts) = tool.result {
        if 0 <= i < parts@.len() && parts@[i] is Text {
            lemma_result_texts(parts@, i);
        }
        if 0 <= t < result_texts(parts@).len() {
            lemma_result_texts_from(parts@, t);
        }
    }
}

/// Each state of a tool has a background of its own.
pub proof fn backgrounds_tell_the_state(a: ToolExecutionComponent, b: ToolExecutionComponent)
    ensures
        a.background() == b.background() <==> a.state == b.state,
        a.state == ToolState::Error ==> a.background() == crate::style::ThemeBg::ToolErrorBg,
        a.state == ToolState::Success ==> a.background() == crate::style::ThemeBg::ToolSuccessBg,
{
}

/// Only a collapsed tool leaves output out, and it shows the end of it: no more than twenty lines.
pub proof fn expanded_tools_show_everything(
    tool: ToolExecutionComponent,
    wrapped: Seq<Seq<char>>,
)
    ensures
        tool.expanded ==> !tool.is_cut(),
        !tool.expanded && wrapped.len() <= 20 ==> tool.shown_output(wrapped)[0].text == "\n"@
            + join(wrapped, "\n"@),
        !tool.expanded && wrapped.len() > 20 ==> tool.shown_output(wrapped)[0].text == "\n"@
            + join(wrapped.skip(wrapped.len() - 20), "\n"@),
        !tool.show_images ==> tool.images().len() == 0,
{
    assert(wrapped.skip(0) =~= wrapped);
}

/// Whether a block shows a text at the end of a piece of Markdown.
pub open spec fn tells(block: Seq<PieceView>, text: Seq<char>) -> bool {
    exists|k: int|
        0 <= k < block.len() && (#[trigger] block[k]) is Markdown && text.is_suffix_of(
            block[k]->Markdown_text,
        )
}

/// An expanded summary tells what it sums up; a collapsed one holds it back.
pub proof fn expanding_shows_the_summary(
    branch: BranchSummaryMessageComponent,
    compaction: CompactionSummaryMessageComponent,
    skill: SkillInvocationMessageComponent,
)
    ensures
        branch.expanded ==> tells(branch.block(), branch.summary@),
        !branch.expanded ==> forall|k: int|
            0 <= k < branch.block().len() ==> !((#[trigger] branch.block()[k]) is Markdown),
        compaction.expanded ==> tells(compaction.block(), compaction.summary@),
        !compaction.expanded ==> forall|k: int|
            0 <= k < compaction.block().len() ==> !((#[trigger] compaction.block()[k]) is Markdown),
        skill.expanded ==> tells(skill.block(), skill.content@),
        !skill.expanded ==> forall|k: int|
            0 <= k < skill.block().len() ==> !((#[trigger] skill.block()[k]) is Markdown),
{
    if branch.expanded {
        assert(branch.block()[2] is Markdown);
        assert(branch.summary@.is_suffix_of(branch.block()[2]->Markdown_text)) by {
            let head = "**Branch Summary**\n\n"@;
            assert((head + branch.summary@).skip(head.len() as int) =~= branch.summary@);
        }
    }
    if compaction.expanded {
        let head = "**Compacted from "@ + crate::text::decimal(compaction.tokens_before as nat)
            + " tokens**\n\n"@;
        assert(compaction.block()[2] is Markdown);
        assert(compaction.block()[2]->Markdown_text =~= head + compaction.summary@);
    }
    if skill.expanded {
        let head = "**"@ + skill.name@ + "**\n\n"@;
        assert(skill.block()[1] is Markdown);
        assert(skill.block()[1]->Markdown_text =~= head + skill.content@);
    }
}

/// Each order and each filter has a name of its own in the header.
pub proof fn labels_tell_the_choice(a: SortMode, b: SortMode, c: NameFilter, d: NameFilter)
    ensures
        sort_label(a) == sort_label(b) <==> a == b,
        name_label(c) == name_label(d) <==> c == d,
{
    reveal_strlit("Threaded");
    reveal_strlit("Recent");
    reveal_strlit("Fuzzy");
    reveal_strlit("All");
    reveal_strlit("Named");
    assert("Threaded"@.len() == 8 && "Recent"@.len() == 6 && "Fuzzy"@.len() == 5 && "All"@.len()
        == 3 && "Named"@.len() == 5);
}

/// A message in the header is gone at its deadline and stays until then; nothing else changes.
pub proof fn header_messages_expire(header: SessionSelectorHeader, now_ms: u64)
    ensures
        ({
            let after = header.expired(now_ms);
            let is_over = header.status_deadline matches Some(deadline) && now_ms >= deadline;
            &&& is_over ==> after.status_message is None && after.status_deadline is None
            &&& !is_over ==> after == header
            &&& after == (SessionSelectorHeader {
                status_message: after.status_message,
                status_deadline: after.status_deadline,
                ..header
            })
        }),
{
}

} // verus!
