//! What rows and blocks tell: which one is selected, what is on, and how things ended.

use crate::assistant_message::{ending_text, AssistantMessage, StopReason};
use crate::bash_execution::BashView;
use crate::config_selector::{ConfigWriteScope, ResourceList};
use crate::entries::{content_preview, flattened, EntryKind, Message};
use crate::footer::{context_color, counted, stat_parts, token_text, FooterStats};
use crate::model_selector::{ModelScope, ModelSelectorView};
use crate::oauth_selector::{status_spans, OAuthProvider, OAuthSelector};
use crate::resource_settings::ProjectOverrideState;
use crate::resources::ItemView;
use crate::scoped_models_selector::ScopedView;
use crate::session::SessionInfo;
use crate::session_header::SessionSelectorHeader;
use crate::session_rows::{ancestor_lines, tree_prefix};
use crate::session_selector::{SessionList, SessionScope};
use crate::session_tree::{flat_tree, flat_trees, FlatView, SessionTreeNode};
use crate::style::{colored, SpanView, ThemeColor};
use crate::text::join;
use crate::tool_calls::signed_decimal;
use crate::tree_layout::VisualView;
use crate::tree_rows::{entry_spans, gutter_at, has_connector, level_cells};
use crate::tree_selector::TreeList;
use crate::trust_selector::{decision_text, trust_choices, ProjectTrustStoreEntry};
use crate::user_message_selector::UserMessageList;
use vstd::prelude::*;

verus! {

/// Whether a row starts with the mark of the selection.
pub open spec fn is_marked_row(row: Seq<SpanView>) -> bool {
    row.len() > 0 && row[0].text == "→ "@
}

/// Whether one of the spans holds the text and nothing else.
pub open spec fn says(row: Seq<SpanView>, text: Seq<char>) -> bool {
    exists|k: int| 0 <= k < row.len() && (#[trigger] row[k]).text == text
}

proof fn lemma_marks_differ()
    ensures
        "→ "@.len() == 2,
        "→ "@[0] == '→',
        "  "@.len() == 2,
        "  "@[0] == ' ',
        " ✓"@.len() == 2,
        " ✓"@[1] == '✓',
        " ✗"@.len() == 2,
        " ✗"@[1] == '✗',
{
    reveal_strlit("→ ");
    reveal_strlit("  ");
    reveal_strlit(" ✓");
    reveal_strlit(" ✗");
}

/// In the list of models only the selected row is marked; each row names its model, and a check stands
/// at the end of the current one.
pub proof fn model_rows_tell_of_their_models(v: ModelSelectorView, at: int)
    requires
        0 <= at < v.filtered.len(),
    ensures
        ({
            let listed = match v.scope {
                ModelScope::All => v.all,
                ModelScope::Scoped => v.scoped,
            };
            let model = listed[v.filtered[at] as int];
            let is_current = v.current is Some && v.current->0.id == model.id
                && v.current->0.provider == model.provider;
            let row = v.row(at);
            &&& is_marked_row(row) == (at == v.selected)
            &&& row[1].text == model.id
            &&& says(row, "["@ + model.provider + "]"@)
            &&& is_current ==> row.last() == colored(ThemeColor::Success, " ✓"@)
            &&& !is_current ==> row.last().text == "["@ + model.provider + "]"@
        }),
{
    lemma_marks_differ();
    let row = v.row(at);
    assert(row[3].text == "["@ + v.model_at(at).provider + "]"@);
}

/// In the list of models to cycle through only the selected row is marked; each row names its model, and
/// ends with a check or a cross where some models are off.
pub proof fn scoped_rows_tell_what_is_on(v: ScopedView, at: int)
    requires
        0 <= at < v.filtered.len(),
    ensures
        ({
            let model = v.models[v.filtered[at] as int];
            let row = v.row(at);
            &&& is_marked_row(row) == (at == v.selected)
            &&& row[1].text == model.id
            &&& row[2].text == " ["@ + model.provider + "]"@
            &&& v.enabled is None ==> row.len() == 3
            &&& v.enabled matches Some(ids) ==> row.last().text == if ids.contains(model.full_id()) {
                " ✓"@
            } else {
                " ✗"@
            }
        }),
{
    lemma_marks_differ();
}

/// In the list of providers only the selected row is marked, and each row names its provider. A check
/// tells that the provider is configured in the way that the row offers.
pub proof fn provider_rows_tell_of_their_providers(list: OAuthSelector, at: int, provider: OAuthProvider)
    requires
        0 <= at < list.filtered.len(),
    ensures
        is_marked_row(list.row(at)) == (at == list.selected),
        list.row(at)[1].text == list.providers[list.filtered[at] as int].name@,
        provider.configured_credential == Some(provider.auth_type) ==> status_spans(provider)
            == seq![colored(ThemeColor::Success, " ✓ configured"@)],
        provider.configured_credential is Some && provider.configured_credential
            != Some(provider.auth_type) ==> status_spans(provider).last().color
            == Some(ThemeColor::Warning),
        provider.configured_credential is None && provider.auth_status is None
            ==> status_spans(provider) == seq![colored(ThemeColor::Muted, " • unconfigured"@)],
{
    lemma_marks_differ();
}

/// In the list of user messages only the selected row has the cursor, and the rows count up.
pub proof fn message_rows_tell_their_place(list: UserMessageList, i: int)
    requires
        0 <= i < list.messages@.len(),
    ensures
        (list.row(i).cursor.text == "› "@) == (i == list.selected_index),
        list.row(i).message.bold == (i == list.selected_index),
        list.row(i).metadata.text == "  Message "@ + crate::text::decimal((i + 1) as nat) + " of "@
            + crate::text::decimal(list.messages@.len()),
{
    reveal_strlit("› ");
    reveal_strlit("  ");
    assert("› "@[0] == '›' && "  "@[0] == ' ');
}

/// In the global settings the box of a resource is checked where it is on. In a project it shows a plus
/// where the project loads it, a minus where the project unloads it, and otherwise what it inherits.
pub proof fn boxes_tell_what_is_on(list: ResourceList, item: ItemView)
    ensures
        list.write_scope == ConfigWriteScope::Global ==> list.checkbox(item).text == if item.enabled {
            "[x]"@
        } else {
            "[ ]"@
        },
        list.write_scope == ConfigWriteScope::Global ==> list.suffix(item) is None,
        list.write_scope == ConfigWriteScope::Project ==> {
            let said = list.context().override_state(item);
            &&& said == ProjectOverrideState::Load ==> list.checkbox(item).text == "[+]"@
                && list.suffix(item) is Some
            &&& said == ProjectOverrideState::Unload ==> list.checkbox(item).text == "[-]"@
                && list.suffix(item) is Some
            &&& said == ProjectOverrideState::Inherit ==> list.checkbox(item).text
                == if item.enabled {
                "[x]"@
            } else {
                "[ ]"@
            }
            &&& list.is_dimmed(item) ==> said == ProjectOverrideState::Inherit
        },
{
}

/// A session whose deletion is asked for stands out in the color of errors, the one in use in that of
/// accents, and named ones in that of warnings; only the selected row is marked as selected.
pub proof fn session_rows_stand_out(
    list: SessionList,
    session: SessionInfo,
    i: int,
    now_ms: int,
    home: Option<Seq<char>>,
)
    ensures
        ({
            let asked = list.confirming_delete_path matches Some(path) && path@ == session.path@;
            let in_use = list.current_session_canonical_path matches Some(path)
                && list.canonical_paths.canonical(session.path@) == path@;
            let named = session.name matches Some(name) && name@.len() > 0;
            list.message_color(session) == if asked {
                Some(ThemeColor::Error)
            } else if in_use {
                Some(ThemeColor::Accent)
            } else if named {
                Some(ThemeColor::Warning)
            } else {
                None
            }
        }),
        list.row(i, now_ms, home).selected == (i == list.selected_index),
{
}

/// The header marks the folder or all sessions as what is listed, and is titled after it.
pub proof fn headers_tell_the_scope(header: SessionSelectorHeader)
    requires
        !header.loading,
    ensures
        header.scope == SessionScope::Current ==> says(header.scope_spans(), "◉ Current Folder"@) && header.title()
            == "Resume Session (Current Folder)"@,
        header.scope == SessionScope::All ==> says(header.scope_spans(), "◉ All"@) && header.title()
            == "Resume Session (All)"@,
{
    if header.scope == SessionScope::Current {
        assert(header.scope_spans()[0].text == "◉ Current Folder"@);
    } else {
        assert(header.scope_spans()[1].text == "◉ All"@);
    }
}

/// A fork hangs from a corner if it is the last of its siblings and from a tee otherwise, three columns
/// in for each level; roots stand at the edge.
pub proof fn forks_hang_from_their_lines(node: FlatView)
    requires
        node.depth == node.ancestor_continues.len(),
    ensures
        node.depth == 0 ==> tree_prefix(node).len() == 0,
        node.depth > 0 ==> tree_prefix(node).len() == 3 * node.depth + 3 && tree_prefix(node)[3
            * node.depth as int] == if node.is_last {
            '└'
        } else {
            '├'
        },
{
    reveal_strlit("└─ ");
    reveal_strlit("├─ ");
    assert("└─ "@.len() == 3 && "├─ "@.len() == 3 && "└─ "@[0] == '└' && "├─ "@[0] == '├');
    lemma_ancestor_lines(node.ancestor_continues, 0);
}

proof fn lemma_ancestor_lines(continues: Seq<bool>, k: int)
    ensures
        ancestor_lines(continues).len() == 3 * continues.len(),
        0 <= k < continues.len() ==> ancestor_lines(continues)[3 * k] == if continues[k] {
            '│'
        } else {
            ' '
        },
    decreases continues.len(),
{
    reveal_strlit("│  ");
    reveal_strlit("   ");
    assert("│  "@.len() == 3 && "   "@.len() == 3 && "│  "@[0] == '│' && "   "@[0] == ' ');
    if continues.len() > 0 {
        lemma_ancestor_lines(continues.drop_last(), k);
    }
}

/// A line runs down beside a fork for each level above it that goes on, and for no other.
pub proof fn lines_run_beside_forks(node: FlatView, k: int)
    requires
        node.depth == node.ancestor_continues.len(),
        0 <= k < node.depth,
    ensures
        tree_prefix(node)[3 * k] == if node.ancestor_continues[k] {
            '│'
        } else {
            ' '
        },
{
    lemma_ancestor_lines(node.ancestor_continues, k);
}

proof fn lemma_first_of_trees(trees: Seq<SessionTreeNode>, n: nat, continues: Seq<bool>)
    requires
        0 < n <= trees.len(),
    ensures
        flat_trees(trees, n, continues).len() > 0,
        flat_trees(trees, n, continues)[0].session == trees[0].session,
        flat_trees(trees, n, continues)[0].ancestor_continues == continues,
        flat_trees(trees, n, continues)[0].is_last == (trees.len() == 1),
    decreases n,
{
    let before = flat_trees(trees, (n - 1) as nat, continues);
    let whole = flat_tree(trees[n - 1], continues, n == trees.len());
    assert(flat_trees(trees, n, continues) == before + whole);
    if n > 1 {
        lemma_first_of_trees(trees, (n - 1) as nat, continues);
    } else {
        assert(flat_trees(trees, 0, continues).len() == 0);
        assert(whole[0].session == trees[0].session);
    }
}

/// A fork stands right below the session that it comes from, one level deeper. The line beside it goes on
/// where that session has siblings below it, but not at the edge.
pub proof fn first_forks_stand_below_their_session(
    tree: SessionTreeNode,
    continues: Seq<bool>,
    is_last: bool,
)
    requires
        tree.children@.len() > 0,
    ensures
        ({
            let rows = flat_tree(tree, continues, is_last);
            &&& rows[0].session == tree.session
            &&& rows[0].is_last == is_last
            &&& rows[0].depth == continues.len()
            &&& rows[1].session == tree.children@[0].session
            &&& rows[1].is_last == (tree.children@.len() == 1)
            &&& rows[1].ancestor_continues.len() == continues.len() + 1
            &&& rows[1].ancestor_continues.last() == (!is_last && rows[0].depth > 0)
        }),
{
    let next = continues.push(continues.len() > 0 && !is_last);
    lemma_first_of_trees(tree.children@, tree.children@.len(), next);
    let rows = flat_tree(tree, continues, is_last);
    assert(rows[1] == flat_trees(tree.children@, tree.children@.len(), next)[0]);
}

/// In the session tree each level is three columns wide. A gutter draws its line only where its branch
/// goes on; the connector is a corner for the last sibling and a tee for others, and shows whether the
/// node is folded.
pub proof fn levels_draw_lines_and_connectors(
    visual: VisualView,
    shown_at: nat,
    level: int,
    folded: bool,
    foldable: bool,
)
    ensures
        ({
            let cells = level_cells(visual, shown_at, level, folded, foldable);
            &&& cells.len() == 3
            &&& cells[2] == ' '
            &&& gutter_at(visual.gutters, level) matches Some(show) ==> (cells[0] == '│') == show
                && cells[1] == ' '
            &&& gutter_at(visual.gutters, level) is None && has_connector(visual) && shown_at > 0
                && level == shown_at - 1 ==> {
                &&& cells[0] == if visual.is_last {
                    '└'
                } else {
                    '├'
                }
                &&& (cells[1] == '⊞') == folded
                &&& !folded ==> (cells[1] == '⊟') == foldable
            }
            &&& gutter_at(visual.gutters, level) is None && !has_connector(visual) ==> cells[0] == ' '
                && cells[1] == ' '
        }),
{
}

/// The user's and the assistant's messages are shown after their role, with their text on one line;
/// messages of a role that is not known are shown by it. Other entries name what they hold in brackets.
pub proof fn tree_rows_tell_of_their_entries(
    kind: EntryKind,
    calls: Seq<(Seq<char>, Seq<char>, Seq<char>)>,
    home: Option<Seq<char>>,
)
    ensures
        kind matches EntryKind::Message(message) ==> {
            let row = entry_spans(kind, calls, home);
            let text = flattened(content_preview(message.content));
            &&& message.role@ == "user"@ || message.role@ == "assistant"@ ==> row[0].text
                == message.role@ + ": "@
            &&& message.role@ == "user"@ || (message.role@ == "assistant"@ && text.len() > 0)
                ==> row[1].text == text
            &&& message.role@ == "bashExecution"@ && message.command is Some ==> row[0].text
                == "[bash]: "@ + flattened(message.command->0@)
            &&& message.role@ != "user"@ && message.role@ != "assistant"@ && message.role@
                != "toolResult"@ && message.role@ != "bashExecution"@ ==> row[0].text == "["@
                + message.role@ + "]"@
        },
        kind matches EntryKind::ModelChange { model_id } ==> entry_spans(kind, calls, home)[0].text
            == "[model: "@ + model_id@ + "]"@,
        kind matches EntryKind::ThinkingLevelChange { thinking_level } ==> entry_spans(
            kind,
            calls,
            home,
        )[0].text == "[thinking: "@ + thinking_level@ + "]"@,
        kind matches EntryKind::Custom { custom_type } ==> entry_spans(kind, calls, home)[0].text
            == "[custom: "@ + custom_type@ + "]"@,
        kind matches EntryKind::BranchSummary { summary } ==> entry_spans(kind, calls, home)[1].text
            == flattened(summary@),
{
    reveal_strlit("user");
    reveal_strlit("user: ");
    reveal_strlit("assistant");
    reveal_strlit("assistant: ");
    reveal_strlit("toolResult");
    reveal_strlit("bashExecution");
    reveal_strlit(": ");
    assert("user"@ + ": "@ =~= "user: "@);
    assert("assistant"@ + ": "@ =~= "assistant: "@);
    assert("user"@.len() == 4 && "assistant"@.len() == 9 && "toolResult"@.len() == 10
        && "bashExecution"@.len() == 13);
}

/// Only the selected row of the tree is marked and bold; a label is shown in brackets, and a dot tells
/// that the entry is on the path in use.
pub proof fn tree_rows_tell_their_state(list: TreeList, i: int, home: Option<Seq<char>>)
    requires
        0 <= i < list.filtered_nodes@.len(),
    ensures
        ({
            let f = list.filtered_nodes@[i] as int;
            let node = list.arena@[list.flat()[f] as int];
            let row = list.tree_row(i, home);
            &&& row.selected == (i == list.selected_index)
            &&& node.label matches Some(label) ==> row.label is Some && row.label->0.text == "["@
                + label@ + "] "@
            &&& node.label is None ==> row.label is None
            &&& row.label_timestamp is Some ==> list.show_label_timestamps && node.label is Some
            &&& list.active_path@[node.key as int] == (row.prefix.last() == colored(
                ThemeColor::Accent,
                "• "@,
            ))
        }),
{
    reveal_strlit("• ");
    reveal_strlit("⊞ ");
    assert("• "@[0] == '•' && "⊞ "@[0] == '⊞');
}

/// A collapsed command shows the end of its output, at most twenty lines, and tells how many it leaves
/// out; an expanded one shows all of it.
pub proof fn collapsed_output_shows_its_end(bash: BashView)
    ensures
        bash.expanded || bash.output.len() <= 20 ==> bash.preview() == join(bash.output, "\n"@),
        !bash.expanded && bash.output.len() > 20 ==> {
            &&& bash.preview() == join(bash.output.skip(bash.output.len() - 20), "\n"@)
            &&& bash.status_parts().len() > 0
            &&& bash.status_parts()[0] == "... "@ + crate::text::decimal(
                (bash.output.len() - 20) as nat,
            ) + " more lines (expand to expand)"@
        },
{
    assert(bash.output.skip(0) =~= bash.output);
}

/// A command that runs shows a spinner; one that has ended tells that it was cancelled, or its exit code
/// if it failed, and nothing if it succeeded.
pub proof fn commands_tell_how_they_ended(bash: BashView)
    requires
        bash.expanded,
    ensures
        bash.running ==> bash.status().len() == 1 && bash.status()[0] is Loader,
        !bash.running && bash.cancelled ==> bash.status_parts() == seq!["(cancelled)"@],
        !bash.running && !bash.cancelled ==> (bash.status().len() == 0) == (bash.exit_code is None
            || bash.exit_code == Some(0i32)),
        !bash.running && !bash.cancelled && (bash.exit_code matches Some(code) && code != 0)
            ==> bash.status_parts() == seq![
            "(exit "@ + signed_decimal(bash.exit_code->0 as int) + ")"@,
        ],
        (bash.color() == ThemeColor::Dim) == bash.exclude_from_context,
{
}

/// A response tells of its end where it was cut off, and where it failed or was aborted without calling
/// tools; otherwise it tells nothing.
pub proof fn responses_tell_how_they_ended(message: AssistantMessage)
    ensures
        ({
            let calls = exists|i: int|
                0 <= i < message.content@.len() && #[trigger] message.content@[i] is ToolCall;
            &&& ending_text(message) is Some <==> message.stop_reason == StopReason::Length || (!calls
                && (message.stop_reason == StopReason::Aborted || message.stop_reason
                == StopReason::Error))
            &&& !calls && message.stop_reason == StopReason::Error && message.error_message is Some
                ==> ending_text(message) == Some("Error: "@ + message.error_message->0@)
        }),
{
}

/// The context is shown in the color of errors above ninety percent, and in that of warnings above
/// seventy; more use is never shown in a milder color.
pub proof fn fuller_contexts_are_shown_as_such(a: u64, b: u64)
    requires
        a <= b,
    ensures
        (context_color(Some(a)) == Some(ThemeColor::Error)) == (a > 90_000_000_000),
        context_color(Some(a)) is Some == (a > 70_000_000_000),
        context_color(Some(a)) == Some(ThemeColor::Error) ==> context_color(Some(b))
            == Some(ThemeColor::Error),
        context_color(Some(a)) is Some ==> context_color(Some(b)) is Some,
        context_color(None) is None,
{
}

/// The footer counts what went in and came out and what the cache took and gave, each under a sign of
/// its own, and leaves out what is zero.
pub proof fn counts_stand_under_their_signs(stats: FooterStats, auto_compact: bool)
    ensures
        ({
            let parts = stat_parts(stats, auto_compact);
            &&& stats.input > 0 ==> says(parts, "↑"@ + token_text(stats.input as nat))
            &&& stats.output > 0 ==> says(parts, "↓"@ + token_text(stats.output as nat))
            &&& stats.cache_read > 0 ==> says(parts, "R"@ + token_text(stats.cache_read as nat))
            &&& stats.cache_write > 0 ==> says(parts, "W"@ + token_text(stats.cache_write as nat))
            &&& stats.input == 0 && stats.output == 0 && stats.cache_read == 0 && stats.cache_write
                == 0 && stats.cost == 0 && !stats.using_subscription ==> parts.len() == 1
        }),
{
    let parts = stat_parts(stats, auto_compact);
    let a = counted("↑"@, stats.input);
    let b = counted("↓"@, stats.output);
    let c = counted("R"@, stats.cache_read);
    let d = counted("W"@, stats.cache_write);
    if stats.input > 0 {
        assert(parts[0] == a[0]);
    }
    if stats.output > 0 {
        assert(parts[a.len() as int] == b[0]);
    }
    if stats.cache_read > 0 {
        assert(parts[(a.len() + b.len()) as int] == c[0]);
    }
    if stats.cache_write > 0 {
        assert(parts[(a.len() + b.len() + c.len()) as int] == d[0]);
    }
}

/// The trust chooser offers to trust the project and not to, and to trust the folder above it if there
/// is another; what is saved is told with the folder that it comes from.
pub proof fn trust_can_be_given_and_refused(
    path: Seq<char>,
    parent: Option<Seq<char>>,
    saved: ProjectTrustStoreEntry,
)
    ensures
        ({
            let choices = trust_choices(path, parent);
            &&& choices[0].trusted && choices[0].saved_path == path
            &&& !choices.last().trusted && choices.last().saved_path == path
            &&& (choices.len() == 3) == (parent is Some && parent->0 != path)
            &&& choices.len() == 3 ==> choices[1].trusted && Some(choices[1].saved_path) == parent
        }),
        decision_text(path, Some(saved)) == if saved.decision {
            "trusted"@
        } else {
            "untrusted"@
        } + if saved.path@ == path {
            " ("@
        } else {
            " (inherited from "@
        } + saved.path@ + ")"@,
{
}

} // verus!
