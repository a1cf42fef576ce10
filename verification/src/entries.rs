//! Entries of a session as the tree shows them: what text they hold, which of
//! it is searched and which is copied.

use crate::text::{
    chars_of, char_utf16_len, is_blank, join, join_strs, lemma_trim_empty, push_char, push_text,
    str_eq, string_of, texts, trim, trim_slice,
};
use vstd::prelude::*;
use vstd::string::*;

verus! {

broadcast use vstd::string::group_string_axioms;

/// One block of a message's content.
#[derive(Debug)]
pub enum Block {
    Text(String),
    /// A call of a tool, with its arguments as JSON text.
    ToolCall { id: String, name: String, arguments: String },
    Other,
}

/// The content of a message.
#[derive(Debug)]
pub enum Content {
    Missing,
    Null,
    Text(String),
    Blocks(Vec<Block>),
    Other,
}

/// A message of a conversation.
#[derive(Debug)]
pub struct Message {
    /// Empty when the message states none.
    pub role: String,
    pub content: Content,
    pub stop_reason: Option<String>,
    pub error_message: Option<String>,
    pub tool_call_id: Option<String>,
    pub tool_name: Option<String>,
    pub command: Option<String>,
}

/// What an entry is.
#[derive(Debug)]
pub enum EntryKind {
    Message(Message),
    CustomMessage { custom_type: String, content: Content },
    Compaction { summary: String, tokens_before: u64 },
    BranchSummary { summary: String },
    ModelChange { model_id: String },
    ThinkingLevelChange { thinking_level: String },
    Custom { custom_type: String },
    Label { label: Option<String> },
    SessionInfo { name: Option<String> },
}

/// One entry of a session.
#[derive(Debug)]
pub struct SessionEntry {
    /// Empty when the entry has none.
    pub id: String,
    pub parent_id: Option<String>,
    pub kind: EntryKind,
}

/// The text of the first `n` blocks together.
pub open spec fn blocks_text(blocks: Seq<Block>) -> Seq<char>
    decreases blocks.len(),
{
    if blocks.len() == 0 {
        Seq::empty()
    } else {
        blocks_text(blocks.drop_last()) + match blocks.last() {
            Block::Text(text) => text@,
            _ => Seq::empty(),
        }
    }
}

/// The text of a content.
pub open spec fn content_text(content: Content) -> Seq<char> {
    match content {
        Content::Text(text) => text@,
        Content::Blocks(blocks) => blocks_text(blocks@),
        _ => Seq::empty(),
    }
}

/// The shortest prefix that takes at least `n` UTF-16 code units, or the whole text.
pub open spec fn utf16_prefix(s: Seq<char>, n: int) -> Seq<char>
    decreases s.len(),
{
    if n <= 0 || s.len() == 0 {
        Seq::empty()
    } else {
        seq![s[0]] + utf16_prefix(s.skip(1), n - char_utf16_len(s[0]))
    }
}

/// How much of a content is shown and searched, in UTF-16 code units.
pub const CONTENT_PREVIEW: usize = 200;

/// The start of a content's text.
pub open spec fn content_preview(content: Content) -> Seq<char> {
    utf16_prefix(content_text(content), CONTENT_PREVIEW as int)
}

/// Whether the content holds text that is not blank.
pub open spec fn has_text(content: Content) -> bool {
    match content {
        Content::Text(text) => !is_blank(text@),
        Content::Blocks(blocks) => exists|i: int|
            0 <= i < blocks@.len() && is_written(#[trigger] blocks@[i]),
        _ => false,
    }
}

/// Whether the block holds text that is not blank.
pub open spec fn is_written(block: Block) -> bool {
    match block {
        Block::Text(text) => !is_blank(text@),
        _ => false,
    }
}

/// Line breaks and tabs as spaces, trimmed.
pub open spec fn flattened(s: Seq<char>) -> Seq<char> {
    trim(
        s.map_values(
            |c: char|
                if c == '\n' || c == '\t' {
                    ' '
                } else {
                    c
                },
        ),
    )
}

/// Line breaks and tabs as spaces, trimmed.
pub fn normalize(s: &str) -> (r: String)
    ensures
        r@ == flattened(s@),
{
    let chars = chars_of(s);
    let ghost mapped = s@.map_values(
        |c: char|
            if c == '\n' || c == '\t' {
                ' '
            } else {
                c
            },
    );
    let mut out: Vec<char> = Vec::new();
    let mut i: usize = 0;
    while i < chars.len()
        invariant
            i <= chars.len(),
            chars@ == s@,
            mapped == s@.map_values(
                |c: char|
                    if c == '\n' || c == '\t' {
                        ' '
                    } else {
                        c
                    },
            ),
            out@ =~= mapped.take(i as int),
        decreases chars.len() - i,
    {
        let c = chars[i];
        out.push(
            if c == '\n' || c == '\t' {
                ' '
            } else {
                c
            },
        );
        i = i + 1;
    }
    assert(out@ =~= mapped);
    string_of(trim_slice(out.as_slice()))
}

/// The shortest prefix that takes at least `n` UTF-16 code units, or the whole text.
pub fn slice_utf16_prefix(s: &str, n: usize) -> (r: String)
    ensures
        r@ == utf16_prefix(s@, n as int),
{
    let chars = chars_of(s);
    let mut r = String::new();
    let mut left: usize = n;
    let mut i: usize = 0;
    assert(s@.skip(0) =~= s@);
    while i < chars.len() && left > 0
        invariant
            i <= chars.len(),
            chars@ == s@,
            utf16_prefix(s@, n as int) =~= r@ + utf16_prefix(s@.skip(i as int), left as int),
        decreases chars.len() - i,
    {
        let ghost rest = s@.skip(i as int);
        assert(rest[0] == chars@[i as int]);
        assert(rest.skip(1) =~= s@.skip(i as int + 1));
        let ghost units = char_utf16_len(rest[0]) as int;
        push_char(&mut r, chars[i]);
        if (chars[i] as u32) < 0x10000 {
            left = left - 1;
        } else if left == 1 {
            left = 0;
            assert(utf16_prefix(rest.skip(1), 1 - units) == utf16_prefix(rest.skip(1), 0));
        } else {
            left = left - 2;
        }
        i = i + 1;
    }
    r
}

/// The text of a content.
pub fn extract_full_content(content: &Content) -> (r: String)
    ensures
        r@ == content_text(*content),
{
    match content {
        Content::Text(text) => text.clone(),
        Content::Blocks(blocks) => {
            let mut r = String::new();
            let mut i: usize = 0;
            while i < blocks.len()
                invariant
                    i <= blocks.len(),
                    r@ == blocks_text(blocks@.take(i as int)),
                decreases blocks.len() - i,
            {
                assert(blocks@.take(i as int + 1).drop_last() =~= blocks@.take(i as int));
                if let Block::Text(text) = &blocks[i] {
                    r.append(text.as_str());
                }
                assert(r@ =~= blocks_text(blocks@.take(i as int + 1)));
                i = i + 1;
            }
            assert(blocks@.take(i as int) =~= blocks@);
            r
        },
        Content::Missing => String::new(),
        Content::Null => String::new(),
        Content::Other => String::new(),
    }
}

/// The start of a content's text.
pub fn extract_content(content: &Content) -> (r: String)
    ensures
        r@ == content_preview(*content),
{
    slice_utf16_prefix(extract_full_content(content).as_str(), CONTENT_PREVIEW)
}

fn is_blank_str(s: &str) -> (r: bool)
    ensures
        r == is_blank(s@),
{
    proof {
        lemma_trim_empty(s@);
    }
    let chars = chars_of(s);
    trim_slice(chars.as_slice()).len() == 0
}

/// Whether the content holds text that is not blank.
pub fn has_text_content(content: &Content) -> (r: bool)
    ensures
        r == has_text(*content),
{
    match content {
        Content::Text(text) => !is_blank_str(text.as_str()),
        Content::Blocks(blocks) => {
            let mut i: usize = 0;
            while i < blocks.len()
                invariant
                    i <= blocks.len(),
                    *content == Content::Blocks(*blocks),
                    forall|j: int| 0 <= j < i ==> !is_written(#[trigger] blocks@[j]),
                decreases blocks.len() - i,
            {
                if let Block::Text(text) = &blocks[i] {
                    if !is_blank_str(text.as_str()) {
                        assert(is_written((*content)->Blocks_0@[i as int]));
                        return true;
                    }
                }
                i = i + 1;
            }
            false
        },
        Content::Missing => false,
        Content::Null => false,
        Content::Other => false,
    }
}

/// The parts of an entry that are searched, besides its label.
pub open spec fn searched_parts(kind: EntryKind) -> Seq<Seq<char>> {
    match kind {
        EntryKind::Message(message) => {
            let base = seq![message.role@];
            let with_content = if message.content is Missing || message.content is Null {
                base
            } else {
                base.push(content_preview(message.content))
            };
            if message.role@ == "bashExecution"@ && message.command is Some {
                with_content.push(message.command->0@)
            } else {
                with_content
            }
        },
        EntryKind::CustomMessage { custom_type, content } => seq![
            custom_type@,
            match content {
                Content::Text(text) => text@,
                _ => content_preview(content),
            },
        ],
        EntryKind::Compaction { .. } => seq!["compaction"@],
        EntryKind::BranchSummary { summary } => seq!["branch summary"@, summary@],
        EntryKind::SessionInfo { name } => match name {
            Some(name) => seq!["title"@, name@],
            None => seq!["title"@],
        },
        EntryKind::ModelChange { model_id } => seq!["model"@, model_id@],
        EntryKind::ThinkingLevelChange { thinking_level } => seq!["thinking"@, thinking_level@],
        EntryKind::Custom { custom_type } => seq!["custom"@, custom_type@],
        EntryKind::Label { label } => seq![
            "label"@,
            match label {
                Some(label) => label@,
                None => Seq::empty(),
            },
        ],
    }
}

/// The text of an entry that is searched.
pub open spec fn searchable_text(kind: EntryKind, label: Option<String>) -> Seq<char> {
    let parts = match label {
        Some(label) => seq![label@] + searched_parts(kind),
        None => searched_parts(kind),
    };
    join(parts, seq![' '])
}

/// The text of an entry that is searched.
pub fn get_searchable_text(entry: &SessionEntry, label: &Option<String>) -> (r: String)
    ensures
        r@ == searchable_text(entry.kind, *label),
{
    proof {
        reveal_strlit(" ");
        assert(" "@ =~= seq![' ']);
    }
    let mut parts: Vec<String> = Vec::new();
    if let Some(label) = label {
        push_text(&mut parts, label.clone());
    }
    let ghost before = texts(parts@);
    match &entry.kind {
        EntryKind::Message(message) => {
            push_text(&mut parts, message.role.clone());
            let present = match &message.content {
                Content::Missing => false,
                Content::Null => false,
                _ => true,
            };
            if present {
                push_text(&mut parts, extract_content(&message.content));
            }
            if str_eq(message.role.as_str(), "bashExecution") {
                if let Some(command) = &message.command {
                    push_text(&mut parts, command.clone());
                }
            }
        },
        EntryKind::CustomMessage { custom_type, content } => {
            push_text(&mut parts, custom_type.clone());
            let text = match content {
                Content::Text(text) => text.clone(),
                _ => extract_content(content),
            };
            push_text(&mut parts, text);
        },
        EntryKind::Compaction { .. } => {
            push_text(&mut parts, "compaction".to_owned());
        },
        EntryKind::BranchSummary { summary } => {
            push_text(&mut parts, "branch summary".to_owned());
            push_text(&mut parts, summary.clone());
        },
        EntryKind::SessionInfo { name } => {
            push_text(&mut parts, "title".to_owned());
            if let Some(name) = name {
                push_text(&mut parts, name.clone());
            }
        },
        EntryKind::ModelChange { model_id } => {
            push_text(&mut parts, "model".to_owned());
            push_text(&mut parts, model_id.clone());
        },
        EntryKind::ThinkingLevelChange { thinking_level } => {
            push_text(&mut parts, "thinking".to_owned());
            push_text(&mut parts, thinking_level.clone());
        },
        EntryKind::Custom { custom_type } => {
            push_text(&mut parts, "custom".to_owned());
            push_text(&mut parts, custom_type.clone());
        },
        EntryKind::Label { label } => {
            push_text(&mut parts, "label".to_owned());
            let text = match label {
                Some(label) => label.clone(),
                None => String::new(),
            };
            push_text(&mut parts, text);
        },
    }
    assert(texts(parts@) =~= before + searched_parts(entry.kind));
    assert(before + searched_parts(entry.kind) =~= match *label {
        Some(label) => seq![label@] + searched_parts(entry.kind),
        None => searched_parts(entry.kind),
    });
    join_strs(&parts, " ")
}

/// The text of an entry that can be copied, blank or not.
pub open spec fn copied_text(kind: EntryKind) -> Option<Seq<char>> {
    match kind {
        EntryKind::Message(message) => if message.role@ == "bashExecution"@ {
            match message.command {
                Some(command) => Some(command@),
                None => None,
            }
        } else if message.content is Missing {
            None
        } else if content_text(message.content).len() == 0 && message.role@ == "assistant"@ {
            match message.error_message {
                Some(error) => Some(error@),
                None => Some(Seq::empty()),
            }
        } else {
            Some(content_text(message.content))
        },
        EntryKind::CustomMessage { content, .. } => Some(content_text(content)),
        EntryKind::Compaction { summary, .. } => Some(summary@),
        EntryKind::BranchSummary { summary } => Some(summary@),
        _ => None,
    }
}

/// The text that is copied from an entry: none when it is blank.
pub open spec fn copy_text(kind: EntryKind) -> Option<Seq<char>> {
    match copied_text(kind) {
        Some(text) => if is_blank(text) {
            None
        } else {
            Some(text)
        },
        None => None,
    }
}

/// The text that is copied from an entry.
pub fn get_entry_copy_text(entry: &SessionEntry) -> (r: Option<String>)
    ensures
        match r {
            Some(text) => copy_text(entry.kind) == Some(text@),
            None => copy_text(entry.kind) is None,
        },
{
    let text: Option<String> = match &entry.kind {
        EntryKind::Message(message) => {
            if str_eq(message.role.as_str(), "bashExecution") {
                match &message.command {
                    Some(command) => Some(command.clone()),
                    None => None,
                }
            } else {
                let missing = match &message.content {
                    Content::Missing => true,
                    _ => false,
                };
                if missing {
                    None
                } else {
                    let text = extract_full_content(&message.content);
                    if text.as_str().is_empty() && str_eq(message.role.as_str(), "assistant") {
                        match &message.error_message {
                            Some(error) => Some(error.clone()),
                            None => Some(text),
                        }
                    } else {
                        Some(text)
                    }
                }
            }
        },
        EntryKind::CustomMessage { content, .. } => Some(extract_full_content(content)),
        EntryKind::Compaction { summary, .. } => Some(summary.clone()),
        EntryKind::BranchSummary { summary } => Some(summary.clone()),
        _ => None,
    };
    match text {
        Some(text) => {
            assert(copied_text(entry.kind) =~= Some(text@));
            if is_blank_str(text.as_str()) {
                None
            } else {
                Some(text)
            }
        },
        None => None,
    }
}

} // verus!
