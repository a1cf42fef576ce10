//! Editor-submit dispatch: what a submitted line asks for.
//!
//! Built-in slash commands come first, then `!`/`!!` bash, then the compaction
//! gate, then the streaming gate, then a normal prompt.

use crate::text::{
    chars_of, has_prefix, index_of_char, is_whitespace, position_of, str_eq, string_of, trim,
    trim_slice, trim_start,
};
use vstd::prelude::*;
use vstd::slice::slice_subrange;
use vstd::string::*;

verus! {

broadcast use vstd::string::group_string_axioms;

/// One built-in slash command.
#[derive(Debug, Clone, Copy)]
pub struct BuiltinSlashCommand {
    pub name: &'static str,
    pub description: &'static str,
    pub argument_hint: Option<&'static str>,
}

/// The content of a built-in slash command.
#[verifier::ext_equal]
pub struct SlashCommandView {
    pub name: Seq<char>,
    pub description: Seq<char>,
    pub argument_hint: Option<Seq<char>>,
}

impl View for BuiltinSlashCommand {
    type V = SlashCommandView;

    open spec fn view(&self) -> SlashCommandView {
        SlashCommandView {
            name: self.name@,
            description: self.description@,
            argument_hint: match self.argument_hint {
                Some(hint) => Some(hint@),
                None => None,
            },
        }
    }
}

/// A built-in slash command.
pub open spec fn slash_command(
    name: Seq<char>,
    description: Seq<char>,
    argument_hint: Option<Seq<char>>,
) -> SlashCommandView {
    SlashCommandView { name, description, argument_hint }
}

/// The built-in slash commands, as they are offered for completion.
pub open spec fn slash_commands() -> Seq<SlashCommandView> {
    seq![
        slash_command("settings"@, "Open settings menu"@, None),
        slash_command("model"@, "Select model (opens selector UI)"@, Some("<provider/model>"@)),
        slash_command("scoped-models"@, "Enable/disable models for Ctrl+P cycling"@, None),
        slash_command("export"@, "Export session (HTML default, or specify path: .html/.jsonl)"@, None),
        slash_command("import"@, "Import and resume a session from a JSONL file"@, None),
        slash_command("share"@, "Share session as a secret GitHub gist"@, None),
        slash_command("copy"@, "Copy last agent message to clipboard"@, None),
        slash_command("name"@, "Set session display name"@, None),
        slash_command("session"@, "Show session info and stats"@, None),
        slash_command("changelog"@, "Show changelog entries"@, None),
        slash_command("hotkeys"@, "Show all keyboard shortcuts"@, None),
        slash_command("fork"@, "Create a new fork from a previous user message"@, None),
        slash_command("clone"@, "Duplicate the current session at the current position"@, None),
        slash_command("tree"@, "Navigate session tree (switch branches)"@, None),
        slash_command("trust"@, "Save project trust decision for future sessions"@, None),
        slash_command("login"@, "Configure provider authentication"@, Some("<provider>"@)),
        slash_command("logout"@, "Remove provider authentication"@, None),
        slash_command("new"@, "Start a new session"@, None),
        slash_command("compact"@, "Manually compact the session context"@, None),
        slash_command("resume"@, "Resume a different session"@, None),
        slash_command("reload"@, "Reload keybindings, extensions, skills, prompts, themes, and context files"@, None),
        slash_command("quit"@, "Quit pi"@, None),
    ]
}

/// The contents of commands.
pub open spec fn command_views(commands: Seq<BuiltinSlashCommand>) -> Seq<SlashCommandView> {
    commands.map_values(|c: BuiltinSlashCommand| c@)
}

fn push_command(
    commands: &mut Vec<BuiltinSlashCommand>,
    name: &'static str,
    description: &'static str,
    argument_hint: Option<&'static str>,
)
    ensures
        command_views(final(commands)@) == command_views(old(commands)@).push(
            slash_command(
                name@,
                description@,
                match argument_hint {
                    Some(hint) => Some(hint@),
                    None => None,
                },
            ),
        ),
{
    let command = BuiltinSlashCommand { name, description, argument_hint };
    commands.push(command);
    assert(command_views(commands@) =~= command_views(old(commands)@).push(command@));
}

/// The built-in slash commands, as they are offered for completion.
pub fn builtin_slash_commands() -> (r: Vec<BuiltinSlashCommand>)
    ensures
        command_views(r@) == slash_commands(),
{
    let mut commands: Vec<BuiltinSlashCommand> = Vec::new();
    push_command(&mut commands, "settings", "Open settings menu", None);
    push_command(&mut commands, "model", "Select model (opens selector UI)", Some("<provider/model>"));
    push_command(&mut commands, "scoped-models", "Enable/disable models for Ctrl+P cycling", None);
    push_command(&mut commands, "export", "Export session (HTML default, or specify path: .html/.jsonl)", None);
    push_command(&mut commands, "import", "Import and resume a session from a JSONL file", None);
    push_command(&mut commands, "share", "Share session as a secret GitHub gist", None);
    push_command(&mut commands, "copy", "Copy last agent message to clipboard", None);
    push_command(&mut commands, "name", "Set session display name", None);
    push_command(&mut commands, "session", "Show session info and stats", None);
    push_command(&mut commands, "changelog", "Show changelog entries", None);
    push_command(&mut commands, "hotkeys", "Show all keyboard shortcuts", None);
    push_command(&mut commands, "fork", "Create a new fork from a previous user message", None);
    push_command(&mut commands, "clone", "Duplicate the current session at the current position", None);
    push_command(&mut commands, "tree", "Navigate session tree (switch branches)", None);
    push_command(&mut commands, "trust", "Save project trust decision for future sessions", None);
    push_command(&mut commands, "login", "Configure provider authentication", Some("<provider>"));
    push_command(&mut commands, "logout", "Remove provider authentication", None);
    push_command(&mut commands, "new", "Start a new session", None);
    push_command(&mut commands, "compact", "Manually compact the session context", None);
    push_command(&mut commands, "resume", "Resume a different session", None);
    push_command(&mut commands, "reload", "Reload keybindings, extensions, skills, prompts, themes, and context files", None);
    push_command(&mut commands, "quit", "Quit pi", None);
    assert(command_views(commands@) =~= slash_commands());
    commands
}

/// A recognized built-in slash command with parsed arguments.
#[derive(Debug, PartialEq, Eq)]
pub enum BuiltinCommand {
    Settings,
    ScopedModels,
    Share,
    Copy,
    Session,
    Changelog,
    Resume,
    Theme,
    Thinking,
    Images,
    Help,
    Hotkeys,
    Fork,
    Clone,
    Tree,
    Trust,
    Logout,
    New,
    Reload,
    Debug,
    ArminSaysHi,
    DementedElves,
    Quit,
    /// `/model [search term]`
    Model { search: Option<String> },
    /// `/export [path]`: the raw text after the command.
    Export { raw: String },
    /// `/import [path]`: the whole line.
    Import { raw: String },
    /// `/name [name]`: the whole line.
    Name { raw: String },
    /// `/login [provider]`
    Login { provider: Option<String> },
    /// `/compact [instructions]`
    Compact { instructions: Option<String> },
}

/// The content of a command.
#[verifier::ext_equal]
pub enum BuiltinView {
    Settings,
    ScopedModels,
    Share,
    Copy,
    Session,
    Changelog,
    Resume,
    Theme,
    Thinking,
    Images,
    Help,
    Hotkeys,
    Fork,
    Clone,
    Tree,
    Trust,
    Logout,
    New,
    Reload,
    Debug,
    ArminSaysHi,
    DementedElves,
    Quit,
    Model(Option<Seq<char>>),
    Export(Seq<char>),
    Import(Seq<char>),
    Name(Seq<char>),
    Login(Option<Seq<char>>),
    Compact(Option<Seq<char>>),
}

/// The content of an optional text.
pub open spec fn opt_text(text: Option<String>) -> Option<Seq<char>> {
    match text {
        Some(t) => Some(t@),
        None => None,
    }
}

impl View for BuiltinCommand {
    type V = BuiltinView;

    open spec fn view(&self) -> BuiltinView {
        match self {
            BuiltinCommand::Settings => BuiltinView::Settings,
            BuiltinCommand::ScopedModels => BuiltinView::ScopedModels,
            BuiltinCommand::Share => BuiltinView::Share,
            BuiltinCommand::Copy => BuiltinView::Copy,
            BuiltinCommand::Session => BuiltinView::Session,
            BuiltinCommand::Changelog => BuiltinView::Changelog,
            BuiltinCommand::Resume => BuiltinView::Resume,
            BuiltinCommand::Theme => BuiltinView::Theme,
            BuiltinCommand::Thinking => BuiltinView::Thinking,
            BuiltinCommand::Images => BuiltinView::Images,
            BuiltinCommand::Help => BuiltinView::Help,
            BuiltinCommand::Hotkeys => BuiltinView::Hotkeys,
            BuiltinCommand::Fork => BuiltinView::Fork,
            BuiltinCommand::Clone => BuiltinView::Clone,
            BuiltinCommand::Tree => BuiltinView::Tree,
            BuiltinCommand::Trust => BuiltinView::Trust,
            BuiltinCommand::Logout => BuiltinView::Logout,
            BuiltinCommand::New => BuiltinView::New,
            BuiltinCommand::Reload => BuiltinView::Reload,
            BuiltinCommand::Debug => BuiltinView::Debug,
            BuiltinCommand::ArminSaysHi => BuiltinView::ArminSaysHi,
            BuiltinCommand::DementedElves => BuiltinView::DementedElves,
            BuiltinCommand::Quit => BuiltinView::Quit,
            BuiltinCommand::Model { search } => BuiltinView::Model(opt_text(*search)),
            BuiltinCommand::Export { raw } => BuiltinView::Export(raw@),
            BuiltinCommand::Import { raw } => BuiltinView::Import(raw@),
            BuiltinCommand::Name { raw } => BuiltinView::Name(raw@),
            BuiltinCommand::Login { provider } => BuiltinView::Login(opt_text(*provider)),
            BuiltinCommand::Compact { instructions } => BuiltinView::Compact(opt_text(*instructions)),
        }
    }
}

/// The command without arguments that the line is.
pub open spec fn plain_command(text: Seq<char>) -> Option<BuiltinView> {
    if text == "/settings"@ {
        Some(BuiltinView::Settings)
    } else if text == "/scoped-models"@ {
        Some(BuiltinView::ScopedModels)
    } else if text == "/share"@ {
        Some(BuiltinView::Share)
    } else if text == "/copy"@ {
        Some(BuiltinView::Copy)
    } else if text == "/session"@ {
        Some(BuiltinView::Session)
    } else if text == "/changelog"@ {
        Some(BuiltinView::Changelog)
    } else if text == "/sessions"@ {
        Some(BuiltinView::Resume)
    } else if text == "/theme"@ {
        Some(BuiltinView::Theme)
    } else if text == "/themes"@ {
        Some(BuiltinView::Theme)
    } else if text == "/thinking"@ {
        Some(BuiltinView::Thinking)
    } else if text == "/images"@ {
        Some(BuiltinView::Images)
    } else if text == "/help"@ {
        Some(BuiltinView::Help)
    } else if text == "/hotkeys"@ {
        Some(BuiltinView::Hotkeys)
    } else if text == "/fork"@ {
        Some(BuiltinView::Fork)
    } else if text == "/clone"@ {
        Some(BuiltinView::Clone)
    } else if text == "/tree"@ {
        Some(BuiltinView::Tree)
    } else if text == "/trust"@ {
        Some(BuiltinView::Trust)
    } else if text == "/logout"@ {
        Some(BuiltinView::Logout)
    } else if text == "/new"@ {
        Some(BuiltinView::New)
    } else if text == "/clear"@ {
        Some(BuiltinView::New)
    } else if text == "/reload"@ {
        Some(BuiltinView::Reload)
    } else if text == "/debug"@ {
        Some(BuiltinView::Debug)
    } else if text == "/arminsayshi"@ {
        Some(BuiltinView::ArminSaysHi)
    } else if text == "/dementedelves"@ {
        Some(BuiltinView::DementedElves)
    } else if text == "/resume"@ {
        Some(BuiltinView::Resume)
    } else if text == "/quit"@ {
        Some(BuiltinView::Quit)
    } else if text == "/exit"@ {
        Some(BuiltinView::Quit)
    } else {
        None
    }
}

/// The argument after the prefix of a command, if there is one.
pub open spec fn argument(text: Seq<char>, prefix: Seq<char>) -> Option<Seq<char>> {
    let arg = trim(text.skip(prefix.len() as int));
    if arg.len() == 0 {
        None
    } else {
        Some(arg)
    }
}

/// The line without the command that it starts with.
pub open spec fn rest_after(text: Seq<char>, command: Seq<char>) -> Seq<char> {
    text.skip(command.len() as int)
}

/// The command that may have arguments that the line is.
pub open spec fn argument_command(text: Seq<char>) -> Option<BuiltinView> {
    if text == "/model"@ {
        Some(BuiltinView::Model(None))
    } else if text == "/export"@ {
        Some(BuiltinView::Export(rest_after(text, "/export"@)))
    } else if text == "/import"@ {
        Some(BuiltinView::Import(text))
    } else if text == "/name"@ {
        Some(BuiltinView::Name(text))
    } else if text == "/login"@ {
        Some(BuiltinView::Login(None))
    } else if text == "/compact"@ {
        Some(BuiltinView::Compact(None))
    } else if "/model "@.is_prefix_of(text) {
        Some(BuiltinView::Model(argument(text, "/model "@)))
    } else if "/export "@.is_prefix_of(text) {
        Some(BuiltinView::Export(rest_after(text, "/export"@)))
    } else if "/import "@.is_prefix_of(text) {
        Some(BuiltinView::Import(text))
    } else if "/name "@.is_prefix_of(text) {
        Some(BuiltinView::Name(text))
    } else if "/login "@.is_prefix_of(text) {
        Some(BuiltinView::Login(argument(text, "/login "@)))
    } else if "/compact "@.is_prefix_of(text) {
        Some(BuiltinView::Compact(argument(text, "/compact "@)))
    } else {
        None
    }
}

/// The built-in command that the line is.
pub open spec fn builtin_command(text: Seq<char>) -> Option<BuiltinView> {
    match plain_command(text) {
        Some(command) => Some(command),
        None => argument_command(text),
    }
}

/// The content of an optional command.
pub open spec fn builtin_opt(command: Option<BuiltinCommand>) -> Option<BuiltinView> {
    match command {
        Some(c) => Some(c@),
        None => None,
    }
}

fn parse_plain(text: &str) -> (r: Option<BuiltinCommand>)
    ensures
        builtin_opt(r) == plain_command(text@),
{
    if str_eq(text, "/settings") {
        Some(BuiltinCommand::Settings)
    } else if str_eq(text, "/scoped-models") {
        Some(BuiltinCommand::ScopedModels)
    } else if str_eq(text, "/share") {
        Some(BuiltinCommand::Share)
    } else if str_eq(text, "/copy") {
        Some(BuiltinCommand::Copy)
    } else if str_eq(text, "/session") {
        Some(BuiltinCommand::Session)
    } else if str_eq(text, "/changelog") {
        Some(BuiltinCommand::Changelog)
    } else if str_eq(text, "/sessions") {
        Some(BuiltinCommand::Resume)
    } else if str_eq(text, "/theme") {
        Some(BuiltinCommand::Theme)
    } else if str_eq(text, "/themes") {
        Some(BuiltinCommand::Theme)
    } else if str_eq(text, "/thinking") {
        Some(BuiltinCommand::Thinking)
    } else if str_eq(text, "/images") {
        Some(BuiltinCommand::Images)
    } else if str_eq(text, "/help") {
        Some(BuiltinCommand::Help)
    } else if str_eq(text, "/hotkeys") {
        Some(BuiltinCommand::Hotkeys)
    } else if str_eq(text, "/fork") {
        Some(BuiltinCommand::Fork)
    } else if str_eq(text, "/clone") {
        Some(BuiltinCommand::Clone)
    } else if str_eq(text, "/tree") {
        Some(BuiltinCommand::Tree)
    } else if str_eq(text, "/trust") {
        Some(BuiltinCommand::Trust)
    } else if str_eq(text, "/logout") {
        Some(BuiltinCommand::Logout)
    } else if str_eq(text, "/new") {
        Some(BuiltinCommand::New)
    } else if str_eq(text, "/clear") {
        Some(BuiltinCommand::New)
    } else if str_eq(text, "/reload") {
        Some(BuiltinCommand::Reload)
    } else if str_eq(text, "/debug") {
        Some(BuiltinCommand::Debug)
    } else if str_eq(text, "/arminsayshi") {
        Some(BuiltinCommand::ArminSaysHi)
    } else if str_eq(text, "/dementedelves") {
        Some(BuiltinCommand::DementedElves)
    } else if str_eq(text, "/resume") {
        Some(BuiltinCommand::Resume)
    } else if str_eq(text, "/quit") {
        Some(BuiltinCommand::Quit)
    } else if str_eq(text, "/exit") {
        Some(BuiltinCommand::Quit)
    } else {
        None
    }
}

/// The argument after the prefix of a command, if the line starts with it.
fn arg_after(text: &str, prefix: &str) -> (r: Option<Option<String>>)
    ensures
        match r {
            Some(arg) => prefix@.is_prefix_of(text@) && opt_text(arg) == argument(text@, prefix@),
            None => !prefix@.is_prefix_of(text@),
        },
{
    let chars = chars_of(text);
    let start = chars_of(prefix);
    if !has_prefix(chars.as_slice(), start.as_slice()) {
        return None;
    }
    let rest = slice_subrange(chars.as_slice(), start.len(), chars.len());
    assert(rest@ =~= text@.skip(prefix@.len() as int));
    let arg = trim_slice(rest);
    if arg.len() == 0 {
        Some(None)
    } else {
        Some(Some(string_of(arg)))
    }
}

/// The line without the command that it starts with.
fn after_command(text: &str, command: &str) -> (r: String)
    requires
        command@.len() <= text@.len(),
    ensures
        r@ == rest_after(text@, command@),
{
    let chars = chars_of(text);
    let rest = slice_subrange(chars.as_slice(), chars_of(command).len(), chars.len());
    assert(rest@ =~= rest_after(text@, command@));
    string_of(rest)
}

/// The built-in command that the line is.
pub fn parse_builtin(text: &str) -> (r: Option<BuiltinCommand>)
    ensures
        builtin_opt(r) == builtin_command(text@),
{
    if let Some(command) = parse_plain(text) {
        return Some(command);
    }
    if str_eq(text, "/model") {
        return Some(BuiltinCommand::Model { search: None });
    }
    if str_eq(text, "/export") {
        return Some(BuiltinCommand::Export { raw: after_command(text, "/export") });
    }
    if str_eq(text, "/import") {
        return Some(BuiltinCommand::Import { raw: text.to_owned() });
    }
    if str_eq(text, "/name") {
        return Some(BuiltinCommand::Name { raw: text.to_owned() });
    }
    if str_eq(text, "/login") {
        return Some(BuiltinCommand::Login { provider: None });
    }
    if str_eq(text, "/compact") {
        return Some(BuiltinCommand::Compact { instructions: None });
    }
    if let Some(search) = arg_after(text, "/model ") {
        return Some(BuiltinCommand::Model { search });
    }
    if arg_after(text, "/export ").is_some() {
        proof {
            reveal_strlit("/export");
            reveal_strlit("/export ");
        }
        return Some(BuiltinCommand::Export { raw: after_command(text, "/export") });
    }
    if arg_after(text, "/import ").is_some() {
        return Some(BuiltinCommand::Import { raw: text.to_owned() });
    }
    if arg_after(text, "/name ").is_some() {
        return Some(BuiltinCommand::Name { raw: text.to_owned() });
    }
    if let Some(provider) = arg_after(text, "/login ") {
        return Some(BuiltinCommand::Login { provider });
    }
    if let Some(instructions) = arg_after(text, "/compact ") {
        return Some(BuiltinCommand::Compact { instructions });
    }
    None
}

/// Session state that a submitted line is judged by.
#[derive(Debug)]
pub struct DispatchContext {
    pub is_compacting: bool,
    pub is_streaming: bool,
    pub is_bash_running: bool,
    /// Extension-registered command names.
    pub extension_commands: Vec<String>,
}

/// The name of the slash command that the line starts with.
pub open spec fn slash_name(text: Seq<char>) -> Option<Seq<char>> {
    if text.len() > 0 && text[0] == '/' {
        let rest = text.skip(1);
        Some(rest.take(index_of_char(rest, ' ') as int))
    } else {
        None
    }
}

impl DispatchContext {
    /// Whether the line is a command that an extension registered.
    pub open spec fn has_command(&self, text: Seq<char>) -> bool {
        slash_name(text) is Some && exists|i: int|
            0 <= i < self.extension_commands.len() && (#[trigger] self.extension_commands[i])@
                == slash_name(text)->0
    }

    /// Whether the line is a command that an extension registered.
    #[must_use]
    pub fn is_extension_command(&self, text: &str) -> (r: bool)
        ensures
            r == self.has_command(text@),
    {
        let chars = chars_of(text);
        if chars.len() == 0 || chars[0] != '/' {
            return false;
        }
        let rest = slice_subrange(chars.as_slice(), 1, chars.len());
        assert(rest@ =~= text@.skip(1));
        let end = position_of(rest, 0, ' ');
        assert(rest@.skip(0) =~= rest@);
        let name = string_of(slice_subrange(rest, 0, end));
        assert(name@ =~= rest@.take(index_of_char(rest@, ' ') as int));
        let mut i: usize = 0;
        while i < self.extension_commands.len()
            invariant
                i <= self.extension_commands.len(),
                slash_name(text@) == Some(name@),
                forall|j: int| 0 <= j < i ==> (#[trigger] self.extension_commands[j])@ != name@,
            decreases self.extension_commands.len() - i,
        {
            if str_eq(self.extension_commands[i].as_str(), name.as_str()) {
                assert(self.extension_commands@[i as int]@ == name@);
                return true;
            }
            i = i + 1;
        }
        false
    }
}

/// The action that one submitted line asks for.
#[derive(Debug, PartialEq, Eq)]
pub enum DispatchAction {
    /// Nothing was entered.
    Nothing,
    /// A built-in slash command.
    Builtin(BuiltinCommand),
    /// `!cmd`, or `!!cmd` to keep the output out of the context: run the command.
    Bash { command: String, excluded: bool },
    /// A command while one is running: warn and restore the editor's text.
    BashBusy { original_text: String },
    /// An extension's command during compaction: run at once.
    ExtensionDuringCompaction { text: String },
    /// During compaction: queue until it is done.
    QueueCompaction { text: String },
    /// While a response is streaming: steer it.
    SteerStreaming { text: String },
    /// A normal prompt.
    Prompt { text: String },
}

/// The content of an action.
#[verifier::ext_equal]
pub enum DispatchView {
    Nothing,
    Builtin(BuiltinView),
    Bash { command: Seq<char>, excluded: bool },
    BashBusy { original_text: Seq<char> },
    ExtensionDuringCompaction { text: Seq<char> },
    QueueCompaction { text: Seq<char> },
    SteerStreaming { text: Seq<char> },
    Prompt { text: Seq<char> },
}

impl View for DispatchAction {
    type V = DispatchView;

    open spec fn view(&self) -> DispatchView {
        match self {
            DispatchAction::Nothing => DispatchView::Nothing,
            DispatchAction::Builtin(command) => DispatchView::Builtin(command@),
            DispatchAction::Bash { command, excluded } => DispatchView::Bash {
                command: command@,
                excluded: *excluded,
            },
            DispatchAction::BashBusy { original_text } => DispatchView::BashBusy {
                original_text: original_text@,
            },
            DispatchAction::ExtensionDuringCompaction { text } => {
                DispatchView::ExtensionDuringCompaction { text: text@ }
            },
            DispatchAction::QueueCompaction { text } => DispatchView::QueueCompaction {
                text: text@,
            },
            DispatchAction::SteerStreaming { text } => DispatchView::SteerStreaming { text: text@ },
            DispatchAction::Prompt { text } => DispatchView::Prompt { text: text@ },
        }
    }
}

/// Whether the line asks for bash output to be kept out of the context.
pub open spec fn is_excluded(text: Seq<char>) -> bool {
    text.len() > 1 && text[0] == '!' && text[1] == '!'
}

/// The bash command of the line; a bare `!` or `!!` has none.
pub open spec fn bash_command(text: Seq<char>) -> Option<Seq<char>> {
    if text.len() > 0 && text[0] == '!' {
        let command = trim(
            text.skip(
                if is_excluded(text) {
                    2
                } else {
                    1
                },
            ),
        );
        if command.len() > 0 {
            Some(command)
        } else {
            None
        }
    } else {
        None
    }
}

/// What a line that is neither a built-in command nor bash asks for.
pub open spec fn gated(text: Seq<char>, ctx: DispatchContext) -> DispatchView {
    if ctx.is_compacting {
        if ctx.has_command(text) {
            DispatchView::ExtensionDuringCompaction { text }
        } else {
            DispatchView::QueueCompaction { text }
        }
    } else if ctx.is_streaming {
        DispatchView::SteerStreaming { text }
    } else {
        DispatchView::Prompt { text }
    }
}

/// What a submitted line asks for.
pub open spec fn dispatched(input: Seq<char>, ctx: DispatchContext) -> DispatchView {
    let text = trim(input);
    if text.len() == 0 {
        DispatchView::Nothing
    } else if builtin_command(text) is Some {
        DispatchView::Builtin(builtin_command(text)->0)
    } else {
        match bash_command(text) {
            Some(command) => if ctx.is_bash_running {
                DispatchView::BashBusy { original_text: text }
            } else {
                DispatchView::Bash { command, excluded: is_excluded(text) }
            },
            None => gated(text, ctx),
        }
    }
}

fn parse_bash(chars: &Vec<char>) -> (r: Option<(String, bool)>)
    ensures
        match r {
            Some((command, excluded)) => bash_command(chars@) == Some(command@) && excluded
                == is_excluded(chars@),
            None => bash_command(chars@) is None,
        },
{
    if chars.len() == 0 || chars[0] != '!' {
        return None;
    }
    let excluded = chars.len() > 1 && chars[1] == '!';
    let start: usize = if excluded {
        2
    } else {
        1
    };
    let rest = slice_subrange(chars.as_slice(), start, chars.len());
    assert(rest@ =~= chars@.skip(start as int));
    let command = trim_slice(rest);
    if command.len() == 0 {
        None
    } else {
        Some((string_of(command), excluded))
    }
}

/// What a submitted line asks for.
#[must_use]
pub fn dispatch_input(input: &str, ctx: &DispatchContext) -> (r: DispatchAction)
    ensures
        r@ == dispatched(input@, *ctx),
{
    let all = chars_of(input);
    let text = string_of(trim_slice(all.as_slice()));
    if text.as_str().is_empty() {
        return DispatchAction::Nothing;
    }
    if let Some(command) = parse_builtin(text.as_str()) {
        return DispatchAction::Builtin(command);
    }
    let chars = chars_of(text.as_str());
    if let Some((command, excluded)) = parse_bash(&chars) {
        if ctx.is_bash_running {
            return DispatchAction::BashBusy { original_text: text };
        }
        return DispatchAction::Bash { command, excluded };
    }
    if ctx.is_compacting {
        if ctx.is_extension_command(text.as_str()) {
            return DispatchAction::ExtensionDuringCompaction { text };
        }
        return DispatchAction::QueueCompaction { text };
    }
    if ctx.is_streaming {
        return DispatchAction::SteerStreaming { text };
    }
    DispatchAction::Prompt { text }
}

/// Built-in commands come before everything else: they run whatever the session is doing.
pub proof fn builtins_ignore_the_session(
    input: Seq<char>,
    ctx: DispatchContext,
    other: DispatchContext,
)
    requires
        builtin_command(trim(input)) is Some,
        trim(input).len() > 0,
    ensures
        dispatched(input, ctx) == dispatched(input, other),
        dispatched(input, ctx) == DispatchView::Builtin(builtin_command(trim(input))->0),
{
}

/// A line that is neither a built-in command nor bash is never lost: it is passed on whole, now or
/// after compaction.
pub proof fn text_is_passed_on_whole(input: Seq<char>, ctx: DispatchContext)
    requires
        trim(input).len() > 0,
        builtin_command(trim(input)) is None,
        bash_command(trim(input)) is None,
    ensures
        match dispatched(input, ctx) {
            DispatchView::ExtensionDuringCompaction { text } => text == trim(input)
                && ctx.is_compacting && ctx.has_command(text),
            DispatchView::QueueCompaction { text } => text == trim(input) && ctx.is_compacting,
            DispatchView::SteerStreaming { text } => text == trim(input) && ctx.is_streaming,
            DispatchView::Prompt { text } => text == trim(input) && !ctx.is_compacting
                && !ctx.is_streaming,
            _ => false,
        },
{
}

/// A line with a space right after a name of four or six letters is no command without arguments.
proof fn lemma_no_plain_command(text: Seq<char>)
    requires
        (text.len() > 5 && text[5] == ' ') || (text.len() > 7 && text[7] == ' '),
    ensures
        plain_command(text) is None,
        text != "/model"@,
        text != "/export"@,
        text != "/import"@,
        text != "/name"@,
        text != "/login"@,
        text != "/compact"@,
{
    reveal_strlit("/settings");
    reveal_strlit("/scoped-models");
    reveal_strlit("/share");
    reveal_strlit("/copy");
    reveal_strlit("/session");
    reveal_strlit("/changelog");
    reveal_strlit("/sessions");
    reveal_strlit("/theme");
    reveal_strlit("/themes");
    reveal_strlit("/thinking");
    reveal_strlit("/images");
    reveal_strlit("/help");
    reveal_strlit("/hotkeys");
    reveal_strlit("/fork");
    reveal_strlit("/clone");
    reveal_strlit("/tree");
    reveal_strlit("/trust");
    reveal_strlit("/logout");
    reveal_strlit("/new");
    reveal_strlit("/clear");
    reveal_strlit("/reload");
    reveal_strlit("/debug");
    reveal_strlit("/arminsayshi");
    reveal_strlit("/dementedelves");
    reveal_strlit("/resume");
    reveal_strlit("/quit");
    reveal_strlit("/exit");
    reveal_strlit("/model");
    reveal_strlit("/export");
    reveal_strlit("/import");
    reveal_strlit("/name");
    reveal_strlit("/login");
    reveal_strlit("/compact");
}

/// What `/export` takes over is the argument alone: without the spaces around it, it is what stands
/// after the command. `/import` and `/name` take over the whole line.
pub proof fn raw_arguments_are_taken_over(arg: Seq<char>)
    requires
        arg.len() > 0,
        !is_whitespace(arg[0]),
        !is_whitespace(arg.last()),
    ensures
        builtin_command("/export "@ + arg) == Some(BuiltinView::Export(seq![' '] + arg)),
        trim(seq![' '] + arg) == arg,
        builtin_command("/import "@ + arg) == Some(BuiltinView::Import("/import "@ + arg)),
        builtin_command("/name "@ + arg) == Some(BuiltinView::Name("/name "@ + arg)),
{
    let raw = seq![' '] + arg;
    reveal_strlit("/export");
    reveal_strlit("/model ");
    reveal_strlit("/export ");
    reveal_strlit("/import ");
    reveal_strlit("/name ");
    let export = "/export "@ + arg;
    let import = "/import "@ + arg;
    let name = "/name "@ + arg;
    assert(raw.skip(1) =~= arg);
    assert(trim_start(raw) == trim_start(arg));
    lemma_no_plain_command(export);
    lemma_no_plain_command(import);
    lemma_no_plain_command(name);
    assert(export[1] == 'e' && import[1] == 'i' && name[1] == 'n');
    assert("/export "@.is_prefix_of(export));
    assert("/import "@.is_prefix_of(import));
    assert("/name "@.is_prefix_of(name));
    assert("/model "@[1] == 'm' && "/export "@[1] == 'e' && "/import "@[1] == 'i');
    assert(rest_after(export, "/export"@) =~= raw);
}

/// No bash command starts while one is running, nor while the line is empty after its marks.
pub proof fn bash_runs_alone(input: Seq<char>, ctx: DispatchContext)
    ensures
        dispatched(input, ctx) matches DispatchView::Bash { command, excluded }
            ==> !ctx.is_bash_running && command.len() > 0 && bash_command(trim(input)) == Some(
            command,
        ),
{
}

/// Every command that is offered is recognized when it is entered.
pub proof fn offered_commands_are_recognized(i: int)
    requires
        0 <= i < slash_commands().len(),
    ensures
        builtin_command("/"@ + slash_commands()[i].name) is Some,
{
    reveal_strlit("/");
    reveal_strlit("settings");
    reveal_strlit("/settings");
    reveal_strlit("model");
    reveal_strlit("/model");
    reveal_strlit("scoped-models");
    reveal_strlit("/scoped-models");
    reveal_strlit("export");
    reveal_strlit("/export");
    reveal_strlit("import");
    reveal_strlit("/import");
    reveal_strlit("share");
    reveal_strlit("/share");
    reveal_strlit("copy");
    reveal_strlit("/copy");
    reveal_strlit("name");
    reveal_strlit("/name");
    reveal_strlit("session");
    reveal_strlit("/session");
    reveal_strlit("changelog");
    reveal_strlit("/changelog");
    reveal_strlit("hotkeys");
    reveal_strlit("/hotkeys");
    reveal_strlit("fork");
    reveal_strlit("/fork");
    reveal_strlit("clone");
    reveal_strlit("/clone");
    reveal_strlit("tree");
    reveal_strlit("/tree");
    reveal_strlit("trust");
    reveal_strlit("/trust");
    reveal_strlit("login");
    reveal_strlit("/login");
    reveal_strlit("logout");
    reveal_strlit("/logout");
    reveal_strlit("new");
    reveal_strlit("/new");
    reveal_strlit("compact");
    reveal_strlit("/compact");
    reveal_strlit("resume");
    reveal_strlit("/resume");
    reveal_strlit("reload");
    reveal_strlit("/reload");
    reveal_strlit("quit");
    reveal_strlit("/quit");
    assert("/"@ + "settings"@ =~= "/settings"@);
    assert("/"@ + "model"@ =~= "/model"@);
    assert("/"@ + "scoped-models"@ =~= "/scoped-models"@);
    assert("/"@ + "export"@ =~= "/export"@);
    assert("/"@ + "import"@ =~= "/import"@);
    assert("/"@ + "share"@ =~= "/share"@);
    assert("/"@ + "copy"@ =~= "/copy"@);
    assert("/"@ + "name"@ =~= "/name"@);
    assert("/"@ + "session"@ =~= "/session"@);
    assert("/"@ + "changelog"@ =~= "/changelog"@);
    assert("/"@ + "hotkeys"@ =~= "/hotkeys"@);
    assert("/"@ + "fork"@ =~= "/fork"@);
    assert("/"@ + "clone"@ =~= "/clone"@);
    assert("/"@ + "tree"@ =~= "/tree"@);
    assert("/"@ + "trust"@ =~= "/trust"@);
    assert("/"@ + "login"@ =~= "/login"@);
    assert("/"@ + "logout"@ =~= "/logout"@);
    assert("/"@ + "new"@ =~= "/new"@);
    assert("/"@ + "compact"@ =~= "/compact"@);
    assert("/"@ + "resume"@ =~= "/resume"@);
    assert("/"@ + "reload"@ =~= "/reload"@);
    assert("/"@ + "quit"@ =~= "/quit"@);
}

} // verus!
