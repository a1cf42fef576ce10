//! What a submitted line leads to: which command answers to which name, what its argument is, and
//! where any other line goes.

use crate::dispatch::{
    builtin_command, dispatched, plain_command, slash_commands, BuiltinView, DispatchContext,
    DispatchView,
};
use crate::text::{
    index_of_char, is_blank, is_whitespace, lemma_index_of_char_bounds, lemma_trim_empty, trim,
    trim_end, trim_start,
};
use vstd::prelude::*;
use vstd::string::*;

verus! {

broadcast use vstd::string::group_string_axioms;

/// The names that a command answers to, the one that it is offered under first.
pub open spec fn names_of(command: BuiltinView) -> Seq<Seq<char>> {
    match command {
        BuiltinView::Settings => seq!["settings"@],
        BuiltinView::ScopedModels => seq!["scoped-models"@],
        BuiltinView::Share => seq!["share"@],
        BuiltinView::Copy => seq!["copy"@],
        BuiltinView::Session => seq!["session"@],
        BuiltinView::Changelog => seq!["changelog"@],
        BuiltinView::Resume => seq!["resume"@, "sessions"@],
        BuiltinView::Theme => seq!["theme"@, "themes"@],
        BuiltinView::Thinking => seq!["thinking"@],
        BuiltinView::Images => seq!["images"@],
        BuiltinView::Help => seq!["help"@],
        BuiltinView::Hotkeys => seq!["hotkeys"@],
        BuiltinView::Fork => seq!["fork"@],
        BuiltinView::Clone => seq!["clone"@],
        BuiltinView::Tree => seq!["tree"@],
        BuiltinView::Trust => seq!["trust"@],
        BuiltinView::Logout => seq!["logout"@],
        BuiltinView::New => seq!["new"@, "clear"@],
        BuiltinView::Reload => seq!["reload"@],
        BuiltinView::Debug => seq!["debug"@],
        BuiltinView::ArminSaysHi => seq!["arminsayshi"@],
        BuiltinView::DementedElves => seq!["dementedelves"@],
        BuiltinView::Quit => seq!["quit"@, "exit"@],
        BuiltinView::Model(_) => seq!["model"@],
        BuiltinView::Export(_) => seq!["export"@],
        BuiltinView::Import(_) => seq!["import"@],
        BuiltinView::Name(_) => seq!["name"@],
        BuiltinView::Login(_) => seq!["login"@],
        BuiltinView::Compact(_) => seq!["compact"@],
    }
}

/// Whether a command takes what stands after its name.
pub open spec fn takes_argument(command: BuiltinView) -> bool {
    match command {
        BuiltinView::Model(_) | BuiltinView::Export(_) | BuiltinView::Import(_) | BuiltinView::Name(_) | BuiltinView::Login(_) | BuiltinView::Compact(_) => true,
        _ => false,
    }
}

/// Whether the line is the slash command with the name: the name alone, or followed by a space.
pub open spec fn calls(text: Seq<char>, name: Seq<char>) -> bool {
    text == "/"@ + name || ("/"@ + name + " "@).is_prefix_of(text)
}

/// The names of the commands, each with the slash before it.
proof fn lemma_command_lines()
    ensures
        "/"@ + "settings"@ == "/settings"@,
        "/"@ + "scoped-models"@ == "/scoped-models"@,
        "/"@ + "share"@ == "/share"@,
        "/"@ + "copy"@ == "/copy"@,
        "/"@ + "session"@ == "/session"@,
        "/"@ + "changelog"@ == "/changelog"@,
        "/"@ + "resume"@ == "/resume"@,
        "/"@ + "sessions"@ == "/sessions"@,
        "/"@ + "theme"@ == "/theme"@,
        "/"@ + "themes"@ == "/themes"@,
        "/"@ + "thinking"@ == "/thinking"@,
        "/"@ + "images"@ == "/images"@,
        "/"@ + "help"@ == "/help"@,
        "/"@ + "hotkeys"@ == "/hotkeys"@,
        "/"@ + "fork"@ == "/fork"@,
        "/"@ + "clone"@ == "/clone"@,
        "/"@ + "tree"@ == "/tree"@,
        "/"@ + "trust"@ == "/trust"@,
        "/"@ + "logout"@ == "/logout"@,
        "/"@ + "new"@ == "/new"@,
        "/"@ + "clear"@ == "/clear"@,
        "/"@ + "reload"@ == "/reload"@,
        "/"@ + "debug"@ == "/debug"@,
        "/"@ + "arminsayshi"@ == "/arminsayshi"@,
        "/"@ + "dementedelves"@ == "/dementedelves"@,
        "/"@ + "quit"@ == "/quit"@,
        "/"@ + "exit"@ == "/exit"@,
        "/"@ + "model"@ == "/model"@,
        "/"@ + "export"@ == "/export"@,
        "/"@ + "import"@ == "/import"@,
        "/"@ + "name"@ == "/name"@,
        "/"@ + "login"@ == "/login"@,
        "/"@ + "compact"@ == "/compact"@,
{
    reveal_strlit("/");
    reveal_strlit("settings");
    reveal_strlit("/settings");
    assert("/"@ + "settings"@ =~= "/settings"@);
    reveal_strlit("scoped-models");
    reveal_strlit("/scoped-models");
    assert("/"@ + "scoped-models"@ =~= "/scoped-models"@);
    reveal_strlit("share");
    reveal_strlit("/share");
    assert("/"@ + "share"@ =~= "/share"@);
    reveal_strlit("copy");
    reveal_strlit("/copy");
    assert("/"@ + "copy"@ =~= "/copy"@);
    reveal_strlit("session");
    reveal_strlit("/session");
    assert("/"@ + "session"@ =~= "/session"@);
    reveal_strlit("changelog");
    reveal_strlit("/changelog");
    assert("/"@ + "changelog"@ =~= "/changelog"@);
    reveal_strlit("resume");
    reveal_strlit("/resume");
    assert("/"@ + "resume"@ =~= "/resume"@);
    reveal_strlit("sessions");
    reveal_strlit("/sessions");
    assert("/"@ + "sessions"@ =~= "/sessions"@);
    reveal_strlit("theme");
    reveal_strlit("/theme");
    assert("/"@ + "theme"@ =~= "/theme"@);
    reveal_strlit("themes");
    reveal_strlit("/themes");
    assert("/"@ + "themes"@ =~= "/themes"@);
    reveal_strlit("thinking");
    reveal_strlit("/thinking");
    assert("/"@ + "thinking"@ =~= "/thinking"@);
    reveal_strlit("images");
    reveal_strlit("/images");
    assert("/"@ + "images"@ =~= "/images"@);
    reveal_strlit("help");
    reveal_strlit("/help");
    assert("/"@ + "help"@ =~= "/help"@);
    reveal_strlit("hotkeys");
    reveal_strlit("/hotkeys");
    assert("/"@ + "hotkeys"@ =~= "/hotkeys"@);
    reveal_strlit("fork");
    reveal_strlit("/fork");
    assert("/"@ + "fork"@ =~= "/fork"@);
    reveal_strlit("clone");
    reveal_strlit("/clone");
    assert("/"@ + "clone"@ =~= "/clone"@);
    reveal_strlit("tree");
    reveal_strlit("/tree");
    assert("/"@ + "tree"@ =~= "/tree"@);
    reveal_strlit("trust");
    reveal_strlit("/trust");
    assert("/"@ + "trust"@ =~= "/trust"@);
    reveal_strlit("logout");
    reveal_strlit("/logout");
    assert("/"@ + "logout"@ =~= "/logout"@);
    reveal_strlit("new");
    reveal_strlit("/new");
    assert("/"@ + "new"@ =~= "/new"@);
    reveal_strlit("clear");
    reveal_strlit("/clear");
    assert("/"@ + "clear"@ =~= "/clear"@);
    reveal_strlit("reload");
    reveal_strlit("/reload");
    assert("/"@ + "reload"@ =~= "/reload"@);
    reveal_strlit("debug");
    reveal_strlit("/debug");
    assert("/"@ + "debug"@ =~= "/debug"@);
    reveal_strlit("arminsayshi");
    reveal_strlit("/arminsayshi");
    assert("/"@ + "arminsayshi"@ =~= "/arminsayshi"@);
    reveal_strlit("dementedelves");
    reveal_strlit("/dementedelves");
    assert("/"@ + "dementedelves"@ =~= "/dementedelves"@);
    reveal_strlit("quit");
    reveal_strlit("/quit");
    assert("/"@ + "quit"@ =~= "/quit"@);
    reveal_strlit("exit");
    reveal_strlit("/exit");
    assert("/"@ + "exit"@ =~= "/exit"@);
    reveal_strlit("model");
    reveal_strlit("/model");
    assert("/"@ + "model"@ =~= "/model"@);
    reveal_strlit("export");
    reveal_strlit("/export");
    assert("/"@ + "export"@ =~= "/export"@);
    reveal_strlit("import");
    reveal_strlit("/import");
    assert("/"@ + "import"@ =~= "/import"@);
    reveal_strlit("name");
    reveal_strlit("/name");
    assert("/"@ + "name"@ =~= "/name"@);
    reveal_strlit("login");
    reveal_strlit("/login");
    assert("/"@ + "login"@ =~= "/login"@);
    reveal_strlit("compact");
    reveal_strlit("/compact");
    assert("/"@ + "compact"@ =~= "/compact"@);
}

/// How the lines of the commands differ from each other.
proof fn lemma_lines_differ()
    ensures
        "/settings"@.len() == 9,
        "/settings"@[0] == '/',
        "/settings"@[1] == 's',
        "/settings"@[3] == 't',
        "/scoped-models"@.len() == 14,
        "/scoped-models"@[0] == '/',
        "/scoped-models"@[1] == 's',
        "/scoped-models"@[3] == 'o',
        "/share"@.len() == 6,
        "/share"@[0] == '/',
        "/share"@[1] == 's',
        "/share"@[3] == 'a',
        "/copy"@.len() == 5,
        "/copy"@[0] == '/',
        "/copy"@[1] == 'c',
        "/copy"@[3] == 'p',
        "/session"@.len() == 8,
        "/session"@[0] == '/',
        "/session"@[1] == 's',
        "/session"@[3] == 's',
        "/changelog"@.len() == 10,
        "/changelog"@[0] == '/',
        "/changelog"@[1] == 'c',
        "/changelog"@[3] == 'a',
        "/resume"@.len() == 7,
        "/resume"@[0] == '/',
        "/resume"@[1] == 'r',
        "/resume"@[3] == 's',
        "/sessions"@.len() == 9,
        "/sessions"@[0] == '/',
        "/sessions"@[1] == 's',
        "/sessions"@[3] == 's',
        "/theme"@.len() == 6,
        "/theme"@[0] == '/',
        "/theme"@[1] == 't',
        "/theme"@[3] == 'e',
        "/themes"@.len() == 7,
        "/themes"@[0] == '/',
        "/themes"@[1] == 't',
        "/themes"@[3] == 'e',
        "/thinking"@.len() == 9,
        "/thinking"@[0] == '/',
        "/thinking"@[1] == 't',
        "/thinking"@[3] == 'i',
        "/images"@.len() == 7,
        "/images"@[0] == '/',
        "/images"@[1] == 'i',
        "/images"@[3] == 'a',
        "/help"@.len() == 5,
        "/help"@[0] == '/',
        "/help"@[1] == 'h',
        "/help"@[3] == 'l',
        "/hotkeys"@.len() == 8,
        "/hotkeys"@[0] == '/',
        "/hotkeys"@[1] == 'h',
        "/hotkeys"@[3] == 't',
        "/fork"@.len() == 5,
        "/fork"@[0] == '/',
        "/fork"@[1] == 'f',
        "/fork"@[3] == 'r',
        "/clone"@.len() == 6,
        "/clone"@[0] == '/',
        "/clone"@[1] == 'c',
        "/clone"@[3] == 'o',
        "/tree"@.len() == 5,
        "/tree"@[0] == '/',
        "/tree"@[1] == 't',
        "/tree"@[3] == 'e',
        "/trust"@.len() == 6,
        "/trust"@[0] == '/',
        "/trust"@[1] == 't',
        "/trust"@[3] == 'u',
        "/logout"@.len() == 7,
        "/logout"@[0] == '/',
        "/logout"@[1] == 'l',
        "/logout"@[3] == 'g',
        "/new"@.len() == 4,
        "/new"@[0] == '/',
        "/new"@[1] == 'n',
        "/new"@[3] == 'w',
        "/clear"@.len() == 6,
        "/clear"@[0] == '/',
        "/clear"@[1] == 'c',
        "/clear"@[3] == 'e',
        "/reload"@.len() == 7,
        "/reload"@[0] == '/',
        "/reload"@[1] == 'r',
        "/reload"@[3] == 'l',
        "/debug"@.len() == 6,
        "/debug"@[0] == '/',
        "/debug"@[1] == 'd',
        "/debug"@[3] == 'b',
        "/arminsayshi"@.len() == 12,
        "/arminsayshi"@[0] == '/',
        "/arminsayshi"@[1] == 'a',
        "/arminsayshi"@[3] == 'm',
        "/dementedelves"@.len() == 14,
        "/dementedelves"@[0] == '/',
        "/dementedelves"@[1] == 'd',
        "/dementedelves"@[3] == 'm',
        "/quit"@.len() == 5,
        "/quit"@[0] == '/',
        "/quit"@[1] == 'q',
        "/quit"@[3] == 'i',
        "/exit"@.len() == 5,
        "/exit"@[0] == '/',
        "/exit"@[1] == 'e',
        "/exit"@[3] == 'i',
        "/model"@.len() == 6,
        "/model"@[0] == '/',
        "/model"@[1] == 'm',
        "/model"@[3] == 'd',
        "/export"@.len() == 7,
        "/export"@[0] == '/',
        "/export"@[1] == 'e',
        "/export"@[3] == 'p',
        "/import"@.len() == 7,
        "/import"@[0] == '/',
        "/import"@[1] == 'i',
        "/import"@[3] == 'p',
        "/name"@.len() == 5,
        "/name"@[0] == '/',
        "/name"@[1] == 'n',
        "/name"@[3] == 'm',
        "/login"@.len() == 6,
        "/login"@[0] == '/',
        "/login"@[1] == 'l',
        "/login"@[3] == 'g',
        "/compact"@.len() == 8,
        "/compact"@[0] == '/',
        "/compact"@[1] == 'c',
        "/compact"@[3] == 'm',
{
    reveal_strlit("/settings");
    reveal_strlit("/scoped-models");
    reveal_strlit("/share");
    reveal_strlit("/copy");
    reveal_strlit("/session");
    reveal_strlit("/changelog");
    reveal_strlit("/resume");
    reveal_strlit("/sessions");
    reveal_strlit("/theme");
    reveal_strlit("/themes");
    reveal_strlit("/thinking");
    reveal_strlit("/images");
    reveal_strlit("/help");
    reveal_strlit("/hotkeys");
    reveal_strlit("/fork");
    reveal_strlit("/clone");
    reveal_strlit("/tree");
    reveal_strlit("/trust");
    reveal_strlit("/logout");
    reveal_strlit("/new");
    reveal_strlit("/clear");
    reveal_strlit("/reload");
    reveal_strlit("/debug");
    reveal_strlit("/arminsayshi");
    reveal_strlit("/dementedelves");
    reveal_strlit("/quit");
    reveal_strlit("/exit");
    reveal_strlit("/model");
    reveal_strlit("/export");
    reveal_strlit("/import");
    reveal_strlit("/name");
    reveal_strlit("/login");
    reveal_strlit("/compact");
}

/// How the names of the commands differ from each other.
proof fn lemma_names_differ()
    ensures
        "settings"@.len() == 8,
        "settings"@[0] == 's',
        "settings"@[2] == 't',
        "scoped-models"@.len() == 13,
        "scoped-models"@[0] == 's',
        "scoped-models"@[2] == 'o',
        "share"@.len() == 5,
        "share"@[0] == 's',
        "share"@[2] == 'a',
        "copy"@.len() == 4,
        "copy"@[0] == 'c',
        "copy"@[2] == 'p',
        "session"@.len() == 7,
        "session"@[0] == 's',
        "session"@[2] == 's',
        "changelog"@.len() == 9,
        "changelog"@[0] == 'c',
        "changelog"@[2] == 'a',
        "resume"@.len() == 6,
        "resume"@[0] == 'r',
        "resume"@[2] == 's',
        "sessions"@.len() == 8,
        "sessions"@[0] == 's',
        "sessions"@[2] == 's',
        "theme"@.len() == 5,
        "theme"@[0] == 't',
        "theme"@[2] == 'e',
        "themes"@.len() == 6,
        "themes"@[0] == 't',
        "themes"@[2] == 'e',
        "thinking"@.len() == 8,
        "thinking"@[0] == 't',
        "thinking"@[2] == 'i',
        "images"@.len() == 6,
        "images"@[0] == 'i',
        "images"@[2] == 'a',
        "help"@.len() == 4,
        "help"@[0] == 'h',
        "help"@[2] == 'l',
        "hotkeys"@.len() == 7,
        "hotkeys"@[0] == 'h',
        "hotkeys"@[2] == 't',
        "fork"@.len() == 4,
        "fork"@[0] == 'f',
        "fork"@[2] == 'r',
        "clone"@.len() == 5,
        "clone"@[0] == 'c',
        "clone"@[2] == 'o',
        "tree"@.len() == 4,
        "tree"@[0] == 't',
        "tree"@[2] == 'e',
        "trust"@.len() == 5,
        "trust"@[0] == 't',
        "trust"@[2] == 'u',
        "logout"@.len() == 6,
        "logout"@[0] == 'l',
        "logout"@[2] == 'g',
        "new"@.len() == 3,
        "new"@[0] == 'n',
        "new"@[2] == 'w',
        "clear"@.len() == 5,
        "clear"@[0] == 'c',
        "clear"@[2] == 'e',
        "reload"@.len() == 6,
        "reload"@[0] == 'r',
        "reload"@[2] == 'l',
        "debug"@.len() == 5,
        "debug"@[0] == 'd',
        "debug"@[2] == 'b',
        "arminsayshi"@.len() == 11,
        "arminsayshi"@[0] == 'a',
        "arminsayshi"@[2] == 'm',
        "dementedelves"@.len() == 13,
        "dementedelves"@[0] == 'd',
        "dementedelves"@[2] == 'm',
        "quit"@.len() == 4,
        "quit"@[0] == 'q',
        "quit"@[2] == 'i',
        "exit"@.len() == 4,
        "exit"@[0] == 'e',
        "exit"@[2] == 'i',
        "model"@.len() == 5,
        "model"@[0] == 'm',
        "model"@[2] == 'd',
        "export"@.len() == 6,
        "export"@[0] == 'e',
        "export"@[2] == 'p',
        "import"@.len() == 6,
        "import"@[0] == 'i',
        "import"@[2] == 'p',
        "name"@.len() == 4,
        "name"@[0] == 'n',
        "name"@[2] == 'm',
        "login"@.len() == 5,
        "login"@[0] == 'l',
        "login"@[2] == 'g',
        "compact"@.len() == 7,
        "compact"@[0] == 'c',
        "compact"@[2] == 'm',
{
    reveal_strlit("settings");
    reveal_strlit("scoped-models");
    reveal_strlit("share");
    reveal_strlit("copy");
    reveal_strlit("session");
    reveal_strlit("changelog");
    reveal_strlit("resume");
    reveal_strlit("sessions");
    reveal_strlit("theme");
    reveal_strlit("themes");
    reveal_strlit("thinking");
    reveal_strlit("images");
    reveal_strlit("help");
    reveal_strlit("hotkeys");
    reveal_strlit("fork");
    reveal_strlit("clone");
    reveal_strlit("tree");
    reveal_strlit("trust");
    reveal_strlit("logout");
    reveal_strlit("new");
    reveal_strlit("clear");
    reveal_strlit("reload");
    reveal_strlit("debug");
    reveal_strlit("arminsayshi");
    reveal_strlit("dementedelves");
    reveal_strlit("quit");
    reveal_strlit("exit");
    reveal_strlit("model");
    reveal_strlit("export");
    reveal_strlit("import");
    reveal_strlit("name");
    reveal_strlit("login");
    reveal_strlit("compact");
}

/// Each command is what its own names give.
pub proof fn commands_answer_to_their_names(command: BuiltinView, k: int)
    requires
        0 <= k < names_of(command).len(),
    ensures
        ({
            let given = builtin_command("/"@ + names_of(command)[k]);
            &&& given is Some
            &&& names_of(given->0) == names_of(command)
            &&& !takes_argument(command) ==> given == Some(command)
        }),
{
    lemma_command_lines();
    lemma_lines_differ();
}

/// A line gives no command but the one that it names.
pub proof fn a_line_gives_the_command_that_it_names(text: Seq<char>)
    requires
        builtin_command(text) is Some,
    ensures
        exists|k: int|
            0 <= k < names_of(builtin_command(text)->0).len() && calls(
                text,
                #[trigger] names_of(builtin_command(text)->0)[k],
            ),
        takes_argument(builtin_command(text)->0) || exists|k: int|
            0 <= k < names_of(builtin_command(text)->0).len() && text == "/"@
                + #[trigger] names_of(builtin_command(text)->0)[k],
{
    lemma_command_lines();
    lemma_prefixes();
    let names = names_of(builtin_command(text)->0);
    if names.len() == 1 {
        assert(calls(text, names[0]));
        assert(takes_argument(builtin_command(text)->0) || text == "/"@ + names[0]);
    } else {
        assert(text == "/"@ + names[0] || text == "/"@ + names[1]);
        if text == "/"@ + names[0] {
            assert(calls(text, names[0]));
        } else {
            assert(calls(text, names[1]));
        }
    }
}

/// No two commands share a name.
pub proof fn names_are_of_one_command(a: BuiltinView, b: BuiltinView, i: int, j: int)
    requires
        0 <= i < names_of(a).len(),
        0 <= j < names_of(b).len(),
        names_of(a)[i] == names_of(b)[j],
    ensures
        names_of(a) == names_of(b),
        i == j,
        !takes_argument(a) ==> a == b,
{
    lemma_names_differ();
}

/// The names of commands with an argument, each with the space behind it.
proof fn lemma_prefixes()
    ensures
        "/"@ + "model"@ + " "@ == "/model "@,
        "/"@ + "export"@ + " "@ == "/export "@,
        "/"@ + "import"@ + " "@ == "/import "@,
        "/"@ + "name"@ + " "@ == "/name "@,
        "/"@ + "login"@ + " "@ == "/login "@,
        "/"@ + "compact"@ + " "@ == "/compact "@,
{
    reveal_strlit("/");
    reveal_strlit(" ");
    reveal_strlit("model");
    reveal_strlit("/model ");
    assert("/"@ + "model"@ + " "@ =~= "/model "@);
    reveal_strlit("export");
    reveal_strlit("/export ");
    assert("/"@ + "export"@ + " "@ =~= "/export "@);
    reveal_strlit("import");
    reveal_strlit("/import ");
    assert("/"@ + "import"@ + " "@ =~= "/import "@);
    reveal_strlit("name");
    reveal_strlit("/name ");
    assert("/"@ + "name"@ + " "@ =~= "/name "@);
    reveal_strlit("login");
    reveal_strlit("/login ");
    assert("/"@ + "login"@ + " "@ =~= "/login "@);
    reveal_strlit("compact");
    reveal_strlit("/compact ");
    assert("/"@ + "compact"@ + " "@ =~= "/compact "@);
}

/// A line with a space where no name has one is no command without an argument.
proof fn lemma_spaced_line(text: Seq<char>, p: int)
    requires
        5 <= p <= 8,
        p < text.len(),
        text[p] == ' ',
    ensures
        plain_command(text) is None,
        text != "/model"@,
        text != "/export"@,
        text != "/import"@,
        text != "/name"@,
        text != "/login"@,
        text != "/compact"@,
{
    reveal_strlit("/settings");
    reveal_strlit("/scoped-models");
    reveal_strlit("/share");
    reveal_strlit("/copy");
    reveal_strlit("/session");
    reveal_strlit("/changelog");
    reveal_strlit("/resume");
    reveal_strlit("/sessions");
    reveal_strlit("/theme");
    reveal_strlit("/themes");
    reveal_strlit("/thinking");
    reveal_strlit("/images");
    reveal_strlit("/help");
    reveal_strlit("/hotkeys");
    reveal_strlit("/fork");
    reveal_strlit("/clone");
    reveal_strlit("/tree");
    reveal_strlit("/trust");
    reveal_strlit("/logout");
    reveal_strlit("/new");
    reveal_strlit("/clear");
    reveal_strlit("/reload");
    reveal_strlit("/debug");
    reveal_strlit("/arminsayshi");
    reveal_strlit("/dementedelves");
    reveal_strlit("/quit");
    reveal_strlit("/exit");
    reveal_strlit("/model");
    reveal_strlit("/export");
    reveal_strlit("/import");
    reveal_strlit("/name");
    reveal_strlit("/login");
    reveal_strlit("/compact");
    if p == 5 {
    } else if p == 6 {
    } else if p == 7 {
    } else {
    }
}

proof fn lemma_trimmed(s: Seq<char>)
    requires
        s.len() > 0,
        !is_whitespace(s[0]),
        !is_whitespace(s.last()),
    ensures
        trim(s) == s,
{
    assert(trim_start(s) == s);
}

/// A command with an argument gets what stands after its name, without the space around it; the name
/// alone gives it none.
pub proof fn arguments_are_handed_over(arg: Seq<char>)
    requires
        arg.len() > 0,
        !is_whitespace(arg[0]),
        !is_whitespace(arg.last()),
    ensures
        builtin_command("/model "@ + arg) == Some(BuiltinView::Model(Some(arg))),
        builtin_command("/login "@ + arg) == Some(BuiltinView::Login(Some(arg))),
        builtin_command("/compact "@ + arg) == Some(BuiltinView::Compact(Some(arg))),
        builtin_command("/model"@) == Some(BuiltinView::Model(None)),
        builtin_command("/login"@) == Some(BuiltinView::Login(None)),
        builtin_command("/compact"@) == Some(BuiltinView::Compact(None)),
{
    lemma_trimmed(arg);
    lemma_lines_differ();
    reveal_strlit("/model ");
    reveal_strlit("/export ");
    reveal_strlit("/import ");
    reveal_strlit("/name ");
    reveal_strlit("/login ");
    reveal_strlit("/compact ");
    let model = "/model "@ + arg;
    let login = "/login "@ + arg;
    let compact = "/compact "@ + arg;
    lemma_spaced_line(model, 6);
    lemma_spaced_line(login, 6);
    lemma_spaced_line(compact, 8);
    assert(model[1] == 'm' && login[1] == 'l' && compact[1] == 'c');
    assert("/model "@[1] == 'm' && "/export "@[1] == 'e' && "/import "@[1] == 'i' && "/name "@[1]
        == 'n' && "/login "@[1] == 'l' && "/compact "@[1] == 'c');
    assert("/model "@.is_prefix_of(model));
    assert("/login "@.is_prefix_of(login));
    assert("/compact "@.is_prefix_of(compact));
    assert(model.skip("/model "@.len() as int) =~= arg);
    assert(login.skip("/login "@.len() as int) =~= arg);
    assert(compact.skip("/compact "@.len() as int) =~= arg);
}

/// Every command that is offered is the one of that name, and no two of them are the same.
pub proof fn offered_commands_are_their_own(i: int, j: int)
    requires
        0 <= i < slash_commands().len(),
        0 <= j < slash_commands().len(),
    ensures
        ({
            let name = slash_commands()[i].name;
            let other = slash_commands()[j].name;
            let given = builtin_command("/"@ + name);
            &&& given is Some
            &&& names_of(given->0)[0] == name
            &&& given == builtin_command("/"@ + other) ==> i == j
        }),
{
    lemma_command_lines();
    lemma_lines_differ();
    lemma_names_differ();
}

/// A line that does not start with a slash is no command.
proof fn lemma_no_slash(text: Seq<char>)
    requires
        text.len() > 0,
        text[0] != '/',
    ensures
        builtin_command(text) is None,
{
    lemma_lines_differ();
    reveal_strlit("/model ");
    reveal_strlit("/export ");
    reveal_strlit("/import ");
    reveal_strlit("/name ");
    reveal_strlit("/login ");
    reveal_strlit("/compact ");
    assert("/model "@[0] == '/' && "/export "@[0] == '/' && "/import "@[0] == '/' && "/name "@[0]
        == '/' && "/login "@[0] == '/' && "/compact "@[0] == '/');
}

/// One mark runs a bash command with its output in the context, two marks keep the output out of it,
/// whatever else the session is doing. While a command is running the line is given back.
pub proof fn marks_choose_how_bash_runs(command: Seq<char>, ctx: DispatchContext)
    requires
        command.len() > 0,
        command[0] != '!',
        !is_whitespace(command[0]),
        !is_whitespace(command.last()),
    ensures
        ({
            let one = seq!['!'] + command;
            let two = seq!['!', '!'] + command;
            if ctx.is_bash_running {
                &&& dispatched(one, ctx) == (DispatchView::BashBusy { original_text: one })
                &&& dispatched(two, ctx) == (DispatchView::BashBusy { original_text: two })
            } else {
                &&& dispatched(one, ctx) == (DispatchView::Bash { command, excluded: false })
                &&& dispatched(two, ctx) == (DispatchView::Bash { command, excluded: true })
            }
        }),
{
    let one = seq!['!'] + command;
    let two = seq!['!', '!'] + command;
    assert(one.last() == command.last() && two.last() == command.last());
    lemma_trimmed(one);
    lemma_trimmed(two);
    lemma_trimmed(command);
    lemma_no_slash(one);
    lemma_no_slash(two);
    assert(one.skip(1) =~= command);
    assert(two.skip(2) =~= command);
    assert(one[1] == command[0]);
}

/// A line that is neither a command nor bash is queued while the session compacts, unless an extension
/// answers to it; otherwise it steers the response that is streaming; otherwise it is a prompt. What an
/// extension answers to makes no other difference.
pub proof fn lines_go_where_the_session_is(input: Seq<char>, ctx: DispatchContext)
    requires
        trim(input).len() > 0,
        trim(input)[0] != '!',
        builtin_command(trim(input)) is None,
    ensures
        ({
            let text = trim(input);
            let given = dispatched(input, ctx);
            &&& (given is Prompt) == (!ctx.is_compacting && !ctx.is_streaming)
            &&& (given is SteerStreaming) == (!ctx.is_compacting && ctx.is_streaming)
            &&& (given is QueueCompaction) == (ctx.is_compacting && !ctx.has_command(text))
            &&& (given is ExtensionDuringCompaction) == (ctx.is_compacting && ctx.has_command(text))
            &&& given matches DispatchView::Prompt { text: kept } ==> kept == text
            &&& given matches DispatchView::SteerStreaming { text: kept } ==> kept == text
            &&& given matches DispatchView::QueueCompaction { text: kept } ==> kept == text
            &&& given matches DispatchView::ExtensionDuringCompaction { text: kept } ==> kept == text
        }),
{
}

/// An extension answers to its command alone and followed by a space, and to no other line.
pub proof fn extensions_answer_to_their_names(ctx: DispatchContext, text: Seq<char>)
    requires
        forall|i: int|
            0 <= i < ctx.extension_commands.len() ==> !(
            #[trigger] ctx.extension_commands[i])@.contains(' '),
    ensures
        ctx.has_command(text) <==> exists|i: int|
            0 <= i < ctx.extension_commands.len() && calls(
                text,
                (#[trigger] ctx.extension_commands[i])@,
            ),
{
    reveal_strlit("/");
    reveal_strlit(" ");
    if text.len() > 0 && text[0] == '/' {
        let rest = text.skip(1);
        let n = index_of_char(rest, ' ') as int;
        let name = rest.take(n);
        lemma_index_of_char_bounds(rest, ' ');
        if ctx.has_command(text) {
            let i = choose|i: int|
                0 <= i < ctx.extension_commands.len() && (#[trigger] ctx.extension_commands[i])@ == name;
            if n == rest.len() {
                assert(text =~= "/"@ + name);
            } else {
                let line = "/"@ + name + " "@;
                assert(line =~= text.take(line.len() as int));
            }
            assert(calls(text, ctx.extension_commands[i]@));
        }
        assert forall|i: int|
            0 <= i < ctx.extension_commands.len() && calls(
                text,
                (#[trigger] ctx.extension_commands[i])@,
            ) implies ctx.extension_commands[i]@ == name by {
            let own = ctx.extension_commands[i]@;
            let line = "/"@ + own + " "@;
            if text == "/"@ + own {
                assert(rest =~= own);
                if n < rest.len() {
                    assert(own[n] == ' ');
                }
                assert(name =~= own);
            } else {
                assert(forall|j: int| 0 <= j < line.len() ==> text[j] == line[j]);
                assert(rest[own.len() as int] == line[own.len() as int + 1]);
                assert(n <= own.len()) by {
                    if n > own.len() {
                        assert(rest[own.len() as int] != ' ');
                    }
                }
                if n < own.len() {
                    assert(rest[n] == line[n + 1] && line[n + 1] == own[n]);
                }
                assert forall|j: int| 0 <= j < own.len() implies #[trigger] name[j] == own[j] by {
                    assert(name[j] == text[j + 1] && line[j + 1] == own[j]);
                }
                assert(name =~= own);
            }
        }
    } else {
        assert forall|i: int| 0 <= i < ctx.extension_commands.len() implies !calls(
            text,
            (#[trigger] ctx.extension_commands[i])@,
        ) by {
            let own = ctx.extension_commands[i]@;
            assert(("/"@ + own)[0] == '/' && ("/"@ + own + " "@)[0] == '/');
        }
    }
}

proof fn lemma_trim_start_blank(before: Seq<char>, s: Seq<char>)
    requires
        is_blank(before),
    ensures
        trim_start(before + s) == trim_start(s),
    decreases before.len(),
{
    if before.len() > 0 {
        let rest = before.skip(1);
        assert(is_whitespace(before[0]));
        assert((before + s).skip(1) =~= rest + s);
        assert forall|i: int| 0 <= i < rest.len() implies is_whitespace(#[trigger] rest[i]) by {
            assert(rest[i] == before[i + 1]);
        }
        lemma_trim_start_blank(rest, s);
    } else {
        assert(before + s =~= s);
    }
}

proof fn lemma_trim_end_blank(s: Seq<char>, after: Seq<char>)
    requires
        is_blank(after),
    ensures
        trim_end(s + after) == trim_end(s),
    decreases after.len(),
{
    if after.len() > 0 {
        let rest = after.drop_last();
        assert(is_whitespace(after[after.len() - 1]));
        assert((s + after).drop_last() =~= s + rest);
        assert forall|i: int| 0 <= i < rest.len() implies is_whitespace(#[trigger] rest[i]) by {
            assert(rest[i] == after[i]);
        }
        lemma_trim_end_blank(s, rest);
    } else {
        assert(s + after =~= s);
    }
}

proof fn lemma_trim_start_before(s: Seq<char>, after: Seq<char>)
    requires
        is_blank(after),
    ensures
        trim_end(trim_start(s + after)) == trim_end(trim_start(s)),
    decreases s.len(),
{
    if s.len() == 0 {
        assert(s + after =~= after + s);
        lemma_trim_start_blank(after, s);
    } else if is_whitespace(s[0]) {
        assert((s + after).skip(1) =~= s.skip(1) + after);
        lemma_trim_start_before(s.skip(1), after);
    } else {
        assert((s + after)[0] == s[0]);
        lemma_trim_end_blank(s, after);
    }
}

/// Space around a line makes no difference, and a line of nothing else asks for nothing.
pub proof fn space_around_a_line_is_ignored(
    before: Seq<char>,
    line: Seq<char>,
    after: Seq<char>,
    ctx: DispatchContext,
)
    requires
        is_blank(before),
        is_blank(after),
    ensures
        dispatched(before + line + after, ctx) == dispatched(line, ctx),
        dispatched(before, ctx) is Nothing,
        !is_blank(line) ==> !(dispatched(line, ctx) is Nothing),
{
    assert(before + line + after =~= before + (line + after));
    lemma_trim_start_blank(before, line + after);
    lemma_trim_start_before(line, after);
    lemma_trim_empty(before);
    lemma_trim_empty(line);
}

} // verus!
