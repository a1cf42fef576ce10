//! One-line descriptions of tool calls.

use crate::entries::{flattened, normalize, slice_utf16_prefix, utf16_prefix};
use crate::json::{
    json_compact, json_field, json_integer, read_json_field, read_json_integer, write_json_compact,
    JsonField, JsonFieldView,
};
use crate::session_selector::{shorten_path_with_home, shortened_path};
use crate::text::{
    chars_of, decimal, decimal_str, push_char, str_eq, utf16_len, utf16_len_of,
};
use vstd::prelude::*;
use vstd::string::*;

verus! {

/// The text of a field: a string itself, nothing for null, other values as JSON.
pub open spec fn field_text(field: JsonFieldView) -> Seq<char> {
    match field {
        JsonFieldView::Missing => Seq::empty(),
        JsonFieldView::Null => Seq::empty(),
        JsonFieldView::Text(text) => text,
        JsonFieldView::Other(text) => text,
    }
}

/// The arguments of a tool call, as far as its description needs them.
#[derive(Debug)]
pub struct ToolArguments {
    pub path: String,
    pub file_path: String,
    pub command: String,
    pub pattern: String,
    pub offset: Option<i64>,
    pub limit: Option<i64>,
    /// All of the arguments as JSON text.
    pub json: String,
}

/// The content of tool arguments.
#[verifier::ext_equal]
pub struct ArgumentsView {
    pub path: Seq<char>,
    pub file_path: Seq<char>,
    pub command: Seq<char>,
    pub pattern: Seq<char>,
    pub offset: Option<i64>,
    pub limit: Option<i64>,
    pub json: Seq<char>,
}

impl View for ToolArguments {
    type V = ArgumentsView;

    open spec fn view(&self) -> ArgumentsView {
        ArgumentsView {
            path: self.path@,
            file_path: self.file_path@,
            command: self.command@,
            pattern: self.pattern@,
            offset: self.offset,
            limit: self.limit,
            json: self.json@,
        }
    }
}

/// The arguments in a JSON text.
pub open spec fn arguments_in(json: Seq<char>) -> ArgumentsView {
    ArgumentsView {
        path: field_text(json_field(json, "path"@)),
        file_path: field_text(json_field(json, "file_path"@)),
        command: field_text(json_field(json, "command"@)),
        pattern: field_text(json_field(json, "pattern"@)),
        offset: json_integer(json, "offset"@),
        limit: json_integer(json, "limit"@),
        json: json_compact(json),
    }
}

/// The text of a field.
pub fn arg_text(field: JsonField) -> (r: String)
    ensures
        r@ == field_text(field@),
{
    match field {
        JsonField::Missing => String::new(),
        JsonField::Null => String::new(),
        JsonField::Text(text) => text,
        JsonField::Other(text) => text,
    }
}

/// The text of an argument in a JSON text.
pub fn arg_str(json: &str, key: &str) -> (r: String)
    ensures
        r@ == field_text(json_field(json@, key@)),
{
    arg_text(read_json_field(json, key))
}

/// Reads the arguments in a JSON text.
pub fn read_arguments(json: &str) -> (r: ToolArguments)
    ensures
        r@ == arguments_in(json@),
{
    ToolArguments {
        path: arg_str(json, "path"),
        file_path: arg_str(json, "file_path"),
        command: arg_str(json, "command"),
        pattern: arg_str(json, "pattern"),
        offset: read_json_integer(json, "offset"),
        limit: read_json_integer(json, "limit"),
        json: write_json_compact(json),
    }
}

/// The decimal form of an integer.
pub open spec fn signed_decimal(n: int) -> Seq<char> {
    if n < 0 {
        seq!['-'] + decimal((-n) as nat)
    } else {
        decimal(n as nat)
    }
}

/// The decimal form of an integer.
pub fn signed_decimal_str(n: i128) -> (r: String)
    requires
        n > i128::MIN,
    ensures
        r@ == signed_decimal(n as int),
{
    if n < 0 {
        let digits = decimal_str((-n) as u128);
        let mut r = String::new();
        push_char(&mut r, '-');
        r.append(digits.as_str());
        assert(r@ =~= seq!['-'] + digits@);
        r
    } else {
        decimal_str(n as u128)
    }
}

/// The lines that a call of `read` asks for: from `offset`, or from the first, `limit` many.
pub open spec fn line_range(offset: Option<i64>, limit: Option<i64>) -> Seq<char> {
    if offset is None && limit is None {
        Seq::empty()
    } else {
        let start = match offset {
            Some(offset) => offset as int,
            None => 1,
        };
        ":"@ + signed_decimal(start) + match limit {
            Some(limit) => "-"@ + signed_decimal(start + limit - 1),
            None => Seq::empty(),
        }
    }
}

fn line_range_str(offset: Option<i64>, limit: Option<i64>) -> (r: String)
    ensures
        r@ == line_range(offset, limit),
{
    if offset.is_none() && limit.is_none() {
        return String::new();
    }
    let start: i128 = match offset {
        Some(offset) => offset as i128,
        None => 1,
    };
    let mut r = ":".to_owned();
    r.append(signed_decimal_str(start).as_str());
    if let Some(limit) = limit {
        r.append("-");
        r.append(signed_decimal_str(start + limit as i128 - 1).as_str());
    }
    assert(r@ =~= line_range(offset, limit));
    r
}

/// The first of two texts that is not empty.
pub open spec fn or_else(a: Seq<char>, b: Seq<char>) -> Seq<char> {
    if a.len() == 0 {
        b
    } else {
        a
    }
}

fn non_empty_or<'a>(a: &'a str, b: &'a str) -> (r: &'a str)
    ensures
        r@ == or_else(a@, b@),
{
    if a.is_empty() {
        b
    } else {
        a
    }
}

/// The start of `shown`, with dots when `whole` is longer than that.
pub open spec fn abbreviated(shown: Seq<char>, whole: Seq<char>, n: int) -> Seq<char> {
    utf16_prefix(shown, n) + if utf16_len(whole) > n {
        "..."@
    } else {
        Seq::empty()
    }
}

fn abbreviate(shown: &str, whole: &str, n: usize) -> (r: String)
    ensures
        r@ == abbreviated(shown@, whole@, n as int),
{
    let mut r = slice_utf16_prefix(shown, n);
    let chars = chars_of(whole);
    if utf16_len_of(chars.as_slice()) > n as u128 {
        r.append("...");
    }
    assert(r@ =~= abbreviated(shown@, whole@, n as int));
    r
}

/// The description of a tool call.
pub open spec fn described_call(
    name: Seq<char>,
    args: ArgumentsView,
    home: Option<Seq<char>>,
) -> Seq<char> {
    let file = shortened_path(or_else(args.path, args.file_path), home);
    let place = shortened_path(or_else(args.path, "."@), home);
    if name == "read"@ {
        "[read: "@ + file + line_range(args.offset, args.limit) + "]"@
    } else if name == "write"@ {
        "[write: "@ + file + "]"@
    } else if name == "edit"@ {
        "[edit: "@ + file + "]"@
    } else if name == "bash"@ {
        "[bash: "@ + abbreviated(flattened(args.command), args.command, 50) + "]"@
    } else if name == "grep"@ {
        "[grep: /"@ + args.pattern + "/ in "@ + place + "]"@
    } else if name == "find"@ {
        "[find: "@ + args.pattern + " in "@ + place + "]"@
    } else if name == "ls"@ {
        "[ls: "@ + place + "]"@
    } else {
        "["@ + name + ": "@ + abbreviated(args.json, args.json, 40) + "]"@
    }
}

/// The description of a tool call with the given arguments. `home` is the user's home directory.
pub fn describe_call(name: &str, args: &ToolArguments, home: Option<&str>) -> (r: String)
    ensures
        r@ == described_call(
            name@,
            args@,
            match home {
                Some(home) => Some(home@),
                None => None,
            },
        ),
{
    let file = shorten_path_with_home(
        non_empty_or(args.path.as_str(), args.file_path.as_str()),
        home,
    );
    let place = shorten_path_with_home(non_empty_or(args.path.as_str(), "."), home);
    if str_eq(name, "read") {
        let range = line_range_str(args.offset, args.limit);
        "[read: ".to_owned().concat(file.as_str()).concat(range.as_str()).concat("]")
    } else if str_eq(name, "write") {
        "[write: ".to_owned().concat(file.as_str()).concat("]")
    } else if str_eq(name, "edit") {
        "[edit: ".to_owned().concat(file.as_str()).concat("]")
    } else if str_eq(name, "bash") {
        let command = abbreviate(
            normalize(args.command.as_str()).as_str(),
            args.command.as_str(),
            50,
        );
        "[bash: ".to_owned().concat(command.as_str()).concat("]")
    } else if str_eq(name, "grep") {
        "[grep: /".to_owned().concat(args.pattern.as_str()).concat("/ in ").concat(
            place.as_str(),
        ).concat("]")
    } else if str_eq(name, "find") {
        "[find: ".to_owned().concat(args.pattern.as_str()).concat(" in ").concat(
            place.as_str(),
        ).concat("]")
    } else if str_eq(name, "ls") {
        "[ls: ".to_owned().concat(place.as_str()).concat("]")
    } else {
        let json = abbreviate(args.json.as_str(), args.json.as_str(), 40);
        "[".to_owned().concat(name).concat(": ").concat(json.as_str()).concat("]")
    }
}

/// The description of a tool call with the arguments in a JSON text.
pub fn format_tool_call(name: &str, arguments: &str, home: Option<&str>) -> (r: String)
    ensures
        r@ == described_call(
            name@,
            arguments_in(arguments@),
            match home {
                Some(home) => Some(home@),
                None => None,
            },
        ),
{
    let args = read_arguments(arguments);
    describe_call(name, &args, home)
}

} // verus!
