//! Key matching and keybinding hints.

use crate::style::{colored, fg, push_span, spans, Span, SpanView, ThemeColor};
use crate::text::{
    char_texts, chars_of, join, join_strs, push_char, push_text, split, split_chars, str_eq, texts,
};
use vstd::prelude::*;
use vstd::slice::slice_subrange;
use vstd::string::*;

verus! {

/// The ids of the keybindings that a key press matches.
#[derive(Debug)]
pub struct KeyMatches {
    pub ids: Vec<String>,
}

impl KeyMatches {
    /// Whether the key press matches the keybinding.
    pub open spec fn has(&self, id: Seq<char>) -> bool {
        exists|i: int| 0 <= i < self.ids@.len() && (#[trigger] self.ids@[i])@ == id
    }

    /// Whether the key press matches the keybinding.
    pub fn matches(&self, id: &str) -> (r: bool)
        ensures
            r == self.has(id@),
    {
        let mut i: usize = 0;
        while i < self.ids.len()
            invariant
                i <= self.ids.len(),
                forall|j: int| 0 <= j < i ==> (#[trigger] self.ids@[j])@ != id@,
            decreases self.ids.len() - i,
        {
            if str_eq(self.ids[i].as_str(), id) {
                assert(self.ids@[i as int]@ == id@);
                return true;
            }
            i = i + 1;
        }
        false
    }
}

/// The keys bound to one keybinding.
#[derive(Debug)]
pub struct BoundKeys {
    pub id: String,
    pub keys: Vec<String>,
}

/// The keys bound to each keybinding.
#[derive(Debug)]
pub struct KeyTable {
    pub bindings: Vec<BoundKeys>,
    /// Whether keys are named as on a Mac.
    pub macos: bool,
}

impl KeyTable {
    /// The keys of the first of the given bindings that has the id; none if there is no such
    /// binding.
    pub open spec fn keys_from(bindings: Seq<BoundKeys>, id: Seq<char>) -> Seq<Seq<char>>
        decreases bindings.len(),
    {
        if bindings.len() == 0 {
            Seq::empty()
        } else if bindings[0].id@ == id {
            texts(bindings[0].keys@)
        } else {
            Self::keys_from(bindings.skip(1), id)
        }
    }

    /// The keys bound to the keybinding, joined as alternatives.
    pub open spec fn alternatives(&self, id: Seq<char>) -> Seq<char> {
        join(Self::keys_from(self.bindings@, id), seq!['/'])
    }

    /// The first key bound to the keybinding.
    pub fn first_key(&self, id: &str) -> (r: Option<String>)
        ensures
            match r {
                Some(key) => Self::keys_from(self.bindings@, id@).len() > 0 && key@
                    == Self::keys_from(self.bindings@, id@)[0],
                None => Self::keys_from(self.bindings@, id@).len() == 0,
            },
    {
        assert(self.bindings@.skip(0) =~= self.bindings@);
        let mut i: usize = 0;
        while i < self.bindings.len()
            invariant
                i <= self.bindings.len(),
                Self::keys_from(self.bindings@, id@) == Self::keys_from(
                    self.bindings@.skip(i as int),
                    id@,
                ),
            decreases self.bindings.len() - i,
        {
            let ghost rest = self.bindings@.skip(i as int);
            assert(rest[0] == self.bindings@[i as int]);
            assert(rest.skip(1) =~= self.bindings@.skip(i as int + 1));
            if str_eq(self.bindings[i].id.as_str(), id) {
                let keys = &self.bindings[i].keys;
                return if keys.len() > 0 {
                    assert(texts(keys@)[0] == keys@[0]@);
                    Some(keys[0].clone())
                } else {
                    None
                };
            }
            i = i + 1;
        }
        None
    }

    /// The keys bound to the keybinding, joined as alternatives.
    pub fn joined_keys(&self, id: &str) -> (r: String)
        ensures
            r@ == self.alternatives(id@),
    {
        proof {
            reveal_strlit("/");
            assert("/"@ =~= seq!['/']);
            assert(self.bindings@.skip(0) =~= self.bindings@);
        }
        let mut i: usize = 0;
        while i < self.bindings.len()
            invariant
                i <= self.bindings.len(),
                "/"@ == seq!['/'],
                Self::keys_from(self.bindings@, id@) == Self::keys_from(
                    self.bindings@.skip(i as int),
                    id@,
                ),
            decreases self.bindings.len() - i,
        {
            let ghost rest = self.bindings@.skip(i as int);
            assert(rest[0] == self.bindings@[i as int]);
            assert(rest.skip(1) =~= self.bindings@.skip(i as int + 1));
            if str_eq(self.bindings[i].id.as_str(), id) {
                return join_strs(&self.bindings[i].keys, "/");
            }
            i = i + 1;
        }
        String::new()
    }
}

/// The text that `char::to_uppercase` gives.
pub uninterp spec fn char_uppercase(c: char) -> Seq<char>;

/// The uppercase form of a character: `char::to_uppercase`.
#[verifier::external_body]
fn to_uppercase(c: char) -> (r: String)
    ensures
        r@ == char_uppercase(c),
{
    c.to_uppercase().collect()
}

/// Whether the text is `alt` in any ASCII case.
pub open spec fn is_alt(s: Seq<char>) -> bool {
    &&& s.len() == 3
    &&& (s[0] == 'a' || s[0] == 'A')
    &&& (s[1] == 'l' || s[1] == 'L')
    &&& (s[2] == 't' || s[2] == 'T')
}

/// The name with its first letter replaced.
pub open spec fn with_first(first: Seq<char>, name: Seq<char>) -> Seq<char> {
    first + name.skip(1)
}

/// How one key of a combination is written.
pub open spec fn key_part(part: Seq<char>, capitalize: bool, macos: bool) -> Seq<char> {
    let named = if macos && is_alt(part) {
        "option"@
    } else {
        part
    };
    if capitalize && named.len() > 0 {
        with_first(char_uppercase(named[0]), named)
    } else {
        named
    }
}

/// How a combination of keys, joined by `+`, is written.
pub open spec fn key_combination(keys: Seq<char>, capitalize: bool, macos: bool) -> Seq<char> {
    join(
        split(keys, '+').map_values(|part: Seq<char>| key_part(part, capitalize, macos)),
        seq!['+'],
    )
}

/// How alternative key combinations, separated by `/`, are written.
pub open spec fn key_alternatives(key: Seq<char>, capitalize: bool, macos: bool) -> Seq<char> {
    join(
        split(key, '/').map_values(|keys: Seq<char>| key_combination(keys, capitalize, macos)),
        seq!['/'],
    )
}

/// The name with its first letter replaced.
pub fn replace_first(first: &str, name: &str) -> (r: String)
    requires
        name@.len() > 0,
    ensures
        r@ == with_first(first@, name@),
{
    let chars = chars_of(name);
    let mut r = first.to_owned();
    let rest = crate::text::string_of(slice_subrange(chars.as_slice(), 1, chars.len()));
    assert(rest@ =~= name@.skip(1));
    r.append(rest.as_str());
    r
}

fn format_key_part(part: &Vec<char>, capitalize: bool, macos: bool) -> (r: String)
    ensures
        r@ == key_part(part@, capitalize, macos),
{
    let alt = part.len() == 3 && (part[0] == 'a' || part[0] == 'A') && (part[1] == 'l' || part[1]
        == 'L') && (part[2] == 't' || part[2] == 'T');
    let named = if macos && alt {
        chars_of("option")
    } else {
        vstd::slice::slice_to_vec(part.as_slice())
    };
    if capitalize && named.len() > 0 {
        let first = to_uppercase(named[0]);
        let name = crate::text::string_of(named.as_slice());
        replace_first(first.as_str(), name.as_str())
    } else {
        crate::text::string_of(named.as_slice())
    }
}

fn format_key_combination(keys: &Vec<char>, capitalize: bool, macos: bool) -> (r: String)
    ensures
        r@ == key_combination(keys@, capitalize, macos),
{
    proof {
        reveal_strlit("+");
        assert("+"@ =~= seq!['+']);
    }
    let parts = split_chars(keys.as_slice(), '+');
    let ghost written = split(keys@, '+').map_values(
        |part: Seq<char>| key_part(part, capitalize, macos),
    );
    let mut out: Vec<String> = Vec::new();
    let mut i: usize = 0;
    assert(parts@.len() == char_texts(parts@).len());
    while i < parts.len()
        invariant
            i <= parts.len(),
            char_texts(parts@) == split(keys@, '+'),
            written == split(keys@, '+').map_values(
                |part: Seq<char>| key_part(part, capitalize, macos),
            ),
            texts(out@) =~= written.take(i as int),
        decreases parts.len() - i,
    {
        assert(char_texts(parts@)[i as int] == parts@[i as int]@);
        push_text(&mut out, format_key_part(&parts[i], capitalize, macos));
        assert(written[i as int] == key_part(parts@[i as int]@, capitalize, macos));
        i = i + 1;
    }
    assert(texts(out@) =~= written);
    join_strs(&out, "+")
}

/// How alternative key combinations are written: `/` between alternatives, `+` between the keys of
/// one; the first letter of each key in uppercase if `capitalize`; on a Mac, `alt` as `option`.
pub fn format_key_text(key: &str, capitalize: bool, macos: bool) -> (r: String)
    ensures
        r@ == key_alternatives(key@, capitalize, macos),
{
    proof {
        reveal_strlit("/");
        assert("/"@ =~= seq!['/']);
    }
    let chars = chars_of(key);
    let parts = split_chars(chars.as_slice(), '/');
    let ghost written = split(key@, '/').map_values(
        |keys: Seq<char>| key_combination(keys, capitalize, macos),
    );
    let mut out: Vec<String> = Vec::new();
    let mut i: usize = 0;
    assert(parts@.len() == char_texts(parts@).len());
    while i < parts.len()
        invariant
            i <= parts.len(),
            char_texts(parts@) == split(key@, '/'),
            written == split(key@, '/').map_values(
                |keys: Seq<char>| key_combination(keys, capitalize, macos),
            ),
            texts(out@) =~= written.take(i as int),
        decreases parts.len() - i,
    {
        assert(char_texts(parts@)[i as int] == parts@[i as int]@);
        push_text(&mut out, format_key_combination(&parts[i], capitalize, macos));
        assert(written[i as int] == key_combination(parts@[i as int]@, capitalize, macos));
        i = i + 1;
    }
    assert(texts(out@) =~= written);
    join_strs(&out, "/")
}

/// The keys bound to the keybinding, as they are written in hints.
pub open spec fn bound_text(table: KeyTable, keybinding: Seq<char>) -> Seq<char> {
    key_alternatives(table.alternatives(keybinding), false, table.macos)
}

/// The keys bound to the keybinding, as they are written in hints.
pub fn key_text(table: &KeyTable, keybinding: &str) -> (r: String)
    ensures
        r@ == bound_text(*table, keybinding@),
{
    format_key_text(table.joined_keys(keybinding).as_str(), false, table.macos)
}

/// The keys bound to the keybinding, capitalized.
pub fn key_display_text(table: &KeyTable, keybinding: &str) -> (r: String)
    ensures
        r@ == key_alternatives(table.alternatives(keybinding@), true, table.macos),
{
    format_key_text(table.joined_keys(keybinding).as_str(), true, table.macos)
}

/// A hint: the keys dimmed, then what they do, muted.
pub open spec fn hint_spans(keys: Seq<char>, description: Seq<char>) -> Seq<SpanView> {
    seq![
        colored(ThemeColor::Dim, keys),
        colored(ThemeColor::Muted, seq![' '] + description),
    ]
}

fn hint(keys: &str, description: &str) -> (r: Vec<Span>)
    ensures
        spans(r@) == hint_spans(keys@, description@),
{
    let mut label = String::new();
    push_char(&mut label, ' ');
    label.append(description);
    assert(label@ =~= seq![' '] + description@);
    let mut r: Vec<Span> = Vec::new();
    push_span(&mut r, fg(ThemeColor::Dim, keys));
    push_span(&mut r, fg(ThemeColor::Muted, label.as_str()));
    assert(spans(r@) =~= hint_spans(keys@, description@));
    r
}

/// The hint for a keybinding.
pub fn key_hint(table: &KeyTable, keybinding: &str, description: &str) -> (r: Vec<Span>)
    ensures
        spans(r@) == hint_spans(bound_text(*table, keybinding@), description@),
{
    hint(key_text(table, keybinding).as_str(), description)
}

/// The hint for a key that is not configurable.
pub fn raw_key_hint(key: &str, description: &str, macos: bool) -> (r: Vec<Span>)
    ensures
        spans(r@) == hint_spans(key_alternatives(key@, false, macos), description@),
{
    hint(format_key_text(key, false, macos).as_str(), description)
}

} // verus!
