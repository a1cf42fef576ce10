//! Extension interface: overlay options and the theme catalog.

use crate::json::{check_json, is_json};
use crate::session::clone_opt;
use crate::text::{chars_of, str_eq, string_of, trim, trim_slice};
use vstd::prelude::*;
use vstd::slice::slice_subrange;

verus! {

broadcast use vstd::string::group_string_axioms;

/// A number as far as overlay options read it.
#[derive(Debug, Clone, Copy)]
pub struct OverlayNumber {
    /// The whole part, zero for a negative number.
    pub whole: usize,
    /// The number, if it is whole and not negative.
    pub unsigned: Option<u64>,
    /// The number, if it is whole.
    pub signed: Option<i64>,
}

/// A value of an overlay option.
#[derive(Debug)]
pub enum OverlayValue {
    Bool(bool),
    Number(OverlayNumber),
    Text(String),
    Other,
}

/// A size: a number of cells, or a share of the screen.
#[derive(Debug, PartialEq, Eq)]
pub enum OverlaySize {
    Abs(usize),
    /// The text of the percentage, without its sign.
    Percent(String),
}

/// The content of a size.
#[verifier::ext_equal]
pub enum SizeView {
    Abs(usize),
    Percent(Seq<char>),
}

impl View for OverlaySize {
    type V = SizeView;

    open spec fn view(&self) -> SizeView {
        match self {
            OverlaySize::Abs(n) => SizeView::Abs(*n),
            OverlaySize::Percent(text) => SizeView::Percent(text@),
        }
    }
}

/// The content of an optional size.
pub open spec fn size_opt(size: Option<OverlaySize>) -> Option<SizeView> {
    match size {
        Some(s) => Some(s@),
        None => None,
    }
}

/// Where an overlay is placed.
#[derive(Debug, Clone, Copy, PartialEq, Eq, Structural)]
pub enum OverlayAnchor {
    Center,
    TopLeft,
    TopRight,
    BottomLeft,
    BottomRight,
    TopCenter,
    BottomCenter,
    LeftCenter,
    RightCenter,
}

/// The layout of an overlay.
#[derive(Debug)]
pub struct OverlayOptions {
    pub width: Option<OverlaySize>,
    pub min_width: Option<usize>,
    pub max_height: Option<OverlaySize>,
    pub anchor: OverlayAnchor,
    pub offset_x: i32,
    pub offset_y: i32,
    pub row: Option<OverlaySize>,
    pub col: Option<OverlaySize>,
    pub non_capturing: bool,
}

/// The content of a layout.
#[verifier::ext_equal]
pub struct OverlayView {
    pub width: Option<SizeView>,
    pub min_width: Option<usize>,
    pub max_height: Option<SizeView>,
    pub anchor: OverlayAnchor,
    pub offset_x: i32,
    pub offset_y: i32,
    pub row: Option<SizeView>,
    pub col: Option<SizeView>,
    pub non_capturing: bool,
}

impl View for OverlayOptions {
    type V = OverlayView;

    open spec fn view(&self) -> OverlayView {
        OverlayView {
            width: size_opt(self.width),
            min_width: self.min_width,
            max_height: size_opt(self.max_height),
            anchor: self.anchor,
            offset_x: self.offset_x,
            offset_y: self.offset_y,
            row: size_opt(self.row),
            col: size_opt(self.col),
            non_capturing: self.non_capturing,
        }
    }
}

/// Overlay options: the layout and the state of the overlay's handle.
#[derive(Debug)]
pub struct ParsedOverlay {
    pub options: OverlayOptions,
    pub hidden: bool,
    /// None where it was never specified.
    pub focused: Option<bool>,
}

/// The value of the first field with the key.
pub open spec fn field(fields: Seq<(String, OverlayValue)>, key: Seq<char>) -> Option<OverlayValue>
    decreases fields.len(),
{
    if fields.len() == 0 {
        None
    } else if fields[0].0@ == key {
        Some(fields[0].1)
    } else {
        field(fields.skip(1), key)
    }
}

fn get<'a>(fields: &'a Vec<(String, OverlayValue)>, key: &str) -> (r: Option<&'a OverlayValue>)
    ensures
        match r {
            Some(value) => field(fields@, key@) == Some(*value),
            None => field(fields@, key@) is None,
        },
{
    let mut i: usize = 0;
    assert(fields@.skip(0) =~= fields@);
    while i < fields.len()
        invariant
            i <= fields.len(),
            field(fields@, key@) == field(fields@.skip(i as int), key@),
        decreases fields.len() - i,
    {
        assert(fields@.skip(i as int).skip(1) =~= fields@.skip(i + 1));
        if str_eq(fields[i].0.as_str(), key) {
            return Some(&fields[i].1);
        }
        i = i + 1;
    }
    None
}

/// The percentage in a text: what stands before a percent sign.
pub open spec fn percent_text(text: Seq<char>) -> Option<Seq<char>> {
    let t = trim(text);
    if t.len() > 0 && t.last() == '%' {
        Some(trim(t.drop_last()))
    } else {
        None
    }
}

/// The size that a value gives.
pub open spec fn size_of_value(value: Option<OverlayValue>) -> Option<SizeView> {
    match value {
        Some(OverlayValue::Number(n)) => Some(SizeView::Abs(n.whole)),
        Some(OverlayValue::Text(text)) => match percent_text(text@) {
            Some(percent) => Some(SizeView::Percent(percent)),
            None => None,
        },
        _ => None,
    }
}

/// The size that a value gives.
pub fn size_value(value: Option<&OverlayValue>) -> (r: Option<OverlaySize>)
    ensures
        size_opt(r) == size_of_value(
            match value {
                Some(v) => Some(*v),
                None => None,
            },
        ),
{
    match value {
        Some(OverlayValue::Number(n)) => Some(OverlaySize::Abs(n.whole)),
        Some(OverlayValue::Text(text)) => {
            let chars = chars_of(text.as_str());
            let t = trim_slice(chars.as_slice());
            if t.len() > 0 && t[t.len() - 1] == '%' {
                let head = slice_subrange(t, 0, t.len() - 1);
                assert(head@ =~= t@.drop_last());
                Some(OverlaySize::Percent(string_of(trim_slice(head))))
            } else {
                None
            }
        },
        _ => None,
    }
}

/// The anchor with the name; any other name is the center.
pub open spec fn anchor_named(name: Seq<char>) -> OverlayAnchor {
    if name == "top-left"@ {
        OverlayAnchor::TopLeft
    } else if name == "top-right"@ {
        OverlayAnchor::TopRight
    } else if name == "bottom-left"@ {
        OverlayAnchor::BottomLeft
    } else if name == "bottom-right"@ {
        OverlayAnchor::BottomRight
    } else if name == "top-center"@ {
        OverlayAnchor::TopCenter
    } else if name == "bottom-center"@ {
        OverlayAnchor::BottomCenter
    } else if name == "left-center"@ {
        OverlayAnchor::LeftCenter
    } else if name == "right-center"@ {
        OverlayAnchor::RightCenter
    } else {
        OverlayAnchor::Center
    }
}

/// The anchor that a value gives.
pub open spec fn anchor_of_value(value: Option<OverlayValue>) -> OverlayAnchor {
    match value {
        Some(OverlayValue::Text(name)) => anchor_named(name@),
        _ => OverlayAnchor::Center,
    }
}

/// The anchor that a value gives.
pub fn anchor(value: Option<&OverlayValue>) -> (r: OverlayAnchor)
    ensures
        r == anchor_of_value(
            match value {
                Some(v) => Some(*v),
                None => None,
            },
        ),
{
    let name = match value {
        Some(OverlayValue::Text(name)) => name.as_str(),
        _ => {
            return OverlayAnchor::Center;
        },
    };
    if str_eq(name, "top-left") {
        OverlayAnchor::TopLeft
    } else if str_eq(name, "top-right") {
        OverlayAnchor::TopRight
    } else if str_eq(name, "bottom-left") {
        OverlayAnchor::BottomLeft
    } else if str_eq(name, "bottom-right") {
        OverlayAnchor::BottomRight
    } else if str_eq(name, "top-center") {
        OverlayAnchor::TopCenter
    } else if str_eq(name, "bottom-center") {
        OverlayAnchor::BottomCenter
    } else if str_eq(name, "left-center") {
        OverlayAnchor::LeftCenter
    } else if str_eq(name, "right-center") {
        OverlayAnchor::RightCenter
    } else {
        OverlayAnchor::Center
    }
}

/// The switch that a value gives.
pub open spec fn bool_of_value(value: Option<OverlayValue>) -> Option<bool> {
    match value {
        Some(OverlayValue::Bool(b)) => Some(b),
        _ => None,
    }
}

fn bool_value(value: Option<&OverlayValue>) -> (r: Option<bool>)
    ensures
        r == bool_of_value(
            match value {
                Some(v) => Some(*v),
                None => None,
            },
        ),
{
    match value {
        Some(OverlayValue::Bool(b)) => Some(*b),
        _ => None,
    }
}

/// The offset that a value gives: the lowest bits of a whole number, otherwise none.
pub open spec fn offset_of_value(value: Option<OverlayValue>) -> i32 {
    match value {
        Some(OverlayValue::Number(n)) => match n.signed {
            Some(v) => v as i32,
            None => 0,
        },
        _ => 0,
    }
}

fn offset_value(value: Option<&OverlayValue>) -> (r: i32)
    ensures
        r == offset_of_value(
            match value {
                Some(v) => Some(*v),
                None => None,
            },
        ),
{
    match value {
        Some(OverlayValue::Number(n)) => match n.signed {
            Some(v) => #[verifier::truncate] (v as i32),
            None => 0,
        },
        _ => 0,
    }
}

/// The least width that a value gives.
pub open spec fn width_of_value(value: Option<OverlayValue>) -> Option<usize> {
    match value {
        Some(OverlayValue::Number(n)) => match n.unsigned {
            Some(v) => Some(v as usize),
            None => None,
        },
        _ => None,
    }
}

fn width_value(value: Option<&OverlayValue>) -> (r: Option<usize>)
    ensures
        r == width_of_value(
            match value {
                Some(v) => Some(*v),
                None => None,
            },
        ),
{
    match value {
        Some(OverlayValue::Number(n)) => match n.unsigned {
            Some(v) => Some(#[verifier::truncate] (v as usize)),
            None => None,
        },
        _ => None,
    }
}

/// The layout that the fields give; fields that are missing or hold the wrong kind of value leave
/// the default.
pub open spec fn overlay_of_fields(fields: Seq<(String, OverlayValue)>) -> OverlayView {
    OverlayView {
        width: size_of_value(field(fields, "width"@)),
        min_width: width_of_value(field(fields, "minWidth"@)),
        max_height: size_of_value(field(fields, "maxHeight"@)),
        anchor: anchor_of_value(field(fields, "anchor"@)),
        offset_x: offset_of_value(field(fields, "offsetX"@)),
        offset_y: offset_of_value(field(fields, "offsetY"@)),
        row: size_of_value(field(fields, "row"@)),
        col: size_of_value(field(fields, "col"@)),
        non_capturing: bool_of_value(field(fields, "nonCapturing"@)) == Some(true),
    }
}

/// Reads overlay options. Unknown fields are ignored.
#[must_use]
pub fn parse_overlay_options(fields: &Vec<(String, OverlayValue)>) -> (r: ParsedOverlay)
    ensures
        r.options@ == overlay_of_fields(fields@),
        r.hidden == (bool_of_value(field(fields@, "hidden"@)) == Some(true)),
        r.focused == bool_of_value(field(fields@, "focused"@)),
{
    let options = OverlayOptions {
        width: size_value(get(fields, "width")),
        min_width: width_value(get(fields, "minWidth")),
        max_height: size_value(get(fields, "maxHeight")),
        anchor: anchor(get(fields, "anchor")),
        offset_x: offset_value(get(fields, "offsetX")),
        offset_y: offset_value(get(fields, "offsetY")),
        row: size_value(get(fields, "row")),
        col: size_value(get(fields, "col")),
        non_capturing: match bool_value(get(fields, "nonCapturing")) {
            Some(b) => b,
            None => false,
        },
    };
    let hidden = match bool_value(get(fields, "hidden")) {
        Some(b) => b,
        None => false,
    };
    ParsedOverlay { options, hidden, focused: bool_value(get(fields, "focused")) }
}

/// Whether overlay options have a field of the name.
pub open spec fn is_overlay_field(name: Seq<char>) -> bool {
    ||| name == "width"@
    ||| name == "minWidth"@
    ||| name == "maxHeight"@
    ||| name == "anchor"@
    ||| name == "offsetX"@
    ||| name == "offsetY"@
    ||| name == "row"@
    ||| name == "col"@
    ||| name == "nonCapturing"@
    ||| name == "hidden"@
    ||| name == "focused"@
}

proof fn lemma_other_field(
    fields: Seq<(String, OverlayValue)>,
    at: int,
    other: (String, OverlayValue),
    key: Seq<char>,
)
    requires
        0 <= at <= fields.len(),
        other.0@ != key,
    ensures
        field(fields.insert(at, other), key) == field(fields, key),
    decreases at,
{
    let more = fields.insert(at, other);
    if at == 0 {
        assert(more.skip(1) =~= fields);
    } else {
        assert(more[0] == fields[0]);
        assert(more.skip(1) =~= fields.skip(1).insert(at - 1, other));
        lemma_other_field(fields.skip(1), at - 1, other, key);
    }
}

/// Unknown fields are ignored, wherever they stand.
pub proof fn unknown_fields_are_ignored(
    fields: Seq<(String, OverlayValue)>,
    at: int,
    other: (String, OverlayValue),
)
    requires
        0 <= at <= fields.len(),
        !is_overlay_field(other.0@),
    ensures
        overlay_of_fields(fields.insert(at, other)) == overlay_of_fields(fields),
        field(fields.insert(at, other), "hidden"@) == field(fields, "hidden"@),
        field(fields.insert(at, other), "focused"@) == field(fields, "focused"@),
{
    lemma_other_field(fields, at, other, "width"@);
    lemma_other_field(fields, at, other, "minWidth"@);
    lemma_other_field(fields, at, other, "maxHeight"@);
    lemma_other_field(fields, at, other, "anchor"@);
    lemma_other_field(fields, at, other, "offsetX"@);
    lemma_other_field(fields, at, other, "offsetY"@);
    lemma_other_field(fields, at, other, "row"@);
    lemma_other_field(fields, at, other, "col"@);
    lemma_other_field(fields, at, other, "nonCapturing"@);
    lemma_other_field(fields, at, other, "hidden"@);
    lemma_other_field(fields, at, other, "focused"@);
}

/// A theme that can be chosen, with the file it comes from; a built-in theme has none.
#[derive(Debug)]
pub struct ThemeCatalogItem {
    pub name: String,
    pub path: Option<String>,
}

/// The themes with their source paths.
#[must_use]
pub fn theme_catalog(available: &Vec<(String, Option<String>)>) -> (r: Vec<ThemeCatalogItem>)
    ensures
        r.len() == available.len(),
        forall|i: int|
            0 <= i < r.len() ==> (#[trigger] r[i]).name == available[i].0 && r[i].path
                == available[i].1,
{
    let mut r: Vec<ThemeCatalogItem> = Vec::new();
    let mut i: usize = 0;
    while i < available.len()
        invariant
            i <= available.len(),
            r.len() == i,
            forall|j: int|
                0 <= j < i ==> (#[trigger] r[j]).name == available[j].0 && r[j].path
                    == available[j].1,
        decreases available.len() - i,
    {
        r.push(
            ThemeCatalogItem {
                name: available[i].0.clone(),
                path: clone_opt(&available[i].1),
            },
        );
        i = i + 1;
    }
    r
}

/// Where the JSON of a theme comes from.
#[derive(Debug, PartialEq, Eq)]
pub enum ThemeSource {
    Dark,
    Light,
    File(String),
    Missing,
}

/// The file that the first theme with the name comes from, if it has one.
pub open spec fn theme_file(themes: Seq<ThemeCatalogItem>, name: Seq<char>) -> Option<Seq<char>>
    decreases themes.len(),
{
    if themes.len() == 0 {
        None
    } else if themes[0].name@ == name {
        match themes[0].path {
            Some(path) => Some(path@),
            None => None,
        }
    } else {
        theme_file(themes.skip(1), name)
    }
}

/// Where the JSON of the theme with the name comes from: the built-in themes bring theirs, and the
/// others are read from the file that the first theme with the name comes from.
pub fn theme_source(themes: &Vec<ThemeCatalogItem>, name: &str) -> (r: ThemeSource)
    ensures
        name@ == "dark"@ ==> r is Dark,
        name@ == "light"@ && name@ != "dark"@ ==> r is Light,
        name@ != "dark"@ && name@ != "light"@ ==> match theme_file(themes@, name@) {
            Some(path) => r is File && r->File_0@ == path,
            None => r is Missing,
        },
{
    if str_eq(name, "dark") {
        return ThemeSource::Dark;
    }
    if str_eq(name, "light") {
        return ThemeSource::Light;
    }
    let mut i: usize = 0;
    assert(themes@.skip(0) =~= themes@);
    while i < themes.len()
        invariant
            i <= themes.len(),
            name@ != "dark"@ && name@ != "light"@,
            theme_file(themes@, name@) == theme_file(themes@.skip(i as int), name@),
        decreases themes.len() - i,
    {
        assert(themes@.skip(i as int)[0] == themes@[i as int]);
        assert(themes@.skip(i as int).skip(1) =~= themes@.skip(i as int + 1));
        if str_eq(themes[i].name.as_str(), name) {
            return match &themes[i].path {
                Some(path) => ThemeSource::File(path.clone()),
                None => ThemeSource::Missing,
            };
        }
        i = i + 1;
    }
    ThemeSource::Missing
}

/// A theme as it is sent to extensions: its name and its JSON.
#[derive(Debug, PartialEq, Eq)]
pub struct ThemeDto {
    pub name: String,
    pub json: String,
}

/// The content of a theme that is sent.
#[verifier::ext_equal]
pub struct ThemeDtoView {
    pub name: Seq<char>,
    pub json: Seq<char>,
}

impl View for ThemeDto {
    type V = ThemeDtoView;

    open spec fn view(&self) -> ThemeDtoView {
        ThemeDtoView { name: self.name@, json: self.json@ }
    }
}

/// The content of an optional theme.
pub open spec fn theme_opt(theme: Option<ThemeDto>) -> Option<ThemeDtoView> {
    match theme {
        Some(dto) => Some(dto@),
        None => None,
    }
}

/// The texts that themes are read from: those of the built-in themes, and what was read from the
/// file of the theme that is asked for, if it could be read.
#[derive(Debug)]
pub struct ThemeTexts {
    pub dark: String,
    pub light: String,
    pub file: Option<String>,
}

/// The text that the theme with the name is read from, if there is one.
pub open spec fn theme_text(
    themes: Seq<ThemeCatalogItem>,
    name: Seq<char>,
    texts: ThemeTexts,
) -> Option<Seq<char>> {
    if name == "dark"@ {
        Some(texts.dark@)
    } else if name == "light"@ {
        Some(texts.light@)
    } else {
        match (theme_file(themes, name), texts.file) {
            (Some(_), Some(text)) => Some(text@),
            _ => None,
        }
    }
}

/// A theme with its text, where that is JSON.
pub open spec fn valid_theme(name: Seq<char>, text: Option<Seq<char>>) -> Option<ThemeDtoView> {
    match text {
        Some(json) if is_json(json) => Some(ThemeDtoView { name, json }),
        _ => None,
    }
}

/// The theme in use; the dark one where that has no JSON.
pub open spec fn current_theme(
    themes: Seq<ThemeCatalogItem>,
    current: Option<Seq<char>>,
    texts: ThemeTexts,
) -> Option<ThemeDtoView> {
    let name = match current {
        Some(name) => name,
        None => "dark"@,
    };
    match valid_theme(name, theme_text(themes, name, texts)) {
        Some(theme) => Some(theme),
        None => valid_theme("dark"@, Some(texts.dark@)),
    }
}

/// The JSON of the theme with the name, if it has one: that of a built-in theme, or what the file of
/// the theme holds.
#[must_use]
pub fn theme_dto(themes: &Vec<ThemeCatalogItem>, name: &str, texts: &ThemeTexts) -> (r: Option<
    ThemeDto,
>)
    ensures
        theme_opt(r) == valid_theme(name@, theme_text(themes@, name@, *texts)),
{
    let text = match theme_source(themes, name) {
        ThemeSource::Dark => texts.dark.clone(),
        ThemeSource::Light => texts.light.clone(),
        ThemeSource::File(_) => match &texts.file {
            Some(text) => text.clone(),
            None => {
                return None;
            },
        },
        ThemeSource::Missing => {
            return None;
        },
    };
    if check_json(text.as_str()) {
        Some(ThemeDto { name: name.to_owned(), json: text })
    } else {
        None
    }
}

/// The theme to send: the one in use where it was read, otherwise the dark one where that was.
#[must_use]
pub fn theme_or_dark(read: Option<ThemeDto>, dark: Option<ThemeDto>) -> (r: Option<ThemeDto>)
    ensures
        r == if read is Some {
            read
        } else {
            dark
        },
{
    match read {
        Some(theme) => Some(theme),
        None => dark,
    }
}

/// The theme in use as it is sent to extensions. Where it has no JSON, the dark theme is sent.
#[must_use]
pub fn current_theme_dto(
    themes: &Vec<ThemeCatalogItem>,
    current: Option<&str>,
    texts: &ThemeTexts,
) -> (r: Option<ThemeDto>)
    ensures
        theme_opt(r) == current_theme(
            themes@,
            match current {
                Some(name) => Some(name@),
                None => None,
            },
            *texts,
        ),
{
    let name = match current {
        Some(name) => name,
        None => "dark",
    };
    let read = theme_dto(themes, name, texts);
    theme_or_dark(read, theme_dto(themes, "dark", texts))
}

/// Extensions always get a theme with JSON, whatever theme is in use: the dark one stands in for a
/// theme that is missing, cannot be read or is no JSON.
pub proof fn a_theme_is_always_sent(
    themes: Seq<ThemeCatalogItem>,
    current: Option<Seq<char>>,
    texts: ThemeTexts,
)
    requires
        is_json(texts.dark@),
    ensures
        current_theme(themes, current, texts) is Some,
        is_json(current_theme(themes, current, texts)->0.json),
{
}

} // verus!
