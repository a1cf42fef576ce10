//! Selectors over short lists: thinking levels, themes and inline images.

use crate::select_submenu::{
    bordered_list, list_between_borders, select_shape, settings_submenu_select_list_layout,
    SelectListShape,
};
use crate::settings_changes::{
    initial_option, select_views, thinking_options, SelectItem, SelectView,
};
use crate::settings_selector::{
    level_name, thinking_description, thinking_level_from_str, thinking_level_name,
    ModelThinkingLevel,
};
use crate::text::{str_eq, texts};
use crate::transcript::{pieces, Piece};
use vstd::prelude::*;

verus! {

broadcast use vstd::string::group_string_axioms;

/// Selects one of the thinking levels supported by the active model.
#[derive(Debug)]
pub struct ThinkingSelectorComponent {
    pub items: Vec<SelectItem>,
    /// The level that is selected at first, if the current one is listed.
    pub initial: Option<usize>,
}

/// Whether the value stands first at the index, or nowhere where there is no index.
pub open spec fn is_initial<T>(values: Seq<T>, value: T, at: Option<usize>) -> bool {
    match at {
        Some(i) => i < values.len() && values[i as int] == value && forall|j: int|
            0 <= j < i ==> #[trigger] values[j] != value,
        None => forall|j: int| 0 <= j < values.len() ==> #[trigger] values[j] != value,
    }
}

impl ThinkingSelectorComponent {
    /// The selector over the levels, with the current one selected.
    #[must_use]
    pub fn new(current_level: ModelThinkingLevel, available_levels: &Vec<ModelThinkingLevel>) -> (r:
        Self)
        ensures
            select_views(r.items@) == thinking_options(available_levels@),
            is_initial(available_levels@, current_level, r.initial),
    {
        let mut items: Vec<SelectItem> = Vec::new();
        let mut initial: Option<usize> = None;
        let mut i: usize = 0;
        while i < available_levels.len()
            invariant
                i <= available_levels.len(),
                select_views(items@) =~= thinking_options(available_levels@).take(i as int),
                match initial {
                    Some(k) => k < i && available_levels[k as int] == current_level && forall|j: int|
                        0 <= j < k ==> #[trigger] available_levels@[j] != current_level,
                    None => forall|j: int|
                        0 <= j < i ==> #[trigger] available_levels@[j] != current_level,
                },
            decreases available_levels.len() - i,
        {
            let level = available_levels[i];
            let item = SelectItem {
                value: thinking_level_name(level).to_owned(),
                label: thinking_level_name(level).to_owned(),
                description: Some(thinking_description(level).to_owned()),
            };
            let ghost before = items@;
            items.push(item);
            assert(select_views(items@) =~= select_views(before).push(item@));
            assert(item@ =~= thinking_options(available_levels@)[i as int]);
            if initial.is_none() && level == current_level {
                initial = Some(i);
            }
            i = i + 1;
        }
        ThinkingSelectorComponent { items, initial }
    }

    /// The level that the chosen value names.
    pub fn chosen(value: &str) -> (r: Option<ModelThinkingLevel>)
        ensures
            forall|level: ModelThinkingLevel| #[trigger]
                level_name(level) == value@ <==> r == Some(level),
    {
        thinking_level_from_str(value)
    }

    /// The options.
    pub fn get_select_list(&self) -> (r: &Vec<SelectItem>)
        ensures
            *r == self.items,
    {
        &self.items
    }

    /// How the list is shown.
    pub fn list_shape(&self) -> (r: SelectListShape)
        ensures
            r == select_shape(self.items.len()),
    {
        settings_submenu_select_list_layout(self.items.len())
    }

    /// The pieces of the component: the list between two borders.
    pub fn render(&self) -> (r: Vec<Piece>)
        ensures
            pieces(r@) == bordered_list(),
    {
        list_between_borders()
    }
}

/// Selects a theme, previewing each highlighted item.
#[derive(Debug)]
pub struct ThemeSelectorComponent {
    pub items: Vec<SelectItem>,
    /// The theme that is selected at first, if the current one is listed.
    pub initial: Option<usize>,
}

/// The options: the themes, the current one marked.
pub open spec fn marked_themes(themes: Seq<Seq<char>>, current: Seq<char>) -> Seq<SelectView> {
    themes.map_values(
        |name: Seq<char>|
            SelectView {
                value: name,
                label: name,
                description: if name == current {
                    Some("(current)"@)
                } else {
                    None
                },
            },
    )
}

impl ThemeSelectorComponent {
    /// The selector over the themes, with the current one selected.
    #[must_use]
    pub fn new(current_theme: &str, themes: &Vec<String>) -> (r: Self)
        ensures
            select_views(r.items@) == marked_themes(texts(themes@), current_theme@),
            is_initial(texts(themes@), current_theme@, r.initial),
    {
        let ghost wanted = marked_themes(texts(themes@), current_theme@);
        let mut items: Vec<SelectItem> = Vec::new();
        let mut i: usize = 0;
        while i < themes.len()
            invariant
                i <= themes.len(),
                wanted == marked_themes(texts(themes@), current_theme@),
                select_views(items@) =~= wanted.take(i as int),
            decreases themes.len() - i,
        {
            let item = SelectItem {
                value: themes[i].clone(),
                label: themes[i].clone(),
                description: if str_eq(themes[i].as_str(), current_theme) {
                    Some("(current)".to_owned())
                } else {
                    None
                },
            };
            let ghost before = items@;
            items.push(item);
            assert(select_views(items@) =~= select_views(before).push(item@));
            assert(texts(themes@)[i as int] == themes[i as int]@);
            assert(item@ =~= wanted[i as int]);
            i = i + 1;
        }
        assert(select_views(items@) =~= wanted);
        let initial = initial_option(&items, current_theme);
        assert forall|j: int| 0 <= j < items.len() implies texts(themes@)[j] == (
        #[trigger] items[j]).value@ by {
            assert(select_views(items@)[j] == items[j]@);
            assert(wanted[j].value == texts(themes@)[j]);
        }
        assert(items.len() == themes.len()) by {
            assert(select_views(items@).len() == wanted.len());
        }
        assert(is_initial(texts(themes@), current_theme@, initial)) by {
            assert forall|j: int| 0 <= j < items.len() implies (#[trigger] texts(themes@)[j])
                == items[j].value@ by {}
        }
        ThemeSelectorComponent { items, initial }
    }

    /// The options.
    pub fn get_select_list(&self) -> (r: &Vec<SelectItem>)
        ensures
            *r == self.items,
    {
        &self.items
    }

    /// How the list is shown.
    pub fn list_shape(&self) -> (r: SelectListShape)
        ensures
            r == select_shape(10),
    {
        settings_submenu_select_list_layout(10)
    }

    /// The pieces of the component: the list between two borders.
    pub fn render(&self) -> (r: Vec<Piece>)
        ensures
            pieces(r@) == bordered_list(),
    {
        list_between_borders()
    }
}

/// Selects whether images are rendered inline or as text placeholders.
#[derive(Debug)]
pub struct ShowImagesSelectorComponent {
    pub items: Vec<SelectItem>,
    pub initial: usize,
}

/// The two options.
pub open spec fn image_options() -> Seq<SelectView> {
    seq![
        SelectView {
            value: "yes"@,
            label: "Yes"@,
            description: Some("Show images inline in terminal"@),
        },
        SelectView {
            value: "no"@,
            label: "No"@,
            description: Some("Show text placeholder instead"@),
        },
    ]
}

impl ShowImagesSelectorComponent {
    /// The selector with the current value selected.
    #[must_use]
    pub fn new(current_value: bool) -> (r: Self)
        ensures
            select_views(r.items@) == image_options(),
            r.initial == if current_value {
                0int
            } else {
                1
            },
    {
        let mut items: Vec<SelectItem> = Vec::new();
        items.push(
            SelectItem {
                value: "yes".to_owned(),
                label: "Yes".to_owned(),
                description: Some("Show images inline in terminal".to_owned()),
            },
        );
        items.push(
            SelectItem {
                value: "no".to_owned(),
                label: "No".to_owned(),
                description: Some("Show text placeholder instead".to_owned()),
            },
        );
        assert(select_views(items@) =~~= image_options());
        ShowImagesSelectorComponent {
            items,
            initial: if current_value {
                0
            } else {
                1
            },
        }
    }

    /// Whether the chosen value shows images.
    pub fn chosen(value: &str) -> (r: bool)
        ensures
            r == (value@ == "yes"@),
    {
        str_eq(value, "yes")
    }

    /// The options.
    pub fn get_select_list(&self) -> (r: &Vec<SelectItem>)
        ensures
            *r == self.items,
    {
        &self.items
    }

    /// How the list is shown.
    pub fn list_shape(&self) -> (r: SelectListShape)
        ensures
            r == select_shape(5),
    {
        settings_submenu_select_list_layout(5)
    }

    /// The pieces of the component: the list between two borders.
    pub fn render(&self) -> (r: Vec<Piece>)
        ensures
            pieces(r@) == bordered_list(),
    {
        list_between_borders()
    }
}

/// The option that is selected at first stands for the value that is current.
pub proof fn current_value_is_selected(current_value: bool)
    ensures
        (image_options()[if current_value {
            0
        } else {
            1
        }].value == "yes"@) == current_value,
{
    reveal_strlit("yes");
    reveal_strlit("no");
    assert("yes"@.len() == 3 && "no"@.len() == 2);
}

} // verus!
