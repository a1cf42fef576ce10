//! The submenus of the settings, and how lists of options and of settings are shown.

use crate::settings_changes::{initial_option, select_views, SelectItem, SelectView};
use crate::style::{bold_colored, bold_fg, colored, fg, ThemeColor};
use crate::transcript::{pieces, push_piece, single_span, text_piece, Piece, PieceView};
use vstd::prelude::*;
use vstd::string::*;

verus! {

broadcast use vstd::string::group_string_axioms;

/// How a list of options is shown: how many of them at once, and how wide the column of their
/// labels is.
#[derive(Debug, Clone, Copy, PartialEq, Eq, Structural)]
pub struct SelectListShape {
    pub max_visible: usize,
    pub min_primary_column_width: usize,
    pub max_primary_column_width: usize,
}

/// How a list of settings is shown: how many of them at once, and whether it can be searched.
#[derive(Debug, Clone, Copy, PartialEq, Eq, Structural)]
pub struct SettingsListShape {
    pub max_visible: usize,
    pub enable_search: bool,
}

/// A list with labels in 12 to 32 columns.
pub open spec fn select_shape(max_visible: usize) -> SelectListShape {
    SelectListShape { max_visible, min_primary_column_width: 12, max_primary_column_width: 32 }
}

/// A list with labels in 12 to 32 columns.
pub fn settings_submenu_select_list_layout(max_visible: usize) -> (r: SelectListShape)
    ensures
        r == select_shape(max_visible),
{
    SelectListShape { max_visible, min_primary_column_width: 12, max_primary_column_width: 32 }
}

/// A list between two borders.
pub open spec fn bordered_list() -> Seq<PieceView> {
    seq![
        PieceView::Border(ThemeColor::Border),
        PieceView::List,
        PieceView::Border(ThemeColor::Border),
    ]
}

/// A list between two borders.
pub fn list_between_borders() -> (r: Vec<Piece>)
    ensures
        pieces(r@) == bordered_list(),
{
    let mut list: Vec<Piece> = Vec::new();
    push_piece(&mut list, Piece::Border(ThemeColor::Border));
    push_piece(&mut list, Piece::List);
    push_piece(&mut list, Piece::Border(ThemeColor::Border));
    assert(pieces(list@) =~= bordered_list());
    list
}

/// The index of the first option with the value; the number of options if there is none.
pub open spec fn first_with(options: Seq<SelectView>, value: Seq<char>) -> nat
    decreases options.len(),
{
    if options.len() == 0 || options[0].value == value {
        0
    } else {
        1 + first_with(options.skip(1), value)
    }
}

/// The first option with a value is the one that no other comes before.
pub proof fn lemma_first_with(options: Seq<SelectView>, value: Seq<char>, i: int)
    requires
        0 <= i <= options.len(),
        forall|j: int| 0 <= j < i ==> (#[trigger] options[j]).value != value,
        i < options.len() ==> options[i].value == value,
    ensures
        first_with(options, value) == i,
    decreases options.len(),
{
    if i > 0 {
        assert(options[0].value != value);
        let rest = options.skip(1);
        assert forall|j: int| 0 <= j < i - 1 implies (#[trigger] rest[j]).value != value by {
            assert(rest[j] == options[j + 1]);
        }
        lemma_first_with(rest, value, i - 1);
    }
}

/// A menu of options under a title.
#[derive(Debug)]
pub struct SelectSubmenu {
    pub title: String,
    pub description: String,
    pub options: Vec<SelectItem>,
    /// The option that is selected at first.
    pub selected: usize,
    pub shape: SelectListShape,
}

/// The content of a menu.
#[verifier::ext_equal]
pub struct SubmenuView {
    pub title: Seq<char>,
    pub description: Seq<char>,
    pub options: Seq<SelectView>,
    pub selected: nat,
    pub shape: SelectListShape,
}

impl View for SelectSubmenu {
    type V = SubmenuView;

    open spec fn view(&self) -> SubmenuView {
        SubmenuView {
            title: self.title@,
            description: self.description@,
            options: select_views(self.options@),
            selected: self.selected as nat,
            shape: self.shape,
        }
    }
}

/// A menu as it opens: on the option with the current value, or else on the first one. At most ten
/// options show at once.
pub open spec fn submenu(
    title: Seq<char>,
    description: Seq<char>,
    options: Seq<SelectView>,
    current: Seq<char>,
) -> SubmenuView {
    SubmenuView {
        title,
        description,
        options,
        selected: if first_with(options, current) < options.len() {
            first_with(options, current)
        } else {
            0
        },
        shape: select_shape(
            if options.len() < 10 {
                options.len() as usize
            } else {
                10
            },
        ),
    }
}

impl SubmenuView {
    /// The pieces of the menu: the title, the description if there is one, the list and its keys.
    pub open spec fn screen(self) -> Seq<PieceView> {
        let title = seq![text_piece(bold_colored(ThemeColor::Accent, self.title), 0)];
        let description = seq![
            PieceView::Spacer(1),
            text_piece(colored(ThemeColor::Muted, self.description), 0),
        ];
        let list = seq![
            PieceView::Spacer(1),
            PieceView::List,
            PieceView::Spacer(1),
            text_piece(colored(ThemeColor::Dim, "  Enter to select · Esc to go back"@), 0),
        ];
        if self.description.len() == 0 {
            title + list
        } else {
            title + description + list
        }
    }
}

impl SelectSubmenu {
    /// A menu, with the current value selected.
    #[must_use]
    pub fn new(title: &str, description: &str, options: Vec<SelectItem>, current_value: &str) -> (r:
        Self)
        ensures
            r@ == submenu(title@, description@, select_views(options@), current_value@),
    {
        let ghost views = select_views(options@);
        let len: usize = options.len();
        let shape = settings_submenu_select_list_layout(
            if len < 10 {
                len
            } else {
                10
            },
        );
        let found = initial_option(&options, current_value);
        proof {
            assert forall|j: int| 0 <= j < len implies (#[trigger] views[j]).value
                == options@[j].value@ by {}
            let at = match found {
                Some(i) => i as int,
                None => len as int,
            };
            assert forall|j: int| 0 <= j < at implies (#[trigger] views[j]).value
                != current_value@ by {
                assert(views[j].value == options[j].value@);
            }
            lemma_first_with(views, current_value@, at);
        }
        let selected: usize = match found {
            Some(i) => i,
            None => 0,
        };
        SelectSubmenu {
            title: title.to_owned(),
            description: description.to_owned(),
            options,
            selected,
            shape,
        }
    }

    /// The pieces of the menu.
    pub fn render(&self) -> (r: Vec<Piece>)
        ensures
            pieces(r@) == self@.screen(),
    {
        let mut list: Vec<Piece> = Vec::new();
        push_piece(&mut list, single_span(bold_fg(ThemeColor::Accent, self.title.as_str()), 0));
        if !self.description.as_str().is_empty() {
            push_piece(&mut list, Piece::Spacer(1));
            let description = fg(ThemeColor::Muted, self.description.as_str());
            push_piece(&mut list, single_span(description, 0));
        }
        push_piece(&mut list, Piece::Spacer(1));
        push_piece(&mut list, Piece::List);
        push_piece(&mut list, Piece::Spacer(1));
        let hint = fg(ThemeColor::Dim, "  Enter to select · Esc to go back");
        push_piece(&mut list, single_span(hint, 0));
        assert(pieces(list@) =~= self@.screen());
        list
    }
}

/// A menu opens on the current value wherever it is one of the options, and never outside of them.
pub proof fn menu_opens_on_the_current_value(
    title: Seq<char>,
    description: Seq<char>,
    options: Seq<SelectView>,
    current: Seq<char>,
)
    requires
        options.len() > 0,
    ensures
        ({
            let menu = submenu(title, description, options, current);
            &&& menu.selected < options.len()
            &&& (exists|j: int| 0 <= j < options.len() && (#[trigger] options[j]).value == current)
                ==> options[menu.selected as int].value == current
        }),
{
    lemma_first_found(options, current);
}

proof fn lemma_first_found(options: Seq<SelectView>, value: Seq<char>)
    ensures
        first_with(options, value) <= options.len(),
        first_with(options, value) < options.len() ==> options[first_with(
            options,
            value,
        ) as int].value == value,
        forall|j: int| 0 <= j < first_with(options, value) ==> (#[trigger] options[j]).value != value,
    decreases options.len(),
{
    if options.len() > 0 && options[0].value != value {
        let rest = options.skip(1);
        lemma_first_found(rest, value);
        let i = first_with(options, value);
        if i < options.len() {
            assert(rest[i - 1] == options[i as int]);
        }
        assert forall|j: int| 0 <= j < i implies (#[trigger] options[j]).value != value by {
            if j > 0 {
                assert(rest[j - 1] == options[j]);
            }
        }
    }
}

} // verus!
