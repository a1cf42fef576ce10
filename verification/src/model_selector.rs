//! Searchable interactive model selector.

use crate::fuzzy_list::{narrow, narrowed};
use crate::keybinding_hints::{bound_text, hint_spans, key_hint, KeyMatches, KeyTable};
use crate::models::{
    model_opt, model_views, models_are_equal, same_model, Model, ModelView,
};
use crate::order::{is_stable_order, ranks, sort_indices, stable_order, Ranked};
use crate::scroll::{
    clamp_selection, clamped, valid_selection, visible_range, window_end, window_start, wrap_down,
    wrap_up, wrapped_down, wrapped_up,
};
use crate::session_rows::{position_label, position_text};
use crate::style::{
    colored, fg, plain, push_blank, push_line, push_span, push_span_line, raw, span_lines, spans,
    Span, SpanView, ThemeColor,
};
use crate::text::{
    char_texts, chars_of, is_text_at_most, lemma_text_order_total, lemma_text_order_transitive,
    split, split_chars, string_of, text_at_most,
};
use crate::transcript::{line_pieces, pieces, push_lines, push_piece, Piece, PieceView};
use vstd::prelude::*;
use vstd::string::*;

verus! {

broadcast use vstd::string::group_string_axioms;

/// How many models are shown at once.
pub const MAX_VISIBLE: usize = 10;

/// Which models are listed: all of them, or those that the session is limited to.
#[derive(Debug, Clone, Copy, PartialEq, Eq, Structural)]
pub enum ModelScope {
    All,
    Scoped,
}

/// What a key press asks of the surroundings.
#[derive(Debug)]
pub enum ModelSelectorAction {
    Nothing,
    /// The model is to become the default model of the default provider, and to be used.
    Select(Model),
    Cancel,
    /// The press belongs to the search input.
    Search,
}

/// The content of an action.
#[verifier::ext_equal]
pub enum ModelActionView {
    Nothing,
    Select(ModelView),
    Cancel,
    Search,
}

impl View for ModelSelectorAction {
    type V = ModelActionView;

    open spec fn view(&self) -> ModelActionView {
        match self {
            ModelSelectorAction::Nothing => ModelActionView::Nothing,
            ModelSelectorAction::Select(model) => ModelActionView::Select(model@),
            ModelSelectorAction::Cancel => ModelActionView::Cancel,
            ModelSelectorAction::Search => ModelActionView::Search,
        }
    }
}

/// What a search looks through for a model.
pub open spec fn search_text(m: ModelView) -> Seq<char> {
    m.provider + " "@ + m.full_id() + " "@ + m.provider + " "@ + m.id + m.name_suffix()
}

/// What a search looks through for a model.
pub fn selector_search_text(model: &Model) -> (r: String)
    ensures
        r@ == search_text(model@),
{
    model.provider.clone().concat(" ").concat(model.full_id().as_str()).concat(" ").concat(
        model.provider.as_str(),
    ).concat(" ").concat(model.id.as_str()).concat(model.name_suffix().as_str())
}

/// What orders the models: the current one first, then by provider.
pub struct ProviderKey {
    pub current: bool,
    pub provider: Vec<char>,
}

impl Ranked for ProviderKey {
    type Rank = (bool, Seq<char>);

    open spec fn rank(&self) -> (bool, Seq<char>) {
        (self.current, self.provider@)
    }

    open spec fn at_most(a: (bool, Seq<char>), b: (bool, Seq<char>)) -> bool {
        (a.0 && !b.0) || (a.0 == b.0 && text_at_most(a.1, b.1))
    }

    proof fn total(a: (bool, Seq<char>), b: (bool, Seq<char>)) {
        lemma_text_order_total(a.1, b.1);
    }

    proof fn transitive(a: (bool, Seq<char>), b: (bool, Seq<char>), c: (bool, Seq<char>)) {
        if text_at_most(a.1, b.1) && text_at_most(b.1, c.1) {
            lemma_text_order_transitive(a.1, b.1, c.1);
        }
    }

    fn is_at_most(&self, other: &Self) -> bool {
        (self.current && !other.current) || (self.current == other.current && is_text_at_most(
            self.provider.as_slice(),
            other.provider.as_slice(),
        ))
    }
}

/// What orders each of the models.
pub open spec fn provider_keys(models: Seq<ModelView>, current: Option<ModelView>) -> Seq<
    (bool, Seq<char>),
> {
    models.map_values(|m: ModelView| (same_model(current, m), m.provider))
}

/// The models with the current one first and the others by provider.
pub open spec fn by_provider(models: Seq<ModelView>, current: Option<ModelView>) -> Seq<ModelView> {
    stable_order::<ProviderKey>(provider_keys(models, current)).map_values(
        |i: usize| models[i as int],
    )
}

/// The models with the current one first and the others by provider.
pub fn sort_models(models: &Vec<Model>, current: &Option<Model>) -> (r: Vec<Model>)
    ensures
        model_views(r@) == by_provider(model_views(models@), model_opt(*current)),
{
    let ghost wanted = provider_keys(model_views(models@), model_opt(*current));
    let mut keys: Vec<ProviderKey> = Vec::new();
    let mut i: usize = 0;
    while i < models.len()
        invariant
            i <= models.len(),
            wanted == provider_keys(model_views(models@), model_opt(*current)),
            ranks(keys@) =~= wanted.take(i as int),
        decreases models.len() - i,
    {
        let key = ProviderKey {
            current: models_are_equal(current, &models[i]),
            provider: chars_of(models[i].provider.as_str()),
        };
        let ghost before = keys@;
        keys.push(key);
        assert(ranks(keys@) =~= ranks(before).push(key.rank()));
        i = i + 1;
    }
    assert(ranks(keys@) =~= wanted);
    let order = sort_indices(&keys);
    let mut r: Vec<Model> = Vec::new();
    let mut p: usize = 0;
    while p < order.len()
        invariant
            p <= order.len(),
            is_stable_order::<ProviderKey>(order@, wanted),
            wanted.len() == models.len(),
            model_views(r@) =~= order@.map_values(
                |i: usize| model_views(models@)[i as int],
            ).take(p as int),
        decreases order.len() - p,
    {
        let at: usize = order[p];
        let ghost before = r@;
        r.push(models[at].clone());
        assert(model_views(r@) =~= model_views(before).push(models[at as int]@));
        p = p + 1;
    }
    assert(model_views(r@) =~= by_provider(model_views(models@), model_opt(*current)));
    r
}

/// The models of the scope, each as the registry knows it now, where it does.
pub open spec fn renewed(scoped: Seq<ModelView>, found: Seq<Option<ModelView>>) -> Seq<ModelView> {
    Seq::new(
        scoped.len(),
        |i: int|
            if i < found.len() && found[i] is Some {
                found[i]->0
            } else {
                scoped[i]
            },
    )
}

/// The models of the scope, each as the registry knows it now, where it does.
pub fn renew_scoped(scoped: Vec<Model>, found: &Vec<Option<Model>>) -> (r: Vec<Model>)
    ensures
        model_views(r@) == renewed(
            model_views(scoped@),
            found@.map_values(|m: Option<Model>| model_opt(m)),
        ),
{
    let mut r: Vec<Model> = Vec::new();
    let ghost views = found@.map_values(|m: Option<Model>| model_opt(m));
    let mut i: usize = 0;
    while i < scoped.len()
        invariant
            i <= scoped.len(),
            views == found@.map_values(|m: Option<Model>| model_opt(m)),
            model_views(r@) =~= renewed(model_views(scoped@), views).take(i as int),
        decreases scoped.len() - i,
    {
        let model = if i < found.len() {
            match &found[i] {
                Some(model) => model.clone(),
                None => scoped[i].clone(),
            }
        } else {
            scoped[i].clone()
        };
        let ghost before = r@;
        r.push(model);
        assert(model_views(r@) =~= model_views(before).push(model@));
        i = i + 1;
    }
    assert(model_views(r@) =~= renewed(model_views(scoped@), views));
    r
}

/// Searches configured-provider models and persists the selected default.
#[derive(Debug)]
pub struct ModelSelectorComponent {
    pub all_models: Vec<Model>,
    pub scoped_models: Vec<Model>,
    pub scope: ModelScope,
    pub query: String,
    /// How well each of all models matches the query, if it does.
    pub all_scores: Vec<Option<i64>>,
    /// How well each model of the scope matches the query, if it does.
    pub scoped_scores: Vec<Option<i64>>,
    /// The models of the current scope that are listed.
    pub filtered: Vec<usize>,
    pub selected_index: usize,
    pub current_model: Option<Model>,
    pub error_message: Option<String>,
}

/// The content of the selector.
#[verifier::ext_equal]
pub struct ModelSelectorView {
    pub all: Seq<ModelView>,
    pub scoped: Seq<ModelView>,
    pub scope: ModelScope,
    pub query: Seq<char>,
    pub all_scores: Seq<Option<i64>>,
    pub scoped_scores: Seq<Option<i64>>,
    pub filtered: Seq<usize>,
    pub selected: int,
    pub current: Option<ModelView>,
    pub error: Option<Seq<char>>,
}

impl View for ModelSelectorComponent {
    type V = ModelSelectorView;

    open spec fn view(&self) -> ModelSelectorView {
        ModelSelectorView {
            all: model_views(self.all_models@),
            scoped: model_views(self.scoped_models@),
            scope: self.scope,
            query: self.query@,
            all_scores: self.all_scores@,
            scoped_scores: self.scoped_scores@,
            filtered: self.filtered@,
            selected: self.selected_index as int,
            current: model_opt(self.current_model),
            error: match self.error_message {
                Some(e) => Some(e@),
                None => None,
            },
        }
    }
}

/// The position of the current model among the models, or the first.
pub open spec fn current_position(models: Seq<ModelView>, current: Option<ModelView>) -> int {
    if exists|i: int| is_first_current(models, current, i) {
        choose|i: int| is_first_current(models, current, i)
    } else {
        0
    }
}

/// Whether the model at the position is the first that is current.
pub open spec fn is_first_current(
    models: Seq<ModelView>,
    current: Option<ModelView>,
    i: int,
) -> bool {
    0 <= i < models.len() && same_model(current, models[i]) && forall|j: int|
        0 <= j < i ==> !same_model(current, #[trigger] models[j])
}

/// All positions of a list.
pub open spec fn positions(len: nat) -> Seq<usize> {
    Seq::new(len, |i: int| i as usize)
}

impl ModelSelectorView {
    /// The models of the current scope.
    pub open spec fn active(self) -> Seq<ModelView> {
        match self.scope {
            ModelScope::All => self.all,
            ModelScope::Scoped => self.scoped,
        }
    }

    /// How well they match.
    pub open spec fn active_scores(self) -> Seq<Option<i64>> {
        match self.scope {
            ModelScope::All => self.all_scores,
            ModelScope::Scoped => self.scoped_scores,
        }
    }

    /// The models that are listed: those of the current scope, narrowed by the search.
    pub open spec fn shown(self) -> Seq<usize> {
        narrowed(positions(self.active().len()), self.query, self.active_scores())
    }

    /// The selector with its list brought up to date.
    pub open spec fn filtered_again(self) -> ModelSelectorView {
        ModelSelectorView {
            filtered: self.shown(),
            selected: clamped(self.selected, self.shown().len() as int),
            ..self
        }
    }

    /// The selector in a scope, with the current model selected.
    pub open spec fn scoped_to(self, scope: ModelScope) -> ModelSelectorView {
        if self.scope == scope {
            self
        } else {
            let switched = ModelSelectorView { scope, ..self };
            (ModelSelectorView {
                selected: current_position(switched.active(), self.current),
                ..switched
            }).filtered_again()
        }
    }

    /// The model at a position of the list.
    pub open spec fn model_at(self, at: int) -> ModelView {
        self.active()[self.filtered[at] as int]
    }

    /// The selector after a key press, and what the press asks for.
    pub open spec fn pressed(self, keys: KeyMatches) -> (ModelSelectorView, ModelActionView) {
        let len = self.filtered.len() as int;
        if keys.has("tui.input.tab"@) {
            if self.scoped.len() > 0 {
                (
                    self.scoped_to(
                        match self.scope {
                            ModelScope::All => ModelScope::Scoped,
                            ModelScope::Scoped => ModelScope::All,
                        },
                    ),
                    ModelActionView::Nothing,
                )
            } else {
                (self, ModelActionView::Nothing)
            }
        } else if keys.has("tui.select.up"@) {
            (
                ModelSelectorView { selected: wrapped_up(self.selected, len), ..self },
                ModelActionView::Nothing,
            )
        } else if keys.has("tui.select.down"@) {
            (
                ModelSelectorView { selected: wrapped_down(self.selected, len), ..self },
                ModelActionView::Nothing,
            )
        } else if keys.has("tui.select.confirm"@) {
            if len > 0 {
                (self, ModelActionView::Select(self.model_at(self.selected)))
            } else {
                (self, ModelActionView::Nothing)
            }
        } else if keys.has("tui.select.cancel"@) {
            (self, ModelActionView::Cancel)
        } else {
            (self, ModelActionView::Search)
        }
    }

    /// The row of the model at a position of the list.
    pub open spec fn row(self, at: int) -> Seq<SpanView> {
        let model = self.model_at(at);
        let head = if at == self.selected {
            seq![colored(ThemeColor::Accent, "→ "@), colored(ThemeColor::Accent, model.id)]
        } else {
            seq![plain("  "@), plain(model.id)]
        };
        let mark = if same_model(self.current, model) {
            seq![colored(ThemeColor::Success, " ✓"@)]
        } else {
            Seq::empty()
        };
        head + seq![
            plain(" "@),
            colored(ThemeColor::Muted, "["@ + model.provider + "]"@),
        ] + mark
    }

    /// The lines under the rows: the registry's error, that nothing matches, or the name of the
    /// selected model.
    pub open spec fn notes(self) -> Seq<Seq<SpanView>> {
        match self.error {
            Some(error) => split(error, '\n').map_values(
                |line: Seq<char>| seq![colored(ThemeColor::Error, line)],
            ),
            None => if self.filtered.len() == 0 {
                seq![seq![colored(ThemeColor::Muted, "  No matching models"@)]]
            } else {
                seq![
                    Seq::empty(),
                    seq![
                        colored(
                            ThemeColor::Muted,
                            "  Model Name: "@ + self.model_at(self.selected).name,
                        ),
                    ],
                ]
            },
        }
    }

    /// The lines of the list: a window of rows around the selection, the position if rows are
    /// outside it, and the notes.
    pub open spec fn list_lines(self) -> Seq<Seq<SpanView>> {
        let len = self.filtered.len() as int;
        let start = window_start(self.selected, len, MAX_VISIBLE as int);
        let end = window_end(self.selected, len, MAX_VISIBLE as int);
        let rows = Seq::new((end - start) as nat, |k: int| self.row(start + k));
        let position = if start > 0 || end < len {
            seq![
                seq![
                    colored(ThemeColor::Muted, position_label(self.selected as nat, len as nat)),
                ],
            ]
        } else {
            Seq::empty()
        };
        rows + position + self.notes()
    }

    /// The line that tells the current scope.
    pub open spec fn scope_line(self) -> Seq<SpanView> {
        let all = if self.scope == ModelScope::All {
            ThemeColor::Accent
        } else {
            ThemeColor::Muted
        };
        let scoped = if self.scope == ModelScope::Scoped {
            ThemeColor::Accent
        } else {
            ThemeColor::Muted
        };
        seq![
            colored(ThemeColor::Muted, "Scope: "@),
            colored(all, "all"@),
            colored(ThemeColor::Muted, " | "@),
            colored(scoped, "scoped"@),
        ]
    }

    /// The lines above the search: the scope and how to change it, or where the models come from.
    pub open spec fn heading(self, table: KeyTable) -> Seq<Seq<SpanView>> {
        if self.scoped.len() == 0 {
            seq![
                seq![
                    colored(
                        ThemeColor::Warning,
                        "Only showing models from configured providers. Use /login to add providers."@,
                    ),
                ],
            ]
        } else {
            seq![
                self.scope_line(),
                hint_spans(bound_text(table, "tui.input.tab"@), "scope"@).push(
                    colored(ThemeColor::Muted, " (all/scoped)"@),
                ),
            ]
        }
    }
}

impl ModelSelectorView {
    /// The pieces of the selector: the scope, the search and the list, between two borders.
    pub open spec fn screen(self, table: KeyTable) -> Seq<PieceView> {
        seq![PieceView::Border(ThemeColor::Border), PieceView::Spacer(1)] + line_pieces(
            self.heading(table),
        ) + seq![PieceView::Spacer(1), PieceView::Input, PieceView::Spacer(1)] + line_pieces(
            self.list_lines(),
        ) + seq![PieceView::Spacer(1), PieceView::Border(ThemeColor::Border)]
    }
}

fn current_index(models: &Vec<Model>, current: &Option<Model>) -> (r: usize)
    ensures
        r == current_position(model_views(models@), model_opt(*current)),
{
    let ghost views = model_views(models@);
    let mut i: usize = 0;
    while i < models.len()
        invariant
            i <= models.len(),
            views == model_views(models@),
            forall|j: int| 0 <= j < i ==> !same_model(model_opt(*current), #[trigger] views[j]),
        decreases models.len() - i,
    {
        assert(views[i as int] == models[i as int]@);
        if models_are_equal(current, &models[i]) {
            proof {
                assert(is_first_current(views, model_opt(*current), i as int));
                let k = current_position(views, model_opt(*current));
                assert(is_first_current(views, model_opt(*current), k));
            }
            return i;
        }
        i = i + 1;
    }
    assert forall|k: int| !is_first_current(views, model_opt(*current), k) by {
        if 0 <= k < views.len() {
            assert(!same_model(model_opt(*current), views[k]));
        }
    }
    0
}

/// All positions of a list.
pub fn all_positions(len: usize) -> (r: Vec<usize>)
    ensures
        r@ == positions(len as nat),
{
    let mut r: Vec<usize> = Vec::new();
    let mut i: usize = 0;
    while i < len
        invariant
            i <= len,
            r@ =~= positions(i as nat),
        decreases len - i,
    {
        r.push(i);
        i = i + 1;
    }
    r
}

impl ModelSelectorComponent {
    /// Whether the list is up to date and the selection is in it.
    pub open spec fn wf(&self) -> bool {
        &&& self@.filtered == self@.shown()
        &&& valid_selection(self@.selected, self@.filtered.len() as int)
        &&& forall|k: int|
            0 <= k < self@.filtered.len() ==> #[trigger] self@.filtered[k] < self@.active().len()
    }

    /// The selector over the available models and those of the scope, with the current model
    /// selected. With a scope, its models are listed first.
    pub fn new(
        current_model: Option<Model>,
        error_message: Option<String>,
        available_models: Vec<Model>,
        scoped_models: Vec<Model>,
    ) -> (r: Self)
        ensures
            r.wf(),
            ({
                let all = by_provider(model_views(available_models@), model_opt(current_model));
                let scoped = model_views(scoped_models@);
                let active = if scoped.len() == 0 {
                    all
                } else {
                    scoped
                };
                r@ == (ModelSelectorView {
                    all,
                    scoped,
                    scope: if scoped.len() == 0 {
                        ModelScope::All
                    } else {
                        ModelScope::Scoped
                    },
                    query: Seq::empty(),
                    all_scores: Seq::empty(),
                    scoped_scores: Seq::empty(),
                    filtered: Seq::empty(),
                    selected: current_position(active, model_opt(current_model)),
                    current: model_opt(current_model),
                    error: match error_message {
                        Some(e) => Some(e@),
                        None => None,
                    },
                }).filtered_again()
            }),
    {
        let all_models = sort_models(&available_models, &current_model);
        assert(model_views(scoped_models@).len() == scoped_models.len());
        let scope = if scoped_models.len() == 0 {
            ModelScope::All
        } else {
            ModelScope::Scoped
        };
        let selected_index = if scoped_models.len() == 0 {
            current_index(&all_models, &current_model)
        } else {
            current_index(&scoped_models, &current_model)
        };
        let mut r = ModelSelectorComponent {
            all_models,
            scoped_models,
            scope,
            query: String::new(),
            all_scores: Vec::new(),
            scoped_scores: Vec::new(),
            filtered: Vec::new(),
            selected_index,
            current_model,
            error_message,
        };
        assert(r@.filtered =~= Seq::<usize>::empty());
        assert(r@.all_scores =~= Seq::<Option<i64>>::empty());
        assert(r@.scoped_scores =~= Seq::<Option<i64>>::empty());
        r.filter_models();
        r
    }

    /// Brings the list up to date.
    pub fn filter_models(&mut self)
        ensures
            final(self)@ == old(self)@.filtered_again(),
            final(self).wf(),
    {
        let len: usize = match self.scope {
            ModelScope::All => self.all_models.len(),
            ModelScope::Scoped => self.scoped_models.len(),
        };
        assert(len == self@.active().len());
        let items = all_positions(len);
        self.filtered = match self.scope {
            ModelScope::All => narrow(items, self.query.as_str(), &self.all_scores),
            ModelScope::Scoped => narrow(items, self.query.as_str(), &self.scoped_scores),
        };
        self.selected_index = clamp_selection(self.selected_index, self.filtered.len());
        assert(self@ =~= old(self)@.filtered_again());
        assert forall|k: int| 0 <= k < self@.filtered.len() implies #[trigger] self@.filtered[k]
            < self@.active().len() by {
            assert(positions(len as nat).contains(self.filtered[k]));
        }
    }

    /// Changes the search. The scores tell how well each model matches it.
    pub fn set_query(
        &mut self,
        query: &str,
        all_scores: Vec<Option<i64>>,
        scoped_scores: Vec<Option<i64>>,
    )
        ensures
            final(self)@ == (ModelSelectorView {
                query: query@,
                all_scores: all_scores@,
                scoped_scores: scoped_scores@,
                ..old(self)@
            }).filtered_again(),
            final(self).wf(),
    {
        self.query = query.to_owned();
        self.all_scores = all_scores;
        self.scoped_scores = scoped_scores;
        assert(self@ =~= (ModelSelectorView {
            query: query@,
            all_scores: all_scores@,
            scoped_scores: scoped_scores@,
            ..old(self)@
        }));
        self.filter_models();
    }

    /// Lists the models of the scope, with the current model selected.
    pub fn set_scope(&mut self, scope: ModelScope)
        requires
            old(self).wf(),
        ensures
            final(self)@ == old(self)@.scoped_to(scope),
            final(self).wf(),
    {
        if self.scope == scope {
            return;
        }
        self.scope = scope;
        self.selected_index = match scope {
            ModelScope::All => current_index(&self.all_models, &self.current_model),
            ModelScope::Scoped => current_index(&self.scoped_models, &self.current_model),
        };
        let ghost switched = ModelSelectorView { scope, ..old(self)@ };
        assert(self@ =~= (ModelSelectorView {
            selected: current_position(switched.active(), switched.current),
            ..switched
        }));
        self.filter_models();
    }

    fn model_at(&self, at: usize) -> (r: &Model)
        requires
            self.wf(),
            at < self.filtered.len(),
        ensures
            r@ == self@.model_at(at as int),
    {
        let k: usize = self.filtered[at];
        assert(k == self@.filtered[at as int]);
        match self.scope {
            ModelScope::All => &self.all_models[k],
            ModelScope::Scoped => &self.scoped_models[k],
        }
    }

    /// Takes in a key press.
    pub fn handle_input(&mut self, keys: &KeyMatches) -> (r: ModelSelectorAction)
        requires
            old(self).wf(),
        ensures
            (final(self)@, r@) == old(self)@.pressed(*keys),
            final(self).wf(),
    {
        let len: usize = self.filtered.len();
        assert(self@.scoped.len() == self.scoped_models.len());
        if keys.matches("tui.input.tab") {
            if self.scoped_models.len() > 0 {
                let other = match self.scope {
                    ModelScope::All => ModelScope::Scoped,
                    ModelScope::Scoped => ModelScope::All,
                };
                self.set_scope(other);
            }
            ModelSelectorAction::Nothing
        } else if keys.matches("tui.select.up") {
            self.selected_index = wrap_up(self.selected_index, len);
            ModelSelectorAction::Nothing
        } else if keys.matches("tui.select.down") {
            self.selected_index = wrap_down(self.selected_index, len);
            ModelSelectorAction::Nothing
        } else if keys.matches("tui.select.confirm") {
            if len > 0 {
                ModelSelectorAction::Select(self.model_at(self.selected_index).clone())
            } else {
                ModelSelectorAction::Nothing
            }
        } else if keys.matches("tui.select.cancel") {
            ModelSelectorAction::Cancel
        } else {
            ModelSelectorAction::Search
        }
    }

    fn row(&self, at: usize) -> (r: Vec<Span>)
        requires
            self.wf(),
            at < self.filtered.len(),
        ensures
            spans(r@) == self@.row(at as int),
    {
        let model = self.model_at(at);
        let mut line: Vec<Span> = Vec::new();
        if at == self.selected_index {
            push_span(&mut line, fg(ThemeColor::Accent, "→ "));
            push_span(&mut line, fg(ThemeColor::Accent, model.id.as_str()));
        } else {
            push_span(&mut line, raw("  "));
            push_span(&mut line, raw(model.id.as_str()));
        }
        push_span(&mut line, raw(" "));
        let provider = "[".to_owned().concat(model.provider.as_str()).concat("]");
        push_span(&mut line, fg(ThemeColor::Muted, provider.as_str()));
        if models_are_equal(&self.current_model, model) {
            push_span(&mut line, fg(ThemeColor::Success, " ✓"));
        }
        assert(spans(line@) =~= self@.row(at as int));
        line
    }

    fn push_notes(&self, lines: &mut Vec<Vec<Span>>)
        requires
            self.wf(),
        ensures
            span_lines(final(lines)@) == span_lines(old(lines)@) + self@.notes(),
    {
        let ghost before = span_lines(lines@);
        match &self.error_message {
            Some(error) => {
                let parts = split_chars(&chars_of(error.as_str()), '\n');
                let ghost notes = self@.notes();
                assert(notes.len() == parts.len());
                let mut i: usize = 0;
                while i < parts.len()
                    invariant
                        i <= parts.len(),
                        notes == char_texts(parts@).map_values(
                            |line: Seq<char>| seq![colored(ThemeColor::Error, line)],
                        ),
                        span_lines(lines@) =~= before + notes.take(i as int),
                    decreases parts.len() - i,
                {
                    let text = string_of(&parts[i]);
                    push_span_line(lines, fg(ThemeColor::Error, text.as_str()));
                    assert(char_texts(parts@)[i as int] == text@);
                    i = i + 1;
                }
                assert(notes.take(i as int) =~= notes);
            },
            None => {
                if self.filtered.len() == 0 {
                    push_span_line(lines, fg(ThemeColor::Muted, "  No matching models"));
                } else {
                    push_blank(lines);
                    let model = self.model_at(self.selected_index);
                    let name = "  Model Name: ".to_owned().concat(model.name.as_str());
                    push_span_line(lines, fg(ThemeColor::Muted, name.as_str()));
                }
                assert(span_lines(lines@) =~= before + self@.notes());
            },
        }
    }

    /// The lines of the list.
    pub fn render_list(&self) -> (r: Vec<Vec<Span>>)
        requires
            self.wf(),
        ensures
            span_lines(r@) == self@.list_lines(),
    {
        let mut lines: Vec<Vec<Span>> = Vec::new();
        let len: usize = self.filtered.len();
        let (start, end) = visible_range(self.selected_index, len, MAX_VISIBLE);
        let mut i: usize = start;
        while i < end
            invariant
                self.wf(),
                start <= i,
                i <= end || start > end,
                end <= self.filtered.len(),
                span_lines(lines@) =~= Seq::new((i - start) as nat, |k: int| self@.row(start + k)),
            decreases end - i,
        {
            push_line(&mut lines, self.row(i));
            i = i + 1;
        }
        assert(end - start >= 0);
        if start > 0 || end < len {
            push_span_line(
                &mut lines,
                fg(ThemeColor::Muted, position_text(self.selected_index, len).as_str()),
            );
        }
        self.push_notes(&mut lines);
        assert(span_lines(lines@) =~= self@.list_lines());
        lines
    }

    /// The line that tells the current scope.
    pub fn scope_text(&self) -> (r: Vec<Span>)
        ensures
            spans(r@) == self@.scope_line(),
    {
        let all = match self.scope {
            ModelScope::All => ThemeColor::Accent,
            ModelScope::Scoped => ThemeColor::Muted,
        };
        let scoped = match self.scope {
            ModelScope::All => ThemeColor::Muted,
            ModelScope::Scoped => ThemeColor::Accent,
        };
        let mut line: Vec<Span> = Vec::new();
        push_span(&mut line, fg(ThemeColor::Muted, "Scope: "));
        push_span(&mut line, fg(all, "all"));
        push_span(&mut line, fg(ThemeColor::Muted, " | "));
        push_span(&mut line, fg(scoped, "scoped"));
        assert(spans(line@) =~= self@.scope_line());
        line
    }

    /// The lines above the search.
    pub fn heading(&self, table: &KeyTable) -> (r: Vec<Vec<Span>>)
        ensures
            span_lines(r@) == self@.heading(*table),
    {
        let mut lines: Vec<Vec<Span>> = Vec::new();
        assert(self@.scoped.len() == self.scoped_models.len());
        if self.scoped_models.len() == 0 {
            push_span_line(
                &mut lines,
                fg(
                    ThemeColor::Warning,
                    "Only showing models from configured providers. Use /login to add providers.",
                ),
            );
        } else {
            push_line(&mut lines, self.scope_text());
            let mut hint = key_hint(table, "tui.input.tab", "scope");
            push_span(&mut hint, fg(ThemeColor::Muted, " (all/scoped)"));
            push_line(&mut lines, hint);
        }
        assert(span_lines(lines@) =~= self@.heading(*table));
        lines
    }

    /// The pieces of the selector.
    pub fn render(&self, table: &KeyTable) -> (r: Vec<Piece>)
        requires
            self.wf(),
        ensures
            pieces(r@) == self@.screen(*table),
    {
        let mut list: Vec<Piece> = Vec::new();
        push_piece(&mut list, Piece::Border(ThemeColor::Border));
        push_piece(&mut list, Piece::Spacer(1));
        push_lines(&mut list, &self.heading(table));
        push_piece(&mut list, Piece::Spacer(1));
        push_piece(&mut list, Piece::Input);
        push_piece(&mut list, Piece::Spacer(1));
        push_lines(&mut list, &self.render_list());
        push_piece(&mut list, Piece::Spacer(1));
        push_piece(&mut list, Piece::Border(ThemeColor::Border));
        assert(pieces(list@) =~= self@.screen(*table));
        list
    }
}

/// Switching the scope back and forth leaves the models and the search as they were, with the
/// current model selected.
pub proof fn scope_switches_back(v: ModelSelectorView, scope: ModelScope)
    requires
        v.scope != scope,
    ensures
        v.scoped_to(scope).scope == scope,
        v.scoped_to(scope).scoped_to(v.scope).scope == v.scope,
        v.scoped_to(scope).scoped_to(v.scope) == (ModelSelectorView {
            selected: current_position(v.active(), v.current),
            ..v
        }).filtered_again(),
{
    let switched = ModelSelectorView { scope, ..v };
    assert(v.scoped_to(scope).scoped_to(v.scope) =~= (ModelSelectorView {
        selected: current_position(v.active(), v.current),
        ..v
    }).filtered_again());
}

} // verus!
