//! Session-scoped model configuration selector.

use crate::fuzzy_list::{narrow, narrowed};
use crate::keybinding_hints::{bound_text, key_text, KeyMatches, KeyTable};
use crate::model_scope::{
    all_off, all_on, clear_all, enable_all, enabled_texts, first_index, is_enabled, is_on, listed,
    move_enabled, moved, position_of_id, sorted_ids, toggle, toggled, EnabledModelIds,
};
use crate::models::{model_views, Model, ModelView};
use crate::scroll::{
    clamp_selection, clamped, valid_selection, visible_range, window_end, window_start, wrap_down,
    wrap_up, wrapped_down, wrapped_up,
};
use crate::session_rows::{position_label, position_text};
use crate::style::{
    bold_colored, bold_fg, colored, fg, plain, push_blank, push_line, push_span, push_span_line,
    raw, span_lines, spans, Span, SpanView, ThemeColor,
};
use crate::text::{decimal, decimal_str, push_text, str_eq, texts};
use crate::transcript::{
    line_pieces, pieces, push_lines, push_piece, push_pieces, single_line, Piece, PieceView,
};
use vstd::prelude::*;
use vstd::string::*;

verus! {

broadcast use vstd::string::group_string_axioms;

/// How many models are shown at once.
pub const MAX_VISIBLE: usize = 8;

/// The models to choose from and those that are enabled.
#[derive(Debug)]
pub struct ModelsConfig {
    pub all_models: Vec<Model>,
    pub enabled_model_ids: EnabledModelIds,
}

/// What a key press asks of the surroundings.
#[derive(Debug, Clone, Copy, PartialEq, Eq, Structural)]
pub enum ScopedModelsAction {
    Nothing,
    /// The enabled models changed.
    Change,
    /// The enabled models are to be saved.
    Persist,
    Cancel,
    /// The press belongs to the search input.
    Search,
}

/// Enables, disables, reorders, and optionally persists the models used by cycling.
#[derive(Debug)]
pub struct ScopedModelsSelectorComponent {
    pub models: Vec<Model>,
    pub all_ids: Vec<String>,
    pub enabled_ids: EnabledModelIds,
    pub query: String,
    /// How well each model matches the query, if it does.
    pub scores: Vec<Option<i64>>,
    /// The models that are listed.
    pub filtered_items: Vec<usize>,
    pub selected_index: usize,
    pub is_dirty: bool,
}

/// The content of the selector.
#[verifier::ext_equal]
pub struct ScopedView {
    pub models: Seq<ModelView>,
    pub enabled: Option<Seq<Seq<char>>>,
    pub query: Seq<char>,
    pub scores: Seq<Option<i64>>,
    pub filtered: Seq<usize>,
    pub selected: int,
    pub dirty: bool,
}

/// The full ids of models.
pub open spec fn full_ids(models: Seq<ModelView>) -> Seq<Seq<char>> {
    models.map_values(|m: ModelView| m.full_id())
}

/// The index of the last model with the full id.
pub open spec fn model_with_id(models: Seq<ModelView>, id: Seq<char>) -> Option<usize>
    decreases models.len(),
{
    if models.len() == 0 {
        None
    } else if models.last().full_id() == id {
        Some((models.len() - 1) as usize)
    } else {
        model_with_id(models.drop_last(), id)
    }
}

/// The models with the ids, in their order; ids without a model are left out.
pub open spec fn models_with_ids(models: Seq<ModelView>, ids: Seq<Seq<char>>) -> Seq<usize>
    decreases ids.len(),
{
    if ids.len() == 0 {
        Seq::empty()
    } else {
        let r = models_with_ids(models, ids.drop_last());
        match model_with_id(models, ids.last()) {
            Some(i) => r.push(i),
            None => r,
        }
    }
}

/// The ids of the models of a provider.
pub open spec fn ids_of_provider(
    models: Seq<ModelView>,
    ids: Seq<Seq<char>>,
    provider: Seq<char>,
) -> Seq<Seq<char>>
    decreases ids.len(),
{
    if ids.len() == 0 {
        Seq::empty()
    } else {
        let r = ids_of_provider(models, ids.drop_last(), provider);
        match model_with_id(models, ids.last()) {
            Some(i) if models[i as int].provider == provider => r.push(ids.last()),
            _ => r,
        }
    }
}

impl ScopedView {
    /// The models that are listed: the enabled ones first, narrowed by the search.
    pub open spec fn shown(self) -> Seq<usize> {
        narrowed(
            models_with_ids(self.models, listed(self.enabled, full_ids(self.models))),
            self.query,
            self.scores,
        )
    }

    /// The selector with its list brought up to date.
    pub open spec fn refreshed(self) -> ScopedView {
        ScopedView {
            filtered: self.shown(),
            selected: clamped(self.selected, self.shown().len() as int),
            ..self
        }
    }

    /// The selector with other models enabled.
    pub open spec fn with_enabled(self, enabled: Option<Seq<Seq<char>>>) -> ScopedView {
        (ScopedView { enabled, dirty: true, ..self }).refreshed()
    }

    /// The full ids of the models that are listed.
    pub open spec fn listed_ids(self) -> Seq<Seq<char>> {
        self.filtered.map_values(|i: usize| self.models[i as int].full_id())
    }

    /// What a change of all models applies to: with a search, the models that it lists.
    pub open spec fn targets(self) -> Option<Seq<Seq<char>>> {
        if self.query.len() > 0 {
            Some(self.listed_ids())
        } else {
            None
        }
    }

    /// The model that is selected.
    pub open spec fn selected_model(self) -> ModelView {
        self.models[self.filtered[self.selected] as int]
    }

    /// The selector after the selected model swaps places with a neighbour in the enabled models.
    pub open spec fn reordered(self, up: bool) -> (ScopedView, ScopedModelsAction) {
        let id = self.selected_model().full_id();
        if self.filtered.len() == 0 || self.enabled is None || !is_on(self.enabled, id) {
            (self, ScopedModelsAction::Nothing)
        } else {
            let from = first_index(self.enabled->0, id);
            if up && from > 0 {
                let selected = if self.selected > 0 {
                    self.selected - 1
                } else {
                    usize::MAX as int
                };
                (
                    (ScopedView { selected, ..self }).with_enabled(moved(self.enabled, id, -1)),
                    ScopedModelsAction::Change,
                )
            } else if !up && from + 1 < self.enabled->0.len() {
                (
                    (ScopedView { selected: self.selected + 1, ..self }).with_enabled(
                        moved(self.enabled, id, 1),
                    ),
                    ScopedModelsAction::Change,
                )
            } else {
                (self, ScopedModelsAction::Nothing)
            }
        }
    }

    /// The selector after all models of the selected model's provider are switched: off if all of
    /// them are on, otherwise on.
    pub open spec fn provider_toggled(self) -> ScopedView {
        let all = full_ids(self.models);
        let ids = ids_of_provider(self.models, all, self.selected_model().provider);
        self.with_enabled(
            if forall|k: int| 0 <= k < ids.len() ==> is_on(self.enabled, #[trigger] ids[k]) {
                all_off(self.enabled, all, Some(ids))
            } else {
                all_on(self.enabled, all, Some(ids))
            },
        )
    }

    /// The selector after a key press, and what the press asks for.
    pub open spec fn pressed(self, keys: KeyMatches) -> (ScopedView, ScopedModelsAction) {
        let len = self.filtered.len() as int;
        let all = full_ids(self.models);
        if keys.has("tui.select.up"@) {
            (
                ScopedView { selected: wrapped_up(self.selected, len), ..self },
                ScopedModelsAction::Nothing,
            )
        } else if keys.has("tui.select.down"@) {
            (
                ScopedView { selected: wrapped_down(self.selected, len), ..self },
                ScopedModelsAction::Nothing,
            )
        } else if keys.has("app.models.reorderUp"@) {
            self.reordered(true)
        } else if keys.has("app.models.reorderDown"@) {
            self.reordered(false)
        } else if keys.has("tui.select.confirm"@) {
            if len > 0 {
                (
                    self.with_enabled(toggled(self.enabled, self.selected_model().full_id())),
                    ScopedModelsAction::Change,
                )
            } else {
                (self, ScopedModelsAction::Nothing)
            }
        } else if keys.has("app.models.enableAll"@) {
            (self.with_enabled(all_on(self.enabled, all, self.targets())), ScopedModelsAction::Change)
        } else if keys.has("app.models.clearAll"@) {
            (
                self.with_enabled(all_off(self.enabled, all, self.targets())),
                ScopedModelsAction::Change,
            )
        } else if keys.has("app.models.toggleProvider"@) {
            if len > 0 {
                (self.provider_toggled(), ScopedModelsAction::Change)
            } else {
                (self, ScopedModelsAction::Nothing)
            }
        } else if keys.has("app.models.save"@) {
            (ScopedView { dirty: false, ..self }, ScopedModelsAction::Persist)
        } else if keys.has("ctrl+c"@) {
            if self.query.len() == 0 {
                (self, ScopedModelsAction::Cancel)
            } else {
                (
                    (ScopedView { query: Seq::empty(), ..self }).refreshed(),
                    ScopedModelsAction::Nothing,
                )
            }
        } else if keys.has("escape"@) {
            (self, ScopedModelsAction::Cancel)
        } else {
            (self, ScopedModelsAction::Search)
        }
    }
}

impl View for ScopedModelsSelectorComponent {
    type V = ScopedView;

    open spec fn view(&self) -> ScopedView {
        ScopedView {
            models: model_views(self.models@),
            enabled: enabled_texts(self.enabled_ids),
            query: self.query@,
            scores: self.scores@,
            filtered: self.filtered_items@,
            selected: self.selected_index as int,
            dirty: self.is_dirty,
        }
    }
}

fn find_model(models: &Vec<Model>, all_ids: &Vec<String>, id: &str) -> (r: Option<usize>)
    requires
        texts(all_ids@) == full_ids(model_views(models@)),
    ensures
        r == model_with_id(model_views(models@), id@),
        r matches Some(i) ==> i < models.len(),
{
    let ghost views = model_views(models@);
    assert(texts(all_ids@).len() == all_ids.len());
    let mut n: usize = all_ids.len();
    assert(views.take(n as int) =~= views);
    while n > 0
        invariant
            n <= all_ids.len(),
            all_ids.len() == models.len(),
            views == model_views(models@),
            texts(all_ids@) == full_ids(views),
            model_with_id(views, id@) == model_with_id(views.take(n as int), id@),
        decreases n,
    {
        proof {
            let shorter = views.take(n as int);
            assert(shorter.last() == views[n - 1]);
            assert(texts(all_ids@)[n - 1] == all_ids[n - 1]@);
            assert(full_ids(views)[n - 1] == views[n - 1].full_id());
            assert(shorter.drop_last() =~= views.take(n - 1));
        }
        if str_eq(all_ids[n - 1].as_str(), id) {
            return Some(n - 1);
        }
        n = n - 1;
    }
    None
}

impl ScopedModelsSelectorComponent {
    /// Whether the ids are those of the models, the list is up to date and the selection is in it.
    pub open spec fn wf(&self) -> bool {
        &&& texts(self.all_ids@) == full_ids(self@.models)
        &&& self@.filtered == self@.shown()
        &&& forall|k: int|
            0 <= k < self.filtered_items.len() ==> #[trigger] self.filtered_items[k]
                < self.models.len()
        &&& valid_selection(self@.selected, self@.filtered.len() as int)
    }

    /// The selector over the models.
    #[must_use]
    pub fn new(config: ModelsConfig) -> (r: Self)
        ensures
            r.wf(),
            r@ == (ScopedView {
                models: model_views(config.all_models@),
                enabled: enabled_texts(config.enabled_model_ids),
                query: Seq::empty(),
                scores: Seq::empty(),
                filtered: Seq::empty(),
                selected: 0,
                dirty: false,
            }).refreshed(),
    {
        let models = config.all_models;
        let mut all_ids: Vec<String> = Vec::new();
        let mut i: usize = 0;
        while i < models.len()
            invariant
                i <= models.len(),
                texts(all_ids@) =~= full_ids(model_views(models@)).take(i as int),
            decreases models.len() - i,
        {
            push_text(&mut all_ids, models[i].full_id());
            i = i + 1;
        }
        assert(texts(all_ids@) =~= full_ids(model_views(models@)));
        let mut r = ScopedModelsSelectorComponent {
            models,
            all_ids,
            enabled_ids: config.enabled_model_ids,
            query: String::new(),
            scores: Vec::new(),
            filtered_items: Vec::new(),
            selected_index: 0,
            is_dirty: false,
        };
        assert(r@.filtered =~= Seq::<usize>::empty());
        assert(r@.scores =~= Seq::<Option<i64>>::empty());
        r.refresh();
        r
    }

    /// The models in the order in which they are listed without a search.
    pub fn build_items(&self) -> (r: Vec<usize>)
        requires
            texts(self.all_ids@) == full_ids(self@.models),
        ensures
            r@ == models_with_ids(self@.models, listed(self@.enabled, full_ids(self@.models))),
            forall|k: int| 0 <= k < r.len() ==> #[trigger] r[k] < self.models.len(),
    {
        let ids = sorted_ids(&self.enabled_ids, &self.all_ids);
        let mut r: Vec<usize> = Vec::new();
        let mut i: usize = 0;
        assert(r@ =~= models_with_ids(self@.models, texts(ids@).take(0)));
        while i < ids.len()
            invariant
                i <= ids.len(),
                texts(self.all_ids@) == full_ids(self@.models),
                r@ == models_with_ids(self@.models, texts(ids@).take(i as int)),
                forall|k: int| 0 <= k < r.len() ==> #[trigger] r[k] < self.models.len(),
            decreases ids.len() - i,
        {
            proof {
                let longer = texts(ids@).take(i + 1);
                assert(longer.drop_last() =~= texts(ids@).take(i as int));
                assert(longer.last() == ids[i as int]@);
            }
            if let Some(m) = find_model(&self.models, &self.all_ids, ids[i].as_str()) {
                r.push(m);
            }
            i = i + 1;
        }
        assert(texts(ids@).take(i as int) =~= texts(ids@));
        r
    }

    /// Brings the list up to date.
    pub fn refresh(&mut self)
        requires
            texts(old(self).all_ids@) == full_ids(old(self)@.models),
        ensures
            final(self)@ == old(self)@.refreshed(),
            final(self).wf(),
    {
        let items = self.build_items();
        let ghost built = items@;
        self.filtered_items = narrow(items, self.query.as_str(), &self.scores);
        self.selected_index = clamp_selection(self.selected_index, self.filtered_items.len());
        assert(self@ =~= old(self)@.refreshed());
        assert forall|k: int| 0 <= k < self.filtered_items.len() implies
            #[trigger] self.filtered_items[k] < self.models.len() by {
            assert(built.contains(self.filtered_items[k]));
        }
    }

    /// Changes the search. `scores` tells how well each model matches it.
    pub fn set_query(&mut self, query: &str, scores: Vec<Option<i64>>)
        requires
            old(self).wf(),
        ensures
            final(self)@ == (ScopedView {
                query: query@,
                scores: scores@,
                ..old(self)@
            }).refreshed(),
            final(self).wf(),
    {
        self.query = query.to_owned();
        self.scores = scores;
        assert(self@ =~= (ScopedView { query: query@, scores: scores@, ..old(self)@ }));
        self.refresh();
    }

    fn set_enabled(&mut self, enabled: EnabledModelIds)
        requires
            texts(old(self).all_ids@) == full_ids(old(self)@.models),
        ensures
            final(self)@ == old(self)@.with_enabled(enabled_texts(enabled)),
            final(self).wf(),
    {
        self.enabled_ids = enabled;
        self.is_dirty = true;
        assert(self@ =~= (ScopedView {
            enabled: enabled_texts(enabled),
            dirty: true,
            ..old(self)@
        }));
        self.refresh();
    }

    /// The full ids of the models that are listed.
    fn listed_ids(&self) -> (r: Vec<String>)
        requires
            self.wf(),
        ensures
            texts(r@) == self@.listed_ids(),
    {
        let mut r: Vec<String> = Vec::new();
        let mut i: usize = 0;
        while i < self.filtered_items.len()
            invariant
                i <= self.filtered_items.len(),
                forall|k: int|
                    0 <= k < self.filtered_items.len() ==> #[trigger] self.filtered_items[k]
                        < self.models.len(),
                texts(r@) =~= self@.listed_ids().take(i as int),
            decreases self.filtered_items.len() - i,
        {
            push_text(&mut r, self.models[self.filtered_items[i]].full_id());
            i = i + 1;
        }
        r
    }

    fn targets(&self) -> (r: EnabledModelIds)
        requires
            self.wf(),
        ensures
            enabled_texts(r) == self@.targets(),
    {
        if self.query.as_str().is_empty() {
            None
        } else {
            Some(self.listed_ids())
        }
    }

    fn provider_ids(&self, provider: &str) -> (r: Vec<String>)
        requires
            self.wf(),
        ensures
            texts(r@) == ids_of_provider(self@.models, full_ids(self@.models), provider@),
    {
        let mut r: Vec<String> = Vec::new();
        let ghost all = full_ids(self@.models);
        let mut i: usize = 0;
        assert(texts(r@) =~= ids_of_provider(self@.models, all.take(0), provider@));
        while i < self.all_ids.len()
            invariant
                i <= self.all_ids.len(),
                all == full_ids(self@.models),
                texts(self.all_ids@) == all,
                texts(r@) == ids_of_provider(self@.models, all.take(i as int), provider@),
            decreases self.all_ids.len() - i,
        {
            proof {
                let longer = all.take(i + 1);
                assert(longer.drop_last() =~= all.take(i as int));
                assert(texts(self.all_ids@)[i as int] == self.all_ids[i as int]@);
                assert(longer.last() == self.all_ids[i as int]@);
            }
            if let Some(m) = find_model(&self.models, &self.all_ids, self.all_ids[i].as_str()) {
                if str_eq(self.models[m].provider.as_str(), provider) {
                    push_text(&mut r, self.all_ids[i].clone());
                }
            }
            i = i + 1;
        }
        assert(texts(self.all_ids@).len() == self.all_ids.len());
        assert(all.take(i as int) =~= all);
        r
    }

    fn are_enabled(&self, ids: &Vec<String>) -> (r: bool)
        ensures
            r == (forall|k: int|
                0 <= k < texts(ids@).len() ==> is_on(self@.enabled, #[trigger] texts(ids@)[k])),
    {
        let mut i: usize = 0;
        while i < ids.len()
            invariant
                i <= ids.len(),
                forall|k: int| 0 <= k < i ==> is_on(self@.enabled, #[trigger] texts(ids@)[k]),
            decreases ids.len() - i,
        {
            assert(texts(ids@)[i as int] == ids[i as int]@);
            if !is_enabled(&self.enabled_ids, ids[i].as_str()) {
                return false;
            }
            i = i + 1;
        }
        true
    }

    fn toggle_provider(&mut self)
        requires
            old(self).wf(),
            old(self)@.filtered.len() > 0,
        ensures
            final(self)@ == old(self)@.provider_toggled(),
            final(self).wf(),
    {
        let provider = self.models[self.filtered_items[self.selected_index]].provider.clone();
        let ids = Some(self.provider_ids(provider.as_str()));
        let all_enabled = match &ids {
            Some(ids) => self.are_enabled(ids),
            None => true,
        };
        let enabled = if all_enabled {
            clear_all(&self.enabled_ids, &self.all_ids, &ids)
        } else {
            enable_all(&self.enabled_ids, &self.all_ids, &ids)
        };
        self.set_enabled(enabled);
    }

    fn reorder(&mut self, up: bool) -> (r: ScopedModelsAction)
        requires
            old(self).wf(),
        ensures
            (final(self)@, r) == old(self)@.reordered(up),
            final(self).wf(),
    {
        if self.filtered_items.len() == 0 {
            return ScopedModelsAction::Nothing;
        }
        let id = self.models[self.filtered_items[self.selected_index]].full_id();
        let can_move = match &self.enabled_ids {
            Some(ids) => {
                let from = position_of_id(ids, id.as_str());
                assert(texts(ids@).len() == ids.len());
                from < ids.len() && (if up {
                    from > 0
                } else {
                    from < ids.len() - 1
                })
            },
            None => false,
        };
        if !can_move {
            return ScopedModelsAction::Nothing;
        }
        let delta: isize = if up {
            -1
        } else {
            1
        };
        let enabled = move_enabled(&self.enabled_ids, id.as_str(), delta);
        if !up {
            self.selected_index = self.selected_index + 1;
        } else if self.selected_index > 0 {
            self.selected_index = self.selected_index - 1;
        } else {
            self.selected_index = usize::MAX;
        }
        assert(self@ =~= (ScopedView { selected: self@.selected, ..old(self)@ }));
        self.set_enabled(enabled);
        ScopedModelsAction::Change
    }

    /// Takes in a key press.
    pub fn handle_input(&mut self, keys: &KeyMatches) -> (r: ScopedModelsAction)
        requires
            old(self).wf(),
        ensures
            (final(self)@, r) == old(self)@.pressed(*keys),
            final(self).wf(),
    {
        let len: usize = self.filtered_items.len();
        if keys.matches("tui.select.up") {
            self.selected_index = wrap_up(self.selected_index, len);
            return ScopedModelsAction::Nothing;
        }
        if keys.matches("tui.select.down") {
            self.selected_index = wrap_down(self.selected_index, len);
            return ScopedModelsAction::Nothing;
        }
        if keys.matches("app.models.reorderUp") {
            return self.reorder(true);
        }
        if keys.matches("app.models.reorderDown") {
            return self.reorder(false);
        }
        if keys.matches("tui.select.confirm") {
            if len == 0 {
                return ScopedModelsAction::Nothing;
            }
            let id = self.models[self.filtered_items[self.selected_index]].full_id();
            let enabled = toggle(&self.enabled_ids, id.as_str());
            self.set_enabled(enabled);
            return ScopedModelsAction::Change;
        }
        if keys.matches("app.models.enableAll") {
            let targets = self.targets();
            let enabled = enable_all(&self.enabled_ids, &self.all_ids, &targets);
            self.set_enabled(enabled);
            return ScopedModelsAction::Change;
        }
        if keys.matches("app.models.clearAll") {
            let targets = self.targets();
            let enabled = clear_all(&self.enabled_ids, &self.all_ids, &targets);
            self.set_enabled(enabled);
            return ScopedModelsAction::Change;
        }
        if keys.matches("app.models.toggleProvider") {
            if len == 0 {
                return ScopedModelsAction::Nothing;
            }
            self.toggle_provider();
            return ScopedModelsAction::Change;
        }
        if keys.matches("app.models.save") {
            self.is_dirty = false;
            return ScopedModelsAction::Persist;
        }
        if keys.matches("ctrl+c") {
            if self.query.as_str().is_empty() {
                return ScopedModelsAction::Cancel;
            }
            self.query = String::new();
            assert(self@ =~= (ScopedView { query: Seq::empty(), ..old(self)@ }));
            self.refresh();
            return ScopedModelsAction::Nothing;
        }
        if keys.matches("escape") {
            return ScopedModelsAction::Cancel;
        }
        ScopedModelsAction::Search
    }

    /// The models that are enabled.
    #[must_use]
    pub fn enabled_model_ids(&self) -> (r: &EnabledModelIds)
        ensures
            *r == self.enabled_ids,
    {
        &self.enabled_ids
    }
}

/// What a search looks through for a model.
pub open spec fn search_text(m: ModelView) -> Seq<char> {
    m.id + " "@ + m.provider + " "@ + m.full_id() + " "@ + m.provider + " "@ + m.id
        + m.name_suffix()
}

/// What a search looks through for a model.
pub fn model_search_text(model: &Model) -> (r: String)
    ensures
        r@ == search_text(model@),
{
    model.id.clone().concat(" ").concat(model.provider.as_str()).concat(" ").concat(
        model.full_id().as_str(),
    ).concat(" ").concat(model.provider.as_str()).concat(" ").concat(model.id.as_str()).concat(
        model.name_suffix().as_str(),
    )
}

impl ScopedView {
    /// The row of the model at a position of the list. Whether it is enabled is only shown where
    /// not all models are.
    pub open spec fn row(self, at: int) -> Seq<SpanView> {
        let model = self.models[self.filtered[at] as int];
        let head = if at == self.selected {
            seq![colored(ThemeColor::Accent, "→ "@), colored(ThemeColor::Accent, model.id)]
        } else {
            seq![plain("  "@), plain(model.id)]
        };
        let provider = colored(ThemeColor::Muted, " ["@ + model.provider + "]"@);
        let status = if self.enabled is None {
            Seq::empty()
        } else if is_on(self.enabled, model.full_id()) {
            seq![colored(ThemeColor::Success, " ✓"@)]
        } else {
            seq![colored(ThemeColor::Dim, " ✗"@)]
        };
        head.push(provider) + status
    }

    /// The lines of the list: a window of rows around the selection, the position if rows are
    /// outside it, and the name of the selected model.
    pub open spec fn list_lines(self) -> Seq<Seq<SpanView>> {
        let len = self.filtered.len() as int;
        let start = window_start(self.selected, len, MAX_VISIBLE as int);
        let end = window_end(self.selected, len, MAX_VISIBLE as int);
        if len == 0 {
            seq![seq![colored(ThemeColor::Muted, "  No matching models"@)]]
        } else {
            let rows = Seq::new((end - start) as nat, |k: int| self.row(start + k));
            let position = if start > 0 || end < len {
                seq![
                    seq![
                        colored(
                            ThemeColor::Muted,
                            position_label(self.selected as nat, len as nat),
                        ),
                    ],
                ]
            } else {
                Seq::empty()
            };
            rows + position + seq![
                Seq::empty(),
                seq![colored(ThemeColor::Muted, "  Model Name: "@ + self.selected_model().name)],
            ]
        }
    }

    /// How many models are enabled.
    pub open spec fn count_text(self) -> Seq<char> {
        match self.enabled {
            None => "all enabled"@,
            Some(ids) => decimal(ids.len()) + "/"@ + decimal(self.models.len()) + " enabled"@,
        }
    }

    /// The footer: the keys, how many models are enabled, and whether that is unsaved.
    pub open spec fn footer(self, table: KeyTable) -> Seq<SpanView> {
        let body = "  "@ + bound_text(table, "tui.select.confirm"@) + " toggle"@ + " · "@
            + bound_text(table, "app.models.enableAll"@) + " all"@ + " · "@ + bound_text(
            table,
            "app.models.clearAll"@,
        ) + " clear"@ + " · "@ + bound_text(table, "app.models.toggleProvider"@) + " provider"@
            + " · "@ + bound_text(table, "app.models.reorderUp"@) + "/"@ + bound_text(
            table,
            "app.models.reorderDown"@,
        ) + " reorder"@ + " · "@ + bound_text(table, "app.models.save"@) + " save"@ + " · "@
            + self.count_text();
        if self.dirty {
            seq![
                colored(ThemeColor::Dim, body + " "@),
                colored(ThemeColor::Warning, "(unsaved)"@),
            ]
        } else {
            seq![colored(ThemeColor::Dim, body)]
        }
    }
}

impl ScopedView {
    /// The pieces of the selector: the title, the search, the list and the keys, between two borders.
    pub open spec fn screen(self, table: KeyTable) -> Seq<PieceView> {
        title_block(table) + line_pieces(self.list_lines()) + footer_block(self.footer(table))
    }
}

/// What stands above the list: the title, its hint and the search.
pub open spec fn title_block(table: KeyTable) -> Seq<PieceView> {
    seq![
        PieceView::Border(ThemeColor::Border),
        PieceView::Spacer(1),
        PieceView::Line(seq![bold_colored(ThemeColor::Accent, "Model Configuration"@)]),
        PieceView::Line(subtitle_spans(table)),
        PieceView::Spacer(1),
        PieceView::Input,
        PieceView::Spacer(1),
    ]
}

/// What stands under the list.
pub open spec fn footer_block(footer: Seq<SpanView>) -> Seq<PieceView> {
    seq![
        PieceView::Spacer(1),
        PieceView::Line(footer),
        PieceView::Border(ThemeColor::Border),
    ]
}

/// The hint under the title.
pub open spec fn subtitle_spans(table: KeyTable) -> Seq<SpanView> {
    seq![
        colored(
            ThemeColor::Muted,
            "Session-only. "@ + bound_text(table, "app.models.save"@) + " to save to settings."@,
        ),
    ]
}

impl ScopedModelsSelectorComponent {
    fn row(&self, at: usize) -> (r: Vec<Span>)
        requires
            self.wf(),
            at < self.filtered_items.len(),
        ensures
            spans(r@) == self@.row(at as int),
    {
        let model = &self.models[self.filtered_items[at]];
        assert(self@.models[self.filtered_items@[at as int] as int] == model@);
        let mut line: Vec<Span> = Vec::new();
        if at == self.selected_index {
            push_span(&mut line, fg(ThemeColor::Accent, "→ "));
            push_span(&mut line, fg(ThemeColor::Accent, model.id.as_str()));
        } else {
            push_span(&mut line, raw("  "));
            push_span(&mut line, raw(model.id.as_str()));
        }
        let provider = " [".to_owned().concat(model.provider.as_str()).concat("]");
        push_span(&mut line, fg(ThemeColor::Muted, provider.as_str()));
        if self.enabled_ids.is_some() {
            let id = model.full_id();
            if is_enabled(&self.enabled_ids, id.as_str()) {
                push_span(&mut line, fg(ThemeColor::Success, " ✓"));
            } else {
                push_span(&mut line, fg(ThemeColor::Dim, " ✗"));
            }
        }
        assert(spans(line@) =~= self@.row(at as int));
        line
    }

    /// The lines of the list.
    pub fn render_list(&self) -> (r: Vec<Vec<Span>>)
        requires
            self.wf(),
        ensures
            span_lines(r@) == self@.list_lines(),
    {
        let mut lines: Vec<Vec<Span>> = Vec::new();
        let len: usize = self.filtered_items.len();
        if len == 0 {
            push_span_line(&mut lines, fg(ThemeColor::Muted, "  No matching models"));
            assert(span_lines(lines@) =~= self@.list_lines());
            return lines;
        }
        let (start, end) = visible_range(self.selected_index, len, MAX_VISIBLE);
        let mut i: usize = start;
        while i < end
            invariant
                self.wf(),
                start <= i,
                i <= end || start > end,
                end <= self.filtered_items.len(),
                span_lines(lines@) =~= Seq::new((i - start) as nat, |k: int| self@.row(start + k)),
            decreases end - i,
        {
            push_line(&mut lines, self.row(i));
            i = i + 1;
        }
        if start > 0 || end < len {
            push_span_line(
                &mut lines,
                fg(ThemeColor::Muted, position_text(self.selected_index, len).as_str()),
            );
        }
        let model = &self.models[self.filtered_items[self.selected_index]];
        assert(self@.selected_model() == model@);
        push_blank(&mut lines);
        let name = "  Model Name: ".to_owned().concat(model.name.as_str());
        push_span_line(&mut lines, fg(ThemeColor::Muted, name.as_str()));
        assert(span_lines(lines@) =~= self@.list_lines());
        lines
    }

    fn count_text(&self) -> (r: String)
        requires
            self.wf(),
        ensures
            r@ == self@.count_text(),
    {
        match &self.enabled_ids {
            None => "all enabled".to_owned(),
            Some(ids) => {
                assert(texts(self.all_ids@).len() == self.all_ids.len());
                decimal_str(ids.len() as u128).concat("/").concat(
                    decimal_str(self.all_ids.len() as u128).as_str(),
                ).concat(" enabled")
            },
        }
    }

    /// The footer: the keys, how many models are enabled, and whether that is unsaved.
    pub fn footer_text(&self, table: &KeyTable) -> (r: Vec<Span>)
        requires
            self.wf(),
        ensures
            spans(r@) == self@.footer(*table),
    {
        let body = "  ".to_owned().concat(key_text(table, "tui.select.confirm").as_str()).concat(
            " toggle",
        ).concat(" · ").concat(key_text(table, "app.models.enableAll").as_str()).concat(
            " all",
        ).concat(" · ").concat(key_text(table, "app.models.clearAll").as_str()).concat(
            " clear",
        ).concat(" · ").concat(key_text(table, "app.models.toggleProvider").as_str()).concat(
            " provider",
        ).concat(" · ").concat(key_text(table, "app.models.reorderUp").as_str()).concat(
            "/",
        ).concat(key_text(table, "app.models.reorderDown").as_str()).concat(" reorder").concat(
            " · ",
        ).concat(key_text(table, "app.models.save").as_str()).concat(" save").concat(
            " · ",
        ).concat(self.count_text().as_str());
        let mut line: Vec<Span> = Vec::new();
        if self.is_dirty {
            push_span(&mut line, fg(ThemeColor::Dim, body.concat(" ").as_str()));
            push_span(&mut line, fg(ThemeColor::Warning, "(unsaved)"));
        } else {
            push_span(&mut line, fg(ThemeColor::Dim, body.as_str()));
        }
        assert(spans(line@) =~= self@.footer(*table));
        line
    }

    /// The hint under the title.
    pub fn subtitle(table: &KeyTable) -> (r: Vec<Span>)
        ensures
            spans(r@) == subtitle_spans(*table),
    {
        let text = "Session-only. ".to_owned().concat(
            key_text(table, "app.models.save").as_str(),
        ).concat(" to save to settings.");
        let mut line: Vec<Span> = Vec::new();
        push_span(&mut line, fg(ThemeColor::Muted, text.as_str()));
        assert(spans(line@) =~= seq![line@[0]@]);
        line
    }

    fn title_pieces(table: &KeyTable) -> (r: Vec<Piece>)
        ensures
            pieces(r@) == title_block(*table),
    {
        let mut list: Vec<Piece> = Vec::new();
        push_piece(&mut list, Piece::Border(ThemeColor::Border));
        push_piece(&mut list, Piece::Spacer(1));
        push_piece(&mut list, single_line(bold_fg(ThemeColor::Accent, "Model Configuration")));
        push_piece(&mut list, Piece::Line(Self::subtitle(table)));
        push_piece(&mut list, Piece::Spacer(1));
        push_piece(&mut list, Piece::Input);
        push_piece(&mut list, Piece::Spacer(1));
        assert(pieces(list@) =~= title_block(*table));
        list
    }

    fn footer_pieces(footer: Vec<Span>) -> (r: Vec<Piece>)
        ensures
            pieces(r@) == footer_block(spans(footer@)),
    {
        let mut list: Vec<Piece> = Vec::new();
        push_piece(&mut list, Piece::Spacer(1));
        push_piece(&mut list, Piece::Line(footer));
        push_piece(&mut list, Piece::Border(ThemeColor::Border));
        assert(pieces(list@) =~= footer_block(spans(footer@)));
        list
    }

    /// The pieces of the selector.
    pub fn render(&self, table: &KeyTable) -> (r: Vec<Piece>)
        requires
            self.wf(),
        ensures
            pieces(r@) == self@.screen(*table),
    {
        let mut list = Self::title_pieces(table);
        push_lines(&mut list, &self.render_list());
        push_pieces(&mut list, Self::footer_pieces(self.footer_text(table)));
        list
    }
}

/// Switching a provider leaves all of its models off if all of them were on, and all of them on
/// otherwise; models of other providers keep their state where they are switched off.
pub proof fn provider_toggle_takes_effect(v: ScopedView, id: Seq<char>)
    requires
        v.filtered.len() > 0,
        full_ids(v.models).contains(id),
    ensures
        ({
            let all = full_ids(v.models);
            let ids = ids_of_provider(v.models, all, v.selected_model().provider);
            let all_were_on = forall|k: int|
                0 <= k < ids.len() ==> is_on(v.enabled, #[trigger] ids[k]);
            let after = v.provider_toggled().enabled;
            &&& ids.contains(id) ==> is_on(after, id) == !all_were_on
            &&& !ids.contains(id) && all_were_on ==> is_on(after, id) == is_on(v.enabled, id)
        }),
{
    let all = full_ids(v.models);
    let ids = ids_of_provider(v.models, all, v.selected_model().provider);
    crate::model_scope::switching_on_takes_effect(v.enabled, all, ids, id);
    crate::model_scope::switching_off_takes_effect(v.enabled, all, ids, id);
}

} // verus!
