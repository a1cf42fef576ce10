//! Searchable authentication-provider selector.

use crate::fuzzy_list::{narrow, narrowed};
use crate::keybinding_hints::KeyMatches;
use crate::model_selector::{all_positions, positions};
use crate::scroll::{
    clamp_selection, clamped, move_down, move_up, moved_down, moved_up, valid_selection,
    visible_range, window_end, window_start,
};
use crate::session_rows::{position_label, position_text};
use crate::style::{
    append_spans, bold_colored, bold_fg, colored, fg, plain, push_line, push_span, push_span_line,
    raw, span_lines, spans, Span, SpanView, ThemeColor,
};
use crate::transcript::{
    pieces, push_piece, push_texts, single_span, text_piece, text_pieces, Piece, PieceView,
};
use vstd::prelude::*;
use vstd::string::*;

verus! {

broadcast use vstd::string::group_string_axioms;

/// How many providers are shown at once.
pub const MAX_VISIBLE: usize = 8;

/// How a provider is paid for.
#[derive(Clone, Copy, Debug, PartialEq, Eq, Structural)]
pub enum AuthType {
    OAuth,
    ApiKey,
}

impl AuthType {
    /// What the type is called.
    pub open spec fn name(self) -> Seq<char> {
        match self {
            AuthType::OAuth => "subscription"@,
            AuthType::ApiKey => "API key"@,
        }
    }

    /// What a search looks through for the type.
    pub open spec fn search_words(self) -> Seq<char> {
        match self {
            AuthType::OAuth => "oauth subscription"@,
            AuthType::ApiKey => "api_key API key"@,
        }
    }

    /// What the type is called.
    #[must_use]
    pub fn label(self) -> (r: &'static str)
        ensures
            r@ == self.name(),
    {
        match self {
            AuthType::OAuth => "subscription",
            AuthType::ApiKey => "API key",
        }
    }

    /// What a search looks through for the type.
    pub fn search_text(self) -> (r: &'static str)
        ensures
            r@ == self.search_words(),
    {
        match self {
            AuthType::OAuth => "oauth subscription",
            AuthType::ApiKey => "api_key API key",
        }
    }
}

/// Where an API key comes from that is not stored.
#[derive(Debug, PartialEq, Eq)]
pub enum AuthStatusSource {
    Environment(Option<String>),
    Runtime,
    Fallback,
    ModelsJsonKey,
    ModelsJsonCommand,
}

/// A provider with one way to authenticate.
#[derive(Debug)]
pub struct OAuthProvider {
    pub id: String,
    pub name: String,
    pub auth_type: AuthType,
    pub configured_credential: Option<AuthType>,
    pub auth_status: Option<AuthStatusSource>,
}

/// What a provider is selected for.
#[derive(Clone, Copy, Debug, PartialEq, Eq, Structural)]
pub enum OAuthSelectorMode {
    Login,
    Logout,
}

/// What a key press asks for.
#[derive(Debug, PartialEq, Eq)]
pub enum OAuthAction {
    Nothing,
    Select(String, AuthType),
    Cancel,
    /// The press belongs to the search input.
    Search,
}

/// Lists the providers that match a search.
#[derive(Debug)]
pub struct OAuthSelector {
    pub mode: OAuthSelectorMode,
    pub providers: Vec<OAuthProvider>,
    pub filtered: Vec<usize>,
    pub selected: usize,
    pub query: String,
    /// How well each provider matches the query, if it does.
    pub scores: Vec<Option<i64>>,
    pub show_auth_type_labels: bool,
}

/// What a search looks through for a provider.
pub open spec fn provider_words(provider: OAuthProvider) -> Seq<char> {
    provider.name@ + " "@ + provider.id@ + " "@ + provider.auth_type.search_words()
}

/// What a search looks through for a provider.
pub fn provider_search_text(provider: &OAuthProvider) -> (r: String)
    ensures
        r@ == provider_words(*provider),
{
    provider.name.clone().concat(" ").concat(provider.id.as_str()).concat(" ").concat(
        provider.auth_type.search_text(),
    )
}

/// Whether the provider is configured, and how: by a stored credential of its own type or of the
/// other, or by an API key from elsewhere.
pub open spec fn status_spans(provider: OAuthProvider) -> Seq<SpanView> {
    match provider.configured_credential {
        Some(credential) => if credential == provider.auth_type {
            seq![colored(ThemeColor::Success, " ✓ configured"@)]
        } else {
            seq![
                colored(ThemeColor::Muted, " • "@),
                colored(
                    ThemeColor::Warning,
                    match credential {
                        AuthType::OAuth => "subscription configured"@,
                        AuthType::ApiKey => "API key configured"@,
                    },
                ),
            ]
        },
        None => match (provider.auth_type, provider.auth_status) {
            (AuthType::ApiKey, Some(source)) => seq![
                colored(
                    ThemeColor::Success,
                    match source {
                        AuthStatusSource::Environment(Some(label)) => " ✓ env: "@ + label@,
                        AuthStatusSource::Environment(None) => " ✓ env: API key"@,
                        AuthStatusSource::Runtime => " ✓ runtime API key"@,
                        AuthStatusSource::Fallback => " ✓ custom API key"@,
                        AuthStatusSource::ModelsJsonKey => " ✓ key in models.json"@,
                        AuthStatusSource::ModelsJsonCommand => " ✓ command in models.json"@,
                    },
                ),
            ],
            _ => seq![colored(ThemeColor::Muted, " • unconfigured"@)],
        },
    }
}

/// Whether the provider is configured, and how.
pub fn status_indicator(provider: &OAuthProvider) -> (r: Vec<Span>)
    ensures
        spans(r@) == status_spans(*provider),
{
    let mut line: Vec<Span> = Vec::new();
    match provider.configured_credential {
        Some(credential) => {
            if credential == provider.auth_type {
                push_span(&mut line, fg(ThemeColor::Success, " ✓ configured"));
            } else {
                push_span(&mut line, fg(ThemeColor::Muted, " • "));
                let text = match credential {
                    AuthType::OAuth => "subscription configured",
                    AuthType::ApiKey => "API key configured",
                };
                push_span(&mut line, fg(ThemeColor::Warning, text));
            }
        },
        None => {
            match (provider.auth_type, &provider.auth_status) {
                (AuthType::ApiKey, Some(source)) => {
                    let text = match source {
                        AuthStatusSource::Environment(Some(label)) => " ✓ env: ".to_owned().concat(
                            label.as_str(),
                        ),
                        AuthStatusSource::Environment(None) => " ✓ env: API key".to_owned(),
                        AuthStatusSource::Runtime => " ✓ runtime API key".to_owned(),
                        AuthStatusSource::Fallback => " ✓ custom API key".to_owned(),
                        AuthStatusSource::ModelsJsonKey => " ✓ key in models.json".to_owned(),
                        AuthStatusSource::ModelsJsonCommand => " ✓ command in models.json".to_owned(),
                    };
                    push_span(&mut line, fg(ThemeColor::Success, text.as_str()));
                },
                _ => {
                    push_span(&mut line, fg(ThemeColor::Muted, " • unconfigured"));
                },
            }
        },
    }
    assert(spans(line@) =~= status_spans(*provider));
    line
}

/// Whether a key press turns the selector from `before` into `after` and asks for the action.
pub open spec fn providers_responded(
    before: OAuthSelector,
    after: OAuthSelector,
    keys: KeyMatches,
    r: OAuthAction,
) -> bool {
    let selected = before.selected as int;
    let len = before.filtered.len() as int;
    let provider = before.providers[before.filtered[selected] as int];
    &&& after == OAuthSelector { selected: after.selected, ..before }
    &&& if keys.has("tui.select.up"@) {
        r is Nothing && after.selected == moved_up(selected, 1)
    } else if keys.has("tui.select.down"@) {
        r is Nothing && after.selected == moved_down(selected, len, 1)
    } else {
        after.selected == selected && if keys.has("tui.select.confirm"@) {
            if len > 0 {
                r matches OAuthAction::Select(id, auth_type) && id@ == provider.id@ && auth_type
                    == provider.auth_type
            } else {
                r is Nothing
            }
        } else if keys.has("tui.select.cancel"@) {
            r is Cancel
        } else {
            r is Search
        }
    }
}

impl OAuthSelector {
    /// The providers that are listed.
    pub open spec fn shown(&self) -> Seq<usize> {
        narrowed(positions(self.providers@.len()), self.query@, self.scores@)
    }

    /// Whether the list is up to date, the selection is in it, and types are labelled exactly where
    /// they differ.
    pub open spec fn wf(&self) -> bool {
        &&& self.filtered@ == self.shown()
        &&& valid_selection(self.selected as int, self.filtered.len() as int)
        &&& forall|k: int|
            0 <= k < self.filtered.len() ==> #[trigger] self.filtered[k] < self.providers.len()
        &&& self.show_auth_type_labels == mixed_types(self.providers@)
    }

    /// The selector over the providers.
    #[must_use]
    pub fn new(mode: OAuthSelectorMode, providers: Vec<OAuthProvider>) -> (r: Self)
        ensures
            r.wf(),
            r.mode == mode,
            r.providers == providers,
            r.selected == 0,
            r.query@ == Seq::<char>::empty(),
            r.filtered@ == positions(providers@.len()),
    {
        let show_auth_type_labels = types_differ(&providers);
        let filtered = all_positions(providers.len());
        OAuthSelector {
            mode,
            providers,
            filtered,
            selected: 0,
            query: String::new(),
            scores: Vec::new(),
            show_auth_type_labels,
        }
    }

    /// Changes the search. `scores` tells how well each provider matches it.
    pub fn set_query(&mut self, query: &str, scores: Vec<Option<i64>>)
        requires
            old(self).wf(),
        ensures
            final(self).wf(),
            final(self).query@ == query@,
            final(self).scores == scores,
            final(self).mode == old(self).mode,
            final(self).providers == old(self).providers,
            final(self).selected == clamped(
                old(self).selected as int,
                final(self).filtered.len() as int,
            ),
    {
        self.query = query.to_owned();
        self.scores = scores;
        let items = all_positions(self.providers.len());
        self.filtered = narrow(items, query, &self.scores);
        self.selected = clamp_selection(self.selected, self.filtered.len());
        assert forall|k: int| 0 <= k < self.filtered.len() implies #[trigger] self.filtered[k]
            < self.providers.len() by {
            assert(positions(self.providers@.len()).contains(self.filtered[k]));
        }
    }

    /// The provider that is selected.
    pub fn selected_provider(&self) -> (r: Option<&OAuthProvider>)
        requires
            self.wf(),
        ensures
            match r {
                Some(provider) => self.filtered.len() > 0 && *provider
                    == self.providers[self.filtered[self.selected as int] as int],
                None => self.filtered.len() == 0,
            },
    {
        if self.selected < self.filtered.len() {
            Some(&self.providers[self.filtered[self.selected]])
        } else {
            None
        }
    }

    /// Takes in a key press. The selection stops at both ends.
    pub fn handle_input(&mut self, keys: &KeyMatches) -> (r: OAuthAction)
        requires
            old(self).wf(),
        ensures
            final(self).wf(),
            providers_responded(*old(self), *final(self), *keys, r),
    {
        if keys.matches("tui.select.up") {
            self.selected = move_up(self.selected, 1);
            OAuthAction::Nothing
        } else if keys.matches("tui.select.down") {
            self.selected = move_down(self.selected, self.filtered.len(), 1);
            OAuthAction::Nothing
        } else if keys.matches("tui.select.confirm") {
            match self.selected_provider() {
                Some(provider) => OAuthAction::Select(provider.id.clone(), provider.auth_type),
                None => OAuthAction::Nothing,
            }
        } else if keys.matches("tui.select.cancel") {
            OAuthAction::Cancel
        } else {
            OAuthAction::Search
        }
    }

    /// The title.
    pub fn title(&self) -> (r: Span)
        ensures
            r@ == self.title_span(),
    {
        match self.mode {
            OAuthSelectorMode::Login => bold_fg(ThemeColor::Accent, "Select provider to configure:"),
            OAuthSelectorMode::Logout => bold_fg(ThemeColor::Accent, "Select provider to logout:"),
        }
    }

    /// The row of the provider at a position of the list.
    pub open spec fn row(&self, at: int) -> Seq<SpanView> {
        let provider = self.providers[self.filtered[at] as int];
        let head = if at == self.selected {
            seq![
                colored(ThemeColor::Accent, "→ "@),
                colored(ThemeColor::Accent, provider.name@),
            ]
        } else {
            seq![plain("  "@), colored(ThemeColor::Text, provider.name@)]
        };
        let label = if self.show_auth_type_labels {
            seq![colored(ThemeColor::Muted, " ["@ + provider.auth_type.name() + "]"@)]
        } else {
            Seq::empty()
        };
        head + label + status_spans(provider)
    }

    /// Why nothing is listed.
    pub open spec fn empty_text(&self) -> Seq<char> {
        if self.providers.len() > 0 {
            "  No matching providers"@
        } else if self.mode == OAuthSelectorMode::Login {
            "  No providers available"@
        } else {
            "  No providers logged in. Use /login first."@
        }
    }

    /// The lines of the list: a window of rows around the selection, the position if rows are
    /// outside it, and a note if there are none.
    pub open spec fn list_lines(&self) -> Seq<Seq<SpanView>> {
        let len = self.filtered.len() as int;
        let selected = self.selected as int;
        let start = window_start(selected, len, MAX_VISIBLE as int);
        let end = window_end(selected, len, MAX_VISIBLE as int);
        let rows = Seq::new((end - start) as nat, |k: int| self.row(start + k));
        let position = if start > 0 || end < len {
            seq![seq![colored(ThemeColor::Muted, position_label(selected as nat, len as nat))]]
        } else {
            Seq::empty()
        };
        let note = if len == 0 {
            seq![seq![colored(ThemeColor::Muted, self.empty_text())]]
        } else {
            Seq::empty()
        };
        rows + position + note
    }

    fn build_row(&self, at: usize) -> (r: Vec<Span>)
        requires
            self.wf(),
            at < self.filtered.len(),
        ensures
            spans(r@) == self.row(at as int),
    {
        let provider = &self.providers[self.filtered[at]];
        let mut line: Vec<Span> = Vec::new();
        if at == self.selected {
            push_span(&mut line, fg(ThemeColor::Accent, "→ "));
            push_span(&mut line, fg(ThemeColor::Accent, provider.name.as_str()));
        } else {
            push_span(&mut line, raw("  "));
            push_span(&mut line, fg(ThemeColor::Text, provider.name.as_str()));
        }
        if self.show_auth_type_labels {
            let label = " [".to_owned().concat(provider.auth_type.label()).concat("]");
            push_span(&mut line, fg(ThemeColor::Muted, label.as_str()));
        }
        append_spans(&mut line, status_indicator(provider));
        assert(spans(line@) =~= self.row(at as int));
        line
    }

    /// The lines of the list.
    pub fn render_list(&self) -> (r: Vec<Vec<Span>>)
        requires
            self.wf(),
        ensures
            span_lines(r@) == self.list_lines(),
    {
        let mut lines: Vec<Vec<Span>> = Vec::new();
        let len: usize = self.filtered.len();
        let (start, end) = visible_range(self.selected, len, MAX_VISIBLE);
        let mut i: usize = start;
        while i < end
            invariant
                self.wf(),
                start <= i,
                i <= end || start > end,
                end <= self.filtered.len(),
                span_lines(lines@) =~= Seq::new((i - start) as nat, |k: int| self.row(start + k)),
            decreases end - i,
        {
            push_line(&mut lines, self.build_row(i));
            i = i + 1;
        }
        assert(end - start >= 0);
        if start > 0 || end < len {
            push_span_line(
                &mut lines,
                fg(ThemeColor::Muted, position_text(self.selected, len).as_str()),
            );
        }
        if len == 0 {
            let text = if self.providers.len() > 0 {
                "  No matching providers"
            } else {
                match self.mode {
                    OAuthSelectorMode::Login => "  No providers available",
                    OAuthSelectorMode::Logout => "  No providers logged in. Use /login first.",
                }
            };
            push_span_line(&mut lines, fg(ThemeColor::Muted, text));
        }
        assert(span_lines(lines@) =~= self.list_lines());
        lines
    }

    /// The title.
    pub open spec fn title_span(&self) -> SpanView {
        bold_colored(
            ThemeColor::Accent,
            match self.mode {
                OAuthSelectorMode::Login => "Select provider to configure:"@,
                OAuthSelectorMode::Logout => "Select provider to logout:"@,
            },
        )
    }

    /// The pieces of the selector: the title, the search and the list, between two borders.
    pub open spec fn screen(&self) -> Seq<PieceView> {
        seq![
            PieceView::Border(ThemeColor::Border),
            PieceView::Spacer(1),
            text_piece(self.title_span(), 1),
            PieceView::Spacer(1),
            PieceView::Input,
            PieceView::Spacer(1),
        ] + text_pieces(self.list_lines(), 1) + seq![
            PieceView::Spacer(1),
            PieceView::Border(ThemeColor::Border),
        ]
    }

    /// The pieces of the selector.
    pub fn render(&self) -> (r: Vec<Piece>)
        requires
            self.wf(),
        ensures
            pieces(r@) == self.screen(),
    {
        let mut list: Vec<Piece> = Vec::new();
        push_piece(&mut list, Piece::Border(ThemeColor::Border));
        push_piece(&mut list, Piece::Spacer(1));
        push_piece(&mut list, single_span(self.title(), 1));
        push_piece(&mut list, Piece::Spacer(1));
        push_piece(&mut list, Piece::Input);
        push_piece(&mut list, Piece::Spacer(1));
        push_texts(&mut list, &self.render_list(), 1);
        push_piece(&mut list, Piece::Spacer(1));
        push_piece(&mut list, Piece::Border(ThemeColor::Border));
        assert(pieces(list@) =~= self.screen());
        list
    }
}

/// Whether the providers authenticate in different ways.
pub open spec fn mixed_types(providers: Seq<OAuthProvider>) -> bool {
    exists|i: int|
        0 <= i < providers.len() && (#[trigger] providers[i]).auth_type != providers[0].auth_type
}

fn types_differ(providers: &Vec<OAuthProvider>) -> (r: bool)
    ensures
        r == mixed_types(providers@),
{
    let mut i: usize = 0;
    while i < providers.len()
        invariant
            i <= providers.len(),
            forall|j: int|
                0 <= j < i ==> (#[trigger] providers[j]).auth_type == providers[0].auth_type,
        decreases providers.len() - i,
    {
        if providers[i].auth_type != providers[0].auth_type {
            assert(providers@[i as int].auth_type != providers@[0].auth_type);
            return true;
        }
        i = i + 1;
    }
    false
}

} // verus!
