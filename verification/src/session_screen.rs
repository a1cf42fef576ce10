//! How the session selector takes in key presses, and its screen.

use crate::keybinding_hints::{bound_text, key_text, KeyMatches, KeyTable};
use crate::session_header::{HeaderCuts, HintLine, HintLineView};
use crate::session_rows::RowCut;
use crate::session_selector::{list_reacted, ListAction, SessionList, SessionListEvent};
use crate::session_selector_component::{
    handled, SelectorMode, SelectorRequest, SessionSelectorComponent,
};
use crate::style::{bold, bolded, colored, fg, spans, tint_line, tinted, ThemeColor};
use crate::transcript::{
    pieces, push_piece, push_pieces, single_span, text_piece, Piece, PieceView,
};
use vstd::prelude::*;
use vstd::string::*;

verus! {

/// Where a key press goes on to.
#[derive(Debug, Clone, Copy, PartialEq, Eq, Structural)]
pub enum KeyTarget {
    Nothing,
    /// The input for the name of a session.
    NameInput,
    SearchInput,
}

/// Whether the events of the list, one after the other, turn the selector from `before` into `after`
/// and leave the requests to the owner.
pub open spec fn handled_all(
    before: SessionSelectorComponent,
    after: SessionSelectorComponent,
    events: Seq<SessionListEvent>,
    fuzzy: Seq<Vec<Option<i64>>>,
    now_ms: u64,
    requests: Seq<SelectorRequest>,
) -> bool
    decreases events.len(),
{
    if events.len() == 0 {
        after == before && requests.len() == 0
    } else {
        &&& requests.len() == events.len()
        &&& exists|between: SessionSelectorComponent|
            {
                &&& handled_all(
                    before,
                    between,
                    events.drop_last(),
                    fuzzy,
                    now_ms,
                    requests.drop_last(),
                )
                &&& #[trigger] handled(
                    between,
                    after,
                    events.last(),
                    fuzzy,
                    now_ms,
                    requests.last(),
                )
            }
    }
}

/// The selector without its list's events, which are taken out.
pub open spec fn is_drained(
    before: SessionSelectorComponent,
    list: SessionList,
    after: SessionSelectorComponent,
) -> bool {
    &&& after.session_list.events@.len() == 0
    &&& after == SessionSelectorComponent {
        session_list: SessionList { events: after.session_list.events, ..list },
        ..before
    }
}

/// Whether a key press turns the selector from `before` into `after`, goes on to `target` and leaves
/// the requests to the owner.
pub open spec fn selector_reacted(
    before: SessionSelectorComponent,
    after: SessionSelectorComponent,
    key: KeyMatches,
    fuzzy: Seq<Vec<Option<i64>>>,
    now_ms: u64,
    target: KeyTarget,
    requests: Seq<SelectorRequest>,
) -> bool {
    if before.mode == SelectorMode::Rename {
        if key.has("tui.select.cancel"@) {
            &&& target == KeyTarget::Nothing
            &&& requests == seq![SelectorRequest::Redraw]
            &&& after == SessionSelectorComponent {
                mode: SelectorMode::List,
                rename_target_path: None,
                ..before
            }
        } else {
            target == KeyTarget::NameInput && requests.len() == 0 && after == before
        }
    } else {
        &&& target == if before.session_list.action_for(key) == ListAction::Edit {
            KeyTarget::SearchInput
        } else {
            KeyTarget::Nothing
        }
        &&& exists|list: SessionList, drained: SessionSelectorComponent|
            {
                &&& list_reacted(before.session_list, list, key)
                &&& #[trigger] is_drained(before, list, drained)
                &&& handled_all(drained, after, list.events@, fuzzy, now_ms, requests)
            }
    }
}

impl SessionSelectorComponent {
    /// Carries out the events that the list has raised, in order, and returns what is left to the
    /// owner.
    pub fn process_list_events(
        &mut self,
        fuzzy: &Vec<Vec<Option<i64>>>,
        now_ms: u64,
    ) -> (requests: Vec<SelectorRequest>)
        requires
            old(self).session_list.wf(),
        ensures
            final(self).session_list.wf(),
            exists|drained: SessionSelectorComponent|
                {
                    &&& #[trigger] is_drained(*old(self), old(self).session_list, drained)
                    &&& handled_all(
                        drained,
                        *final(self),
                        old(self).session_list.events@,
                        fuzzy@,
                        now_ms,
                        requests@,
                    )
                },
    {
        let mut rest = self.session_list.take_events();
        let ghost events = rest@;
        let ghost drained = *self;
        assert(is_drained(*old(self), old(self).session_list, drained));
        let mut requests: Vec<SelectorRequest> = Vec::new();
        let count: usize = rest.len();
        let mut i: usize = 0;
        assert(events.take(0) =~= Seq::empty());
        while i < count
            invariant
                i <= count,
                count == events.len(),
                rest@ =~= events.skip(i as int),
                self.session_list.wf(),
                requests@.len() == i,
                handled_all(drained, *self, events.take(i as int), fuzzy@, now_ms, requests@),
            decreases count - i,
        {
            let ghost between = *self;
            let ghost before = requests@;
            let event = rest.remove(0);
            assert(event == events[i as int]);
            assert(events.take(i as int + 1).drop_last() =~= events.take(i as int));
            let request = self.process_list_event(event, fuzzy, now_ms);
            requests.push(request);
            assert(requests@.drop_last() =~= before);
            proof {
                let done = events.take(i as int + 1);
                assert(done.last() == events[i as int]);
                assert(handled_all(
                    drained,
                    between,
                    done.drop_last(),
                    fuzzy@,
                    now_ms,
                    requests@.drop_last(),
                ));
                assert(handled(between, *self, done.last(), fuzzy@, now_ms, requests@.last()));
                assert(handled_all(drained, *self, done, fuzzy@, now_ms, requests@));
            }
            i = i + 1;
        }
        assert(events.take(i as int) =~= events);
        requests
    }

    /// Takes in a key press: where it goes on to, and what is left to the owner.
    pub fn handle_input(
        &mut self,
        key: &KeyMatches,
        fuzzy: &Vec<Vec<Option<i64>>>,
        now_ms: u64,
    ) -> (r: (KeyTarget, Vec<SelectorRequest>))
        requires
            old(self).session_list.wf(),
        ensures
            final(self).session_list.wf(),
            selector_reacted(*old(self), *final(self), *key, fuzzy@, now_ms, r.0, r.1@),
    {
        let mut requests: Vec<SelectorRequest> = Vec::new();
        if self.mode == SelectorMode::Rename {
            if key.matches("tui.select.cancel") {
                self.exit_rename_mode();
                requests.push(SelectorRequest::Redraw);
                assert(requests@ =~= seq![SelectorRequest::Redraw]);
                return (KeyTarget::Nothing, requests);
            }
            return (KeyTarget::NameInput, requests);
        }
        let action = self.session_list.handle_input(key);
        let ghost list = self.session_list;
        let ghost pressed = *self;
        let requests = self.process_list_events(fuzzy, now_ms);
        proof {
            let drained = choose|drained: SessionSelectorComponent|
                {
                    &&& #[trigger] is_drained(pressed, list, drained)
                    &&& handled_all(drained, *self, list.events@, fuzzy@, now_ms, requests@)
                };
            assert(is_drained(*old(self), list, drained));
        }
        let target = if action == ListAction::Edit {
            KeyTarget::SearchInput
        } else {
            KeyTarget::Nothing
        };
        (target, requests)
    }
}

/// The piece of a line of hints.
pub open spec fn hint_piece(hint: HintLineView) -> PieceView {
    PieceView::Row { spans: tinted(hint.spans, hint.color), background: None, ellipsis: "…"@ }
}

fn make_hint(hint: &HintLine) -> (r: Piece)
    ensures
        r@ == hint_piece(hint@),
{
    Piece::Row {
        spans: tint_line(&hint.spans, hint.color),
        background: None,
        ellipsis: "…".to_owned(),
    }
}

/// The screen on which a session gets a name.
pub open spec fn rename_screen(table: KeyTable) -> Seq<PieceView> {
    seq![
        text_piece(bolded("Rename Session"@), 1),
        PieceView::Spacer(1),
        PieceView::Input,
        PieceView::Spacer(1),
        text_piece(
            colored(
                ThemeColor::Muted,
                bound_text(table, "tui.select.confirm"@) + " to save · "@ + bound_text(
                    table,
                    "tui.select.cancel"@,
                ) + " to cancel"@,
            ),
            1,
        ),
    ]
}

fn make_rename_screen(table: &KeyTable) -> (r: Vec<Piece>)
    ensures
        pieces(r@) == rename_screen(*table),
{
    let mut list: Vec<Piece> = Vec::new();
    push_piece(&mut list, single_span(bold("Rename Session"), 1));
    push_piece(&mut list, Piece::Spacer(1));
    push_piece(&mut list, Piece::Input);
    push_piece(&mut list, Piece::Spacer(1));
    let hint = key_text(table, "tui.select.confirm").concat(" to save · ").concat(
        key_text(table, "tui.select.cancel").as_str(),
    ).concat(" to cancel");
    push_piece(&mut list, single_span(fg(ThemeColor::Muted, hint.as_str()), 1));
    assert(pieces(list@) =~= rename_screen(*table));
    list
}

/// The time, and how the parts of the list's screen fit into the width.
#[derive(Debug)]
pub struct SelectorCuts {
    pub header: HeaderCuts,
    pub rows: Vec<RowCut>,
    /// The time of the clock in milliseconds.
    pub wall_ms: i64,
    /// The time since the start in milliseconds.
    pub now_ms: u64,
}

impl SessionSelectorComponent {
    /// The pieces of the list with its header.
    pub open spec fn list_screen(
        &self,
        table: KeyTable,
        home: Option<Seq<char>>,
        cuts: SelectorCuts,
        width: int,
    ) -> Seq<PieceView> {
        let header = self.header.expired(cuts.now_ms);
        seq![
            PieceView::Line(header.title_spans(cuts.header, width)),
            hint_piece(header.first_hint(table)),
            hint_piece(header.second_hint(table)),
            PieceView::Spacer(1),
        ] + self.session_list.screen(
            table,
            self.session_list.window(cuts.wall_ms as int, home),
            cuts.rows@,
            width,
        )
    }

    /// The pieces of the selector: the list or the input for a name, between two borders.
    pub open spec fn screen(
        &self,
        table: KeyTable,
        home: Option<Seq<char>>,
        cuts: SelectorCuts,
        width: int,
    ) -> Seq<PieceView> {
        seq![
            PieceView::Spacer(1),
            PieceView::Border(ThemeColor::Accent),
            PieceView::Spacer(1),
        ] + match self.mode {
            SelectorMode::List => self.list_screen(table, home, cuts, width),
            SelectorMode::Rename => rename_screen(table),
        } + seq![PieceView::Spacer(1), PieceView::Border(ThemeColor::Accent)]
    }

    /// The pieces of the selector. A status message whose time has passed is dropped from the header
    /// when it is shown.
    pub fn render(&mut self, table: &KeyTable, home: Option<&str>, cuts: SelectorCuts, width: u16)
        -> (r: Vec<Piece>)
        requires
            cuts.rows@.len() == if old(self).session_list.first_visible() < old(
                self,
            ).session_list.end_visible() {
                old(self).session_list.end_visible() - old(self).session_list.first_visible()
            } else {
                0
            },
            cuts.header.fits(width as int),
            forall|k: int|
                0 <= k < cuts.rows@.len() ==> (#[trigger] cuts.rows@[k]).fits(width as int),
        ensures
            *final(self) == if old(self).mode == SelectorMode::List {
                old(self).with_header(old(self).header.expired(cuts.now_ms))
            } else {
                *old(self)
            },
            pieces(r@) == old(self).screen(
                *table,
                match home {
                    Some(home) => Some(home@),
                    None => None,
                },
                cuts,
                width as int,
            ),
    {
        let ghost given = cuts;
        let ghost home_text = match home {
            Some(home) => Some(home@),
            None => None,
        };
        let mut list: Vec<Piece> = Vec::new();
        push_piece(&mut list, Piece::Spacer(1));
        push_piece(&mut list, Piece::Border(ThemeColor::Accent));
        push_piece(&mut list, Piece::Spacer(1));
        let ghost top = pieces(list@);
        match self.mode {
            SelectorMode::List => {
                let (title, first, second) = self.header.render(
                    table,
                    cuts.now_ms,
                    cuts.header,
                    width,
                );
                push_piece(&mut list, Piece::Line(title));
                push_piece(&mut list, make_hint(&first));
                push_piece(&mut list, make_hint(&second));
                push_piece(&mut list, Piece::Spacer(1));
                let rows = self.session_list.render(table, cuts.wall_ms, home, &cuts.rows, width);
                push_pieces(&mut list, rows);
                assert(pieces(list@) =~= top + old(self).list_screen(
                    *table,
                    home_text,
                    given,
                    width as int,
                ));
            },
            SelectorMode::Rename => {
                push_pieces(&mut list, make_rename_screen(table));
                assert(pieces(list@) =~= top + rename_screen(*table));
            },
        }
        push_piece(&mut list, Piece::Spacer(1));
        push_piece(&mut list, Piece::Border(ThemeColor::Accent));
        assert(pieces(list@) =~= old(self).screen(*table, home_text, given, width as int));
        list
    }
}

} // verus!
