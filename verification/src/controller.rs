//! The search session: it owns the candidates, the query and the visible
//! list, and resolves a confirmation to at most one selected candidate.

use crate::candidate::{names_of, Candidate};
use crate::rank::{full_view, is_ranking, rank, scores_of, shows_matches, RankedEntry};
use vstd::prelude::*;
use vstd::string::*;

verus! {

/// Where a search session stands.
#[derive(Clone, Copy, Debug, PartialEq, Eq, Structural)]
pub enum Phase {
    /// No query; the full list is shown.
    Idle,
    /// A non-empty query; the ranked subset is shown.
    Filtering,
    /// Ended with a selection.
    Confirmed,
    /// Ended without a selection.
    Cancelled,
}

/// What a confirmation did.
#[derive(Clone, Copy, Debug, PartialEq, Eq, Structural)]
pub enum ConfirmOutcome {
    /// The only visible row was selected; the session is confirmed.
    Selected,
    /// Several rows are visible; the first is now highlighted.
    Highlighted,
    /// Nothing is visible, or the session has ended: nothing changed.
    Nothing,
}

/// Whether a session in `phase` has ended.
pub open spec fn is_terminal(phase: Phase) -> bool {
    phase == Phase::Confirmed || phase == Phase::Cancelled
}

/// The state of a session as contracts see it.
pub struct SessionView {
    pub candidates: Seq<Candidate>,
    pub query: Seq<char>,
    pub visible: Seq<RankedEntry>,
    pub phase: Phase,
    pub highlight: Option<usize>,
    pub selection: Option<usize>,
}

/// A search session over a fixed list of candidates.
pub struct SearchController {
    candidates: Vec<Candidate>,
    query: String,
    visible: Vec<RankedEntry>,
    phase: Phase,
    highlight: Option<usize>,
    selection: Option<usize>,
}

impl View for SearchController {
    type V = SessionView;

    closed spec fn view(&self) -> SessionView {
        SessionView {
            candidates: self.candidates@,
            query: self.query@,
            visible: self.visible@,
            phase: self.phase,
            highlight: self.highlight,
            selection: self.selection,
        }
    }
}

impl SearchController {
    /// The session's invariant: the visible list is the ranked view of the
    /// candidates for the query, and shows exactly the candidates whose raw
    /// name holds the query's characters in order; the query is empty
    /// exactly when idle among the running phases; a selection exists
    /// exactly when confirmed and names a candidate; a highlight names a
    /// visible row.
    pub open spec fn wf(&self) -> bool {
        let v = self@;
        &&& is_ranking(v.visible, scores_of(v.query, names_of(v.candidates)))
        &&& shows_matches(v.visible, v.query, v.candidates)
        &&& (v.phase == Phase::Idle ==> v.query.len() == 0)
        &&& (v.phase == Phase::Filtering ==> v.query.len() > 0)
        &&& (v.phase == Phase::Confirmed <==> v.selection is Some)
        &&& (v.selection matches Some(k) ==> k < v.candidates.len())
        &&& (v.highlight matches Some(r) ==> r < v.visible.len())
    }

    /// Starts a session: idle, with an empty query and every candidate
    /// visible in list order.
    pub fn new(candidates: Vec<Candidate>) -> (s: SearchController)
        ensures
            s.wf(),
            s@.candidates == candidates@,
            s@.query.len() == 0,
            s@.visible == full_view(candidates@.len(), 0),
            shows_matches(s@.visible, s@.query, candidates@),
            s@.phase == Phase::Idle,
            s@.highlight is None,
            s@.selection is None,
    {
        let query = String::new();
        let visible = rank(query.as_str(), &candidates);
        SearchController {
            candidates,
            query,
            visible,
            phase: Phase::Idle,
            highlight: None,
            selection: None,
        }
    }

    /// Takes a new query text and rebuilds the visible list in full. An
    /// empty text makes the session idle, any other text filtering. A
    /// session that has ended ignores the event.
    pub fn query_changed(&mut self, text: &str)
        requires
            old(self).wf(),
        ensures
            final(self).wf(),
            is_terminal(old(self)@.phase) ==> final(self)@ == old(self)@,
            !is_terminal(old(self)@.phase) ==> {
                &&& final(self)@.candidates == old(self)@.candidates
                &&& final(self)@.query == text@
                &&& is_ranking(final(self)@.visible, scores_of(text@, names_of(old(self)@.candidates)))
                &&& shows_matches(final(self)@.visible, text@, old(self)@.candidates)
                &&& final(self)@.phase == if text@.len() == 0 {
                    Phase::Idle
                } else {
                    Phase::Filtering
                }
                &&& final(self)@.highlight is None
                &&& final(self)@.selection is None
            },
    {
        match self.phase {
            Phase::Confirmed | Phase::Cancelled => {},
            Phase::Idle | Phase::Filtering => {
                self.visible = rank(text, &self.candidates);
                self.query = String::from_str(text);
                self.phase = if text.is_empty() {
                    Phase::Idle
                } else {
                    Phase::Filtering
                };
                self.highlight = None;
            },
        }
    }

    /// Confirms the current view. With exactly one visible row that row's
    /// candidate is selected at once and the session is confirmed. With
    /// several, the first row is highlighted and the session goes on. With
    /// none, or after the session has ended, nothing changes.
    pub fn confirm(&mut self) -> (outcome: ConfirmOutcome)
        requires
            old(self).wf(),
        ensures
            final(self).wf(),
            final(self)@.candidates == old(self)@.candidates,
            final(self)@.query == old(self)@.query,
            final(self)@.visible == old(self)@.visible,
            is_terminal(old(self)@.phase) || old(self)@.visible.len() == 0 ==> {
                &&& outcome == ConfirmOutcome::Nothing
                &&& final(self)@ == old(self)@
            },
            !is_terminal(old(self)@.phase) && old(self)@.visible.len() == 1 ==> {
                &&& outcome == ConfirmOutcome::Selected
                &&& final(self)@.phase == Phase::Confirmed
                &&& final(self)@.selection == Some(old(self)@.visible[0].index)
                &&& final(self)@.highlight == old(self)@.highlight
            },
            !is_terminal(old(self)@.phase) && old(self)@.visible.len() > 1 ==> {
                &&& outcome == ConfirmOutcome::Highlighted
                &&& final(self)@.phase == old(self)@.phase
                &&& final(self)@.selection is None
                &&& final(self)@.highlight == Some(0usize)
            },
    {
        match self.phase {
            Phase::Confirmed | Phase::Cancelled => ConfirmOutcome::Nothing,
            Phase::Idle | Phase::Filtering => {
                let shown: usize = self.visible.len();
                if shown == 1 {
                    self.selection = Some(self.visible[0].index);
                    self.phase = Phase::Confirmed;
                    ConfirmOutcome::Selected
                } else if shown > 1 {
                    self.highlight = Some(0);
                    ConfirmOutcome::Highlighted
                } else {
                    ConfirmOutcome::Nothing
                }
            },
        }
    }

    /// Activates the visible row `row`: its candidate is selected and the
    /// session is confirmed. Returns whether that happened; a row that is
    /// not visible, or a session that has ended, changes nothing.
    pub fn row_activated(&mut self, row: usize) -> (accepted: bool)
        requires
            old(self).wf(),
        ensures
            final(self).wf(),
            accepted == (!is_terminal(old(self)@.phase) && row < old(self)@.visible.len()),
            !accepted ==> final(self)@ == old(self)@,
            accepted ==> final(self)@ == (SessionView {
                phase: Phase::Confirmed,
                selection: Some(old(self)@.visible[row as int].index),
                ..old(self)@
            }),
    {
        match self.phase {
            Phase::Confirmed | Phase::Cancelled => false,
            Phase::Idle | Phase::Filtering => {
                if row < self.visible.len() {
                    self.selection = Some(self.visible[row].index);
                    self.phase = Phase::Confirmed;
                    true
                } else {
                    false
                }
            },
        }
    }

    /// Ends a running session without a selection. A session that has ended
    /// stays as it is.
    pub fn cancel(&mut self)
        requires
            old(self).wf(),
        ensures
            final(self).wf(),
            is_terminal(old(self)@.phase) ==> final(self)@ == old(self)@,
            !is_terminal(old(self)@.phase) ==> final(self)@ == (SessionView {
                phase: Phase::Cancelled,
                ..old(self)@
            }),
    {
        match self.phase {
            Phase::Confirmed | Phase::Cancelled => {},
            Phase::Idle | Phase::Filtering => {
                self.phase = Phase::Cancelled;
            },
        }
    }

    /// Where the session stands.
    pub fn phase(&self) -> (p: Phase)
        ensures
            p == self@.phase,
    {
        self.phase
    }

    /// The current query.
    pub fn query(&self) -> (q: &str)
        ensures
            q@ == self@.query,
    {
        self.query.as_str()
    }

    /// The candidates, in the order in which they were supplied.
    pub fn candidates(&self) -> (c: &Vec<Candidate>)
        ensures
            c@ == self@.candidates,
    {
        &self.candidates
    }

    /// The visible list, best row first.
    pub fn visible(&self) -> (rows: &Vec<RankedEntry>)
        ensures
            rows@ == self@.visible,
    {
        &self.visible
    }

    /// The highlighted row, if any.
    pub fn highlight(&self) -> (h: Option<usize>)
        ensures
            h == self@.highlight,
    {
        self.highlight
    }

    /// The selected candidate's place in the candidate list, once the
    /// session is confirmed.
    pub fn selection(&self) -> (s: Option<usize>)
        ensures
            s == self@.selection,
    {
        self.selection
    }

    /// The candidate shown in the visible row `row`, if there is such a row.
    pub fn visible_candidate(&self, row: usize) -> (c: Option<&Candidate>)
        requires
            self.wf(),
        ensures
            row < self@.visible.len() ==> c == Some(
                &self@.candidates[self@.visible[row as int].index as int],
            ),
            row >= self@.visible.len() ==> c is None,
    {
        if row < self.visible.len() {
            let k: usize = self.visible[row].index;
            assert(k < names_of(self.candidates@).len());
            Some(&self.candidates[k])
        } else {
            None
        }
    }

    /// The selected candidate, once the session is confirmed.
    pub fn selected_candidate(&self) -> (c: Option<&Candidate>)
        requires
            self.wf(),
        ensures
            match self@.selection {
                Some(k) => c == Some(&self@.candidates[k as int]),
                None => c is None,
            },
    {
        match self.selection {
            Some(k) => Some(&self.candidates[k]),
            None => None,
        }
    }
}

} // verus!
