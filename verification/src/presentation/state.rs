//! Presentation state manipulators.
//!
//! The state struct itself lives in `models::presentation`; the
//! state-transition logic lives here. The projector shows `current`; `queue`
//! holds what Next will show, and `history` what Back returns to.

use vstd::prelude::*;

use crate::models::presentation::{PresentationItem, PresentationState};

verus! {

/// The mathematical content of a [`PresentationState`].
pub struct StateView {
    pub current: Option<PresentationItem>,
    pub queue: Seq<PresentationItem>,
    pub history: Seq<PresentationItem>,
}

impl View for PresentationState {
    type V = StateView;

    open spec fn view(&self) -> StateView {
        StateView { current: self.current, queue: self.queue@, history: self.history@ }
    }
}

/// The item on the screen as a sequence of zero or one items.
pub open spec fn opt_seq(o: Option<PresentationItem>) -> Seq<PresentationItem> {
    match o {
        Some(x) => seq![x],
        None => seq![],
    }
}

/// Everything the operator can step through, oldest first: the history, the
/// item on the screen, then the queue.
pub open spec fn timeline(s: StateView) -> Seq<PresentationItem> {
    s.history + opt_seq(s.current) + s.queue
}

/// Projecting `item`: the item on the screen moves to the history.
pub open spec fn spec_set_current(s: StateView, item: PresentationItem) -> StateView {
    StateView { current: Some(item), queue: s.queue, history: s.history + opt_seq(s.current) }
}

/// Clearing the screen: the item on it moves to the history.
pub open spec fn spec_clear(s: StateView) -> StateView {
    StateView { current: None, queue: s.queue, history: s.history + opt_seq(s.current) }
}

/// Next: the first queued item is projected; nothing happens on an empty queue.
pub open spec fn spec_show_next(s: StateView) -> (StateView, bool) {
    if s.queue.len() == 0 {
        (s, false)
    } else {
        (spec_set_current(StateView { queue: s.queue.drop_first(), ..s }, s.queue[0]), true)
    }
}

/// Back: the most recent history item is projected again and the item on the
/// screen goes to the front of the queue; nothing happens on an empty history.
pub open spec fn spec_show_previous(s: StateView) -> (StateView, bool) {
    if s.history.len() == 0 {
        (s, false)
    } else {
        (
            StateView {
                current: Some(s.history.last()),
                queue: opt_seq(s.current) + s.queue,
                history: s.history.drop_last(),
            },
            true,
        )
    }
}

impl PresentationState {
    pub fn empty() -> (s: Self)
        ensures
            s@.current is None,
            s@.queue.len() == 0,
            s@.history.len() == 0,
    {
        Self { current: None, queue: Vec::new(), history: Vec::new() }
    }

    /// Sets the current (projected) item, pushing the previous one onto the
    /// history stack.
    pub fn set_current(&mut self, item: PresentationItem)
        ensures
            final(self)@ == spec_set_current(old(self)@, item),
    {
        let ghost before = self@;
        if let Some(previous) = self.current.take() {
            self.history.push(previous);
        }
        self.current = Some(item);
        assert(self@.history =~= before.history + opt_seq(before.current));
    }

    /// Takes the current item off the screen, into the history.
    pub fn clear(&mut self)
        ensures
            final(self)@ == spec_clear(old(self)@),
    {
        let ghost before = self@;
        if let Some(previous) = self.current.take() {
            self.history.push(previous);
        }
        assert(self@.history =~= before.history + opt_seq(before.current));
    }

    /// Shows the next queued item, if any.
    pub fn show_next(&mut self) -> (advanced: bool)
        ensures
            (final(self)@, advanced) == spec_show_next(old(self)@),
    {
        if self.queue.is_empty() {
            return false;
        }
        let next = self.queue.remove(0);
        assert(self.queue@ =~= old(self)@.queue.drop_first());
        self.set_current(next);
        true
    }

    /// Goes back to the most recent item in history, if any.
    pub fn show_previous(&mut self) -> (went_back: bool)
        ensures
            (final(self)@, went_back) == spec_show_previous(old(self)@),
    {
        let ghost before = self@;
        let previous = match self.history.pop() {
            Some(p) => p,
            None => {
                return false;
            },
        };
        // The currently projected item, when present, moves to the front of
        // the queue so it can be returned to with Next.
        if let Some(current) = self.current.take() {
            self.queue.insert(0, current);
        }
        self.current = Some(previous);
        assert(self@.queue =~= opt_seq(before.current) + before.queue);
        true
    }

    pub fn current(&self) -> (r: Option<&PresentationItem>)
        ensures
            match r {
                Some(x) => self.current == Some(*x),
                None => self.current is None,
            },
    {
        self.current.as_ref()
    }
}

// ---------------------------------------------------------------------------
// Laws of navigation
// ---------------------------------------------------------------------------

/// Next, Back and Clear never lose, duplicate or reorder items: the sequence
/// history + screen + queue is the same before and after.
pub proof fn lemma_navigation_keeps_timeline(s: StateView)
    ensures
        timeline(spec_show_next(s).0) == timeline(s),
        timeline(spec_show_previous(s).0) == timeline(s),
        timeline(spec_clear(s)) == timeline(s),
{
    if s.queue.len() > 0 {
        let n = spec_show_next(s).0;
        assert(s.queue =~= seq![s.queue[0]] + s.queue.drop_first());
        assert(timeline(n) =~= timeline(s));
    }
    if s.history.len() > 0 {
        let p = spec_show_previous(s).0;
        assert(s.history =~= s.history.drop_last() + seq![s.history.last()]);
        assert(timeline(p) =~= timeline(s));
    }
    assert(timeline(spec_clear(s)) =~= timeline(s));
}

/// Projecting an item puts it on the screen and keeps everything else in
/// order: it lands just after what was on the screen and before the queue.
pub proof fn lemma_set_current_inserts(s: StateView, item: PresentationItem)
    ensures
        timeline(spec_set_current(s, item)) == s.history + opt_seq(s.current) + seq![item]
            + s.queue,
{
    assert(timeline(spec_set_current(s, item)) =~= s.history + opt_seq(s.current) + seq![item]
        + s.queue);
}

/// Back undoes Next: with an item on the screen and something queued,
/// showing the next item and then going back restores the state exactly.
pub proof fn lemma_next_then_previous(s: StateView)
    requires
        s.current is Some,
        s.queue.len() > 0,
    ensures
        spec_show_previous(spec_show_next(s).0).0 == s,
        spec_show_previous(spec_show_next(s).0).1,
{
    let n = spec_show_next(s).0;
    let p = spec_show_previous(n).0;
    assert(n.history.drop_last() =~= s.history);
    assert(p.queue =~= s.queue);
    assert(p.history =~= s.history);
}

/// Next undoes Back: with an item on the screen and some history, going back
/// and then showing the next item restores the state exactly.
pub proof fn lemma_previous_then_next(s: StateView)
    requires
        s.current is Some,
        s.history.len() > 0,
    ensures
        spec_show_next(spec_show_previous(s).0).0 == s,
        spec_show_next(spec_show_previous(s).0).1,
{
    let p = spec_show_previous(s).0;
    let n = spec_show_next(p).0;
    assert(p.queue.drop_first() =~= s.queue);
    assert(n.history =~= s.history);
    assert(n.queue =~= s.queue);
}

} // verus!
