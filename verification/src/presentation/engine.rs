//! Presentation engine.
//!
//! Decides HOW content is displayed. Content itself (Bible passages, media,
//! text) comes from other modules — the engine only manages the projection
//! queue. The application shares one engine between threads behind a lock and
//! pushes state changes to the interface after each step.

use vstd::prelude::*;

use crate::error::AppError;
use crate::models::presentation::{PresentationItem, PresentationState};

use super::state::{spec_clear, spec_set_current, spec_show_next, spec_show_previous, StateView};

verus! {

pub struct PresentationEngine {
    state: PresentationState,
}

impl PresentationEngine {
    /// The engine's state.
    pub closed spec fn spec_state(&self) -> StateView {
        self.state@
    }

    pub fn new() -> (e: Self)
        ensures
            e.spec_state().current is None,
            e.spec_state().queue.len() == 0,
            e.spec_state().history.len() == 0,
    {
        Self { state: PresentationState::empty() }
    }

    /// Projects `item`.
    pub fn project(&mut self, item: PresentationItem)
        ensures
            final(self).spec_state() == spec_set_current(old(self).spec_state(), item),
    {
        self.state.set_current(item);
    }

    /// Clears the projector.
    pub fn clear(&mut self)
        ensures
            final(self).spec_state() == spec_clear(old(self).spec_state()),
    {
        self.state.clear();
    }

    /// Shows the next queued item; whether there was one.
    pub fn show_next(&mut self) -> (advanced: bool)
        ensures
            (final(self).spec_state(), advanced) == spec_show_next(old(self).spec_state()),
    {
        self.state.show_next()
    }

    /// Goes back to the previous item; whether there was one.
    pub fn show_previous(&mut self) -> (went_back: bool)
        ensures
            (final(self).spec_state(), went_back) == spec_show_previous(old(self).spec_state()),
    {
        self.state.show_previous()
    }

    /// Adds `item` to the end of the queue.
    pub fn queue(&mut self, item: PresentationItem) -> (r: Result<(), AppError>)
        ensures
            r is Ok,
            final(self).spec_state() == (StateView {
                queue: old(self).spec_state().queue.push(item),
                ..old(self).spec_state()
            }),
    {
        self.state.queue.push(item);
        Ok(())
    }

    /// Empties the queue; what is on the screen and what was shown before
    /// stay as they are.
    pub fn clear_queue(&mut self) -> (r: Result<(), AppError>)
        ensures
            r is Ok,
            final(self).spec_state() == (StateView {
                queue: Seq::<PresentationItem>::empty(),
                ..old(self).spec_state()
            }),
    {
        self.state.queue = Vec::new();
        Ok(())
    }

    /// A read-only view of the state.
    pub fn state(&self) -> (s: &PresentationState)
        ensures
            s@ == self.spec_state(),
    {
        &self.state
    }
}

} // verus!
