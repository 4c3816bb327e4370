//! The projector: what is on the screen, what comes next, and what came
//! before.

pub mod engine;
pub mod state;
pub mod display;
