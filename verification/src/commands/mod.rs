//! The decisions behind the interface's commands: what a request is checked
//! for, and what is stored or answered for it. The commands themselves (the
//! database, the windows, the event bus) run outside the library.

pub mod bible;
pub mod media;
pub mod presentation;
pub mod settings;
pub mod songs;
