//! The application's shared data model.

pub mod content;
pub mod presentation;
pub mod settings;
