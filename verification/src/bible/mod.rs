//! The Bible: the translation catalogue, stored rows, themes to suggest,
//! and the checks on verses an operator supplies.

pub mod catalogue;
pub mod import;
pub mod models;
pub mod topics;
pub mod listing;
