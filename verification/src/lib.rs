//! Verified core of Selah, a live-presentation assistant for churches:
//! Scripture reference detection, the Bible book registry, the projector's
//! presentation state and the validation of operator input.

pub mod text;
pub mod scripture;
pub mod error;
pub mod models;
pub mod presentation;
pub mod bible;
pub mod commands;
pub mod songs;
pub mod events;
pub mod speech;
pub mod media;
pub mod audio;
pub mod db;
