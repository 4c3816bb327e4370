//! Speech: what the live pipeline reports, how live audio is cut into
//! segments, and how recognised tokens become text. Capturing audio,
//! judging whether a frame is speech and running a model happen outside the
//! library.

pub mod manager;
pub mod mock;
pub mod moonshine;
pub mod segmenter;
pub mod transcript;
pub mod vad;
