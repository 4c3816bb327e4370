//! The Moonshine recognizer's pure parts: its token budget and its
//! tokenizer's decoding.

pub mod engine;
pub mod tokenizer;
