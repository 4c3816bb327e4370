//! Development speech recognizer.
//!
//! This recognizer intentionally produces an EMPTY transcript. It is a
//! placeholder that keeps the microphone → VAD → recognizer pipeline
//! runnable without a model; it never fabricates recognizable text, so
//! nothing on the projector can be produced from mock output.

use vstd::prelude::*;

verus! {

/// The recognizer that is always loaded and never hears anything.
#[derive(Debug, Clone, Copy)]
pub struct MockSpeechRecognizer;

impl MockSpeechRecognizer {
    /// The id the pipeline reports for this recognizer.
    pub fn id(&self) -> (s: &'static str)
        ensures
            s@ == "mock"@,
    {
        "mock"
    }

    /// The mock needs no model, so it is always ready.
    pub fn is_loaded(&self) -> (b: bool)
        ensures
            b,
    {
        true
    }
}

} // verus!
