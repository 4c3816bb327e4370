//! Transcript types shared by all recognizers.

use vstd::prelude::*;

verus! {

/// Which implementation produced a transcript.
#[derive(Debug, Clone, Copy, PartialEq, Eq, Structural)]
pub enum TranscriptSource {
    /// Development recognizer. It never fabricates text.
    Mock,
    /// whisper.cpp via whisper-rs.
    Whisper,
}

} // verus!
