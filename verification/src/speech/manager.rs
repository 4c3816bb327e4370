//! What the live speech pipeline reports to the interface.

use vstd::prelude::*;

use crate::models::settings::SpeechSettings;
use crate::text::opt_string;

verus! {

/// In-memory state the UI can poll.
#[derive(Debug, Clone)]
pub struct SpeechManagerState {
    pub listening: bool,
    pub recognizer_id: String,
    pub model_loaded: bool,
    pub vad_enabled: bool,
    pub segments_seen: u64,
    pub transcripts_generated: u64,
    pub last_error: Option<String>,
}

impl Default for SpeechManagerState {
    /// Not listening, on the mock recognizer, with voice detection on and
    /// nothing seen yet.
    fn default() -> (s: Self)
        ensures
            !s.listening,
            s.recognizer_id@ == "mock"@,
            !s.model_loaded,
            s.vad_enabled,
            s.segments_seen == 0,
            s.transcripts_generated == 0,
            s.last_error is None,
    {
        SpeechManagerState {
            listening: false,
            recognizer_id: "mock".to_owned(),
            model_loaded: false,
            vad_enabled: true,
            segments_seen: 0,
            transcripts_generated: 0,
            last_error: None,
        }
    }
}

/// The model a recognizer loads when speech settings change: the
/// configured path, when one is set and not empty.
pub fn model_to_load(settings: &SpeechSettings) -> (r: Option<String>)
    ensures
        opt_string(r) == (match opt_string(settings.model_path) {
            Some(p) => if p.len() > 0 {
                Some(p)
            } else {
                None
            },
            None => None,
        }),
{
    match &settings.model_path {
        Some(p) => if p.as_str().is_empty() {
            None
        } else {
            Some(p.clone())
        },
        None => None,
    }
}

} // verus!
