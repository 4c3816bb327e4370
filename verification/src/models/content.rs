//! Generic content detection model.
//!
//! Detected content is a typed result. Only Scripture detection is wired;
//! the variant set is designed to grow (Lyrics, Media, Announcement, ...)
//! without API rewrites.

use vstd::prelude::*;

use crate::scripture::parser::{find_references, spec_find_references};
use crate::scripture::reference::{spec_display, ScriptureReference};
use crate::text::{from_chars, to_chars, trim, trim_chars};

verus! {

/// A piece of content detected from a transcript or text input.
#[derive(Debug, Clone, PartialEq)]
pub enum DetectedContent {
    /// A structurally valid Scripture reference.
    Scripture { reference: ScriptureReference },
    /// Free text that is not (yet) a known content type.
    Text { text: String },
    /// Text we could not interpret at all.
    Unknown { text: String },
}

/// Deterministic content detector.
///
/// Runs the Scripture parser over the input. Rule-based detection is fully
/// reproducible.
#[derive(Debug, Clone, Copy)]
pub struct ContentDetector;

/// What a transcript holds: every Scripture reference in it, in order; or,
/// when it names none, the (trimmed) text itself; nothing for blank input.
pub open spec fn detected_in(transcript: Seq<char>, r: Seq<DetectedContent>) -> bool {
    let t = trim(transcript);
    let refs = spec_find_references(t);
    if t.len() == 0 {
        r.len() == 0
    } else if refs.len() > 0 {
        &&& r.len() == refs.len()
        &&& forall|i: int|
            0 <= i < r.len() ==> (#[trigger] r[i]) == (DetectedContent::Scripture { reference: refs[i] })
    } else {
        &&& r.len() == 1
        &&& r[0] matches DetectedContent::Text { text } && text@ == t
    }
}

impl ContentDetector {
    /// Detects content in a transcript (or free text). Only falls back to
    /// text when nothing more specific matched.
    pub fn detect_contents(&self, transcript: &str) -> (r: Vec<DetectedContent>)
        ensures
            detected_in(transcript@, r@),
    {
        let chars = to_chars(transcript);
        let trimmed = trim_chars(&chars);
        let mut results: Vec<DetectedContent> = Vec::new();
        if trimmed.len() == 0 {
            return results;
        }
        let text = from_chars(&trimmed);
        let refs = find_references(text.as_str());
        let mut i: usize = 0;
        while i < refs.len()
            invariant
                i <= refs@.len(),
                results@.len() == i,
                forall|k: int|
                    0 <= k < i ==> (#[trigger] results@[k]) == (DetectedContent::Scripture {
                        reference: refs@[k],
                    }),
            decreases refs.len() - i,
        {
            results.push(DetectedContent::Scripture { reference: refs[i] });
            i = i + 1;
        }
        if results.len() == 0 {
            results.push(DetectedContent::Text { text });
        }
        results
    }
}

/// The label the interface shows for a detection.
pub open spec fn spec_label(c: DetectedContent) -> Seq<char> {
    match c {
        DetectedContent::Scripture { reference } => spec_display(reference),
        DetectedContent::Text { .. } => "Text"@,
        DetectedContent::Unknown { .. } => "Unknown"@,
    }
}

impl DetectedContent {
    /// Short human label used by the UI.
    pub fn label(&self) -> (s: String)
        ensures
            s@ == spec_label(*self),
    {
        match self {
            DetectedContent::Scripture { reference } => reference.display(),
            DetectedContent::Text { .. } => "Text".to_owned(),
            DetectedContent::Unknown { .. } => "Unknown".to_owned(),
        }
    }

    /// True when the detection is a Scripture reference.
    pub fn is_scripture(&self) -> (b: bool)
        ensures
            b == (*self is Scripture),
    {
        match self {
            DetectedContent::Scripture { .. } => true,
            _ => false,
        }
    }
}

} // verus!
