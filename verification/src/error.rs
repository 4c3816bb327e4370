//! Typed application errors.
//!
//! Domain logic returns [`AppError`]. Each error has a stable machine-readable
//! kind and a human-readable message; the frontend only ever sees those two.

use vstd::prelude::*;

use crate::text::{append_chars, append_str, from_chars, to_chars};

verus! {

/// Application-level error type shared by the verified modules.
#[derive(Debug, Clone)]
pub enum AppError {
    AudioDeviceNotFound(String),
    AudioQueryFailed(String),
    AudioCaptureFailed(String),
    SpeechModelNotFound(String),
    SpeechRecognitionFailed(String),
    VadFailed(String),
    /// A storage failure, carried as its message.
    Database(String),
    BibleTranslationNotFound(String),
    ScriptureNotFound { translation: String, reference: String },
    InvalidScriptureReference(String),
    DisplayNotFound(String),
    Presentation(String),
    InvalidConfiguration(String),
    Media(String),
    Unavailable(String),
    Internal(String),
}

/// The serializable shape of an error handed to the interface.
#[derive(Debug, Clone)]
pub struct ErrorPayload {
    pub kind: String,
    pub message: String,
}

/// The human-readable message of an error.
pub open spec fn spec_message(e: AppError) -> Seq<char> {
    match e {
        AppError::AudioDeviceNotFound(s) => "audio device not found: "@ + s@,
        AppError::AudioQueryFailed(s) => "audio device query failed: "@ + s@,
        AppError::AudioCaptureFailed(s) => "audio capture failed: "@ + s@,
        AppError::SpeechModelNotFound(s) => "speech model not found: "@ + s@,
        AppError::SpeechRecognitionFailed(s) => "speech recognition failed: "@ + s@,
        AppError::VadFailed(s) => "voice activity detection failed: "@ + s@,
        AppError::Database(s) => "database error: "@ + s@,
        AppError::BibleTranslationNotFound(s) => "bible translation not found: "@ + s@,
        AppError::ScriptureNotFound { translation, reference } => "scripture not found in translation '"@
            + translation@ + "': "@ + reference@,
        AppError::InvalidScriptureReference(s) => "invalid scripture reference: "@ + s@,
        AppError::DisplayNotFound(s) => "display not found: "@ + s@,
        AppError::Presentation(s) => "presentation error: "@ + s@,
        AppError::InvalidConfiguration(s) => "invalid configuration: "@ + s@,
        AppError::Media(s) => "media error: "@ + s@,
        AppError::Unavailable(s) => "the requested operation is unavailable in this build: "@ + s@,
        AppError::Internal(s) => "internal error: "@ + s@,
    }
}

/// The message the interface shows: the full message of an error whose
/// detail is meant for the operator (a name, a reference, a setting), and
/// only what went wrong for one whose detail is technical.
pub open spec fn spec_frontend_message(e: AppError) -> Seq<char> {
    match e {
        AppError::AudioQueryFailed(_) => "audio device query failed"@,
        AppError::AudioCaptureFailed(_) => "audio capture failed"@,
        AppError::SpeechModelNotFound(_) => "speech model not found"@,
        AppError::SpeechRecognitionFailed(_) => "speech recognition failed"@,
        AppError::VadFailed(_) => "voice activity detection failed"@,
        AppError::Database(_) => "database error"@,
        AppError::Media(_) => "media error"@,
        AppError::Unavailable(_) => "the requested operation is unavailable in this build"@,
        AppError::Internal(_) => "internal error"@,
        _ => spec_message(e),
    }
}

/// The stable machine-readable kind of an error (camelCase).
pub open spec fn spec_kind(e: AppError) -> Seq<char> {
    match e {
        AppError::AudioDeviceNotFound(_) => "audioDeviceNotFound"@,
        AppError::AudioQueryFailed(_) => "audioQueryFailed"@,
        AppError::AudioCaptureFailed(_) => "audioCaptureFailed"@,
        AppError::SpeechModelNotFound(_) => "speechModelNotFound"@,
        AppError::SpeechRecognitionFailed(_) => "speechRecognitionFailed"@,
        AppError::VadFailed(_) => "vadFailed"@,
        AppError::Database(_) => "databaseError"@,
        AppError::BibleTranslationNotFound(_) => "bibleTranslationNotFound"@,
        AppError::ScriptureNotFound { .. } => "scriptureNotFound"@,
        AppError::InvalidScriptureReference(_) => "invalidScriptureReference"@,
        AppError::DisplayNotFound(_) => "displayNotFound"@,
        AppError::Presentation(_) => "presentationError"@,
        AppError::InvalidConfiguration(_) => "invalidConfiguration"@,
        AppError::Media(_) => "mediaError"@,
        AppError::Unavailable(_) => "unavailable"@,
        AppError::Internal(_) => "internalError"@,
    }
}

fn prefixed(prefix: &str, s: &String) -> (r: String)
    ensures
        r@ == prefix@ + s@,
{
    let mut v = to_chars(prefix);
    let w = to_chars(s.as_str());
    append_chars(&mut v, &w);
    from_chars(&v)
}

impl AppError {
    /// The human-readable message (what `to_string` shows).
    pub fn message(&self) -> (m: String)
        ensures
            m@ == spec_message(*self),
    {
        match self {
            AppError::AudioDeviceNotFound(s) => prefixed("audio device not found: ", s),
            AppError::AudioQueryFailed(s) => prefixed("audio device query failed: ", s),
            AppError::AudioCaptureFailed(s) => prefixed("audio capture failed: ", s),
            AppError::SpeechModelNotFound(s) => prefixed("speech model not found: ", s),
            AppError::SpeechRecognitionFailed(s) => prefixed("speech recognition failed: ", s),
            AppError::VadFailed(s) => prefixed("voice activity detection failed: ", s),
            AppError::Database(s) => prefixed("database error: ", s),
            AppError::BibleTranslationNotFound(s) => prefixed("bible translation not found: ", s),
            AppError::ScriptureNotFound { translation, reference } => {
                let mut v = to_chars("scripture not found in translation '");
                append_str(&mut v, translation.as_str());
                append_str(&mut v, "': ");
                append_str(&mut v, reference.as_str());
                from_chars(&v)
            },
            AppError::InvalidScriptureReference(s) => prefixed("invalid scripture reference: ", s),
            AppError::DisplayNotFound(s) => prefixed("display not found: ", s),
            AppError::Presentation(s) => prefixed("presentation error: ", s),
            AppError::InvalidConfiguration(s) => prefixed("invalid configuration: ", s),
            AppError::Media(s) => prefixed("media error: ", s),
            AppError::Unavailable(s) => prefixed(
                "the requested operation is unavailable in this build: ",
                s,
            ),
            AppError::Internal(s) => prefixed("internal error: ", s),
        }
    }

    /// Stable machine-readable error kind (camelCase).
    pub fn kind(&self) -> (k: &'static str)
        ensures
            k@ == spec_kind(*self),
    {
        match self {
            AppError::AudioDeviceNotFound(_) => "audioDeviceNotFound",
            AppError::AudioQueryFailed(_) => "audioQueryFailed",
            AppError::AudioCaptureFailed(_) => "audioCaptureFailed",
            AppError::SpeechModelNotFound(_) => "speechModelNotFound",
            AppError::SpeechRecognitionFailed(_) => "speechRecognitionFailed",
            AppError::VadFailed(_) => "vadFailed",
            AppError::Database(_) => "databaseError",
            AppError::BibleTranslationNotFound(_) => "bibleTranslationNotFound",
            AppError::ScriptureNotFound { .. } => "scriptureNotFound",
            AppError::InvalidScriptureReference(_) => "invalidScriptureReference",
            AppError::DisplayNotFound(_) => "displayNotFound",
            AppError::Presentation(_) => "presentationError",
            AppError::InvalidConfiguration(_) => "invalidConfiguration",
            AppError::Media(_) => "mediaError",
            AppError::Unavailable(_) => "unavailable",
            AppError::Internal(_) => "internalError",
        }
    }

    /// Serialized payload shown to the frontend: a stable kind and a
    /// human-readable message. Errors whose detail is technical (storage,
    /// devices, models, files, internal faults) show only what went wrong;
    /// their detail, which may hold paths, stays in the log.
    pub fn to_frontend(&self) -> (p: ErrorPayload)
        ensures
            p.kind@ == spec_kind(*self),
            p.message@ == spec_frontend_message(*self),
    {
        let k = to_chars(self.kind());
        let message = match self {
            AppError::AudioQueryFailed(_) => "audio device query failed".to_owned(),
            AppError::AudioCaptureFailed(_) => "audio capture failed".to_owned(),
            AppError::SpeechModelNotFound(_) => "speech model not found".to_owned(),
            AppError::SpeechRecognitionFailed(_) => "speech recognition failed".to_owned(),
            AppError::VadFailed(_) => "voice activity detection failed".to_owned(),
            AppError::Database(_) => "database error".to_owned(),
            AppError::Media(_) => "media error".to_owned(),
            AppError::Unavailable(_) => "the requested operation is unavailable in this build".to_owned(),
            AppError::Internal(_) => "internal error".to_owned(),
            _ => self.message(),
        };
        ErrorPayload { kind: from_chars(&k), message }
    }
}

/// Whether `r` failed with an `InvalidConfiguration` error carrying `m`.
pub open spec fn fails_with_config<T>(r: Result<T, AppError>, m: Seq<char>) -> bool {
    match r {
        Err(AppError::InvalidConfiguration(s)) => s@ == m,
        _ => false,
    }
}

/// An `InvalidConfiguration` error with a fixed message.
pub fn config_error(message: &str) -> (e: AppError)
    ensures
        e matches AppError::InvalidConfiguration(s) && s@ == message@,
{
    AppError::InvalidConfiguration(message.to_owned())
}

/// An `InvalidConfiguration` error with the given message.
pub fn invalid_configuration(message: Vec<char>) -> (e: AppError)
    ensures
        e matches AppError::InvalidConfiguration(s) && s@ == message@,
{
    AppError::InvalidConfiguration(from_chars(&message))
}

} // verus!
