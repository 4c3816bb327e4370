//! Settings commands: what is stored when settings change, and how far the
//! first-run setup has come.

use vstd::prelude::*;

use crate::models::settings::{
    default_presentation_view, drops_relative_logo, lemma_defaults_are_readable, lemma_readable_is_untouched,
    spec_presentation_sanitized, AppSettings, PresentationView, RecognizerKind, SpeechSettings,
};
use crate::text::opt_string;

verus! {

/// How far the first-run setup has come.
#[derive(Debug, Clone)]
pub struct SetupState {
    pub completed: bool,
    pub has_translations: bool,
    pub has_model: bool,
}

/// The settings the interface asks to store.
#[derive(Debug, Clone)]
pub struct UpdateSettingsRequest {
    pub settings: AppSettings,
}

/// The setup state from what is stored: the setup flag (`1` when done), the
/// number of installed translations and the configured model path.
pub fn setup_state(completed_flag: &Option<String>, translations: usize, model_path: &Option<String>) -> (s:
    SetupState)
    ensures
        s.completed == (opt_string(*completed_flag) == Some("1"@)),
        s.has_translations == (translations > 0),
        s.has_model == (match opt_string(*model_path) {
            Some(p) => p.len() > 0,
            None => false,
        }),
{
    let completed = match completed_flag {
        Some(v) => {
            let chars = crate::text::to_chars(v.as_str());
            crate::text::chars_eq_str(&chars, "1")
        },
        None => false,
    };
    let has_model = match model_path {
        Some(p) => p.as_str().is_empty() == false,
        None => false,
    };
    SetupState { completed, has_translations: translations > 0, has_model }
}

/// The settings stored for a request: everything as sent, except the
/// projector settings, which are repaired first so the projector can never
/// be put into a state the operator cannot see their way out of. The flag
/// says whether anything had to be repaired.
pub fn settings_to_store(request: UpdateSettingsRequest) -> (r: (AppSettings, bool))
    ensures
        exists|abs: bool|
            (r.0.presentation@, r.1) == spec_presentation_sanitized(request.settings.presentation@, abs),
        r.1 <==> r.0.presentation@ != request.settings.presentation@,
        drops_relative_logo(request.settings.presentation@.branding, r.0.presentation@.branding),
        r.0.general == request.settings.general,
        r.0.audio == request.settings.audio,
        r.0.speech == request.settings.speech,
        r.0.media == request.settings.media,
{
    let (presentation, repaired) = request.settings.presentation.sanitized();
    let s = request.settings;
    let next = AppSettings {
        general: s.general,
        audio: s.audio,
        speech: s.speech,
        presentation,
        media: s.media,
    };
    (next, repaired)
}

/// The model folder speech should use at start-up: the configured one when
/// it is set and is a folder, otherwise the application's own model folder.
/// Only the Moonshine recognizer needs one.
pub open spec fn startup_model_path(
    speech: SpeechSettings,
    configured_is_folder: bool,
    default_model_dir: Seq<char>,
) -> Option<Seq<char>> {
    if speech.recognizer == RecognizerKind::Moonshine {
        match opt_string(speech.model_path) {
            Some(p) => if p.len() > 0 && configured_is_folder {
                Some(p)
            } else {
                Some(default_model_dir)
            },
            None => Some(default_model_dir),
        }
    } else {
        opt_string(speech.model_path)
    }
}

/// Moonshine is chosen but the configured model folder cannot be used (no
/// path, an empty one, or one that is not a folder): the default folder is
/// put in its place, and the settings are saved back.
pub open spec fn model_folder_unusable(speech: SpeechSettings, configured_is_folder: bool) -> bool {
    speech.recognizer == RecognizerKind::Moonshine && !(match opt_string(speech.model_path) {
        Some(p) => p.len() > 0 && configured_is_folder,
        None => false,
    })
}

/// The settings Selah starts with: the stored document (or the defaults for
/// a machine with `threads` worker threads), with unreadable projector
/// settings repaired, and — for the Moonshine recognizer — a model path
/// that is not a usable folder replaced by the application's own model
/// folder. The flag says whether the result must be saved back.
///
/// `configured_is_folder` says whether the configured model path is an
/// existing folder.
pub fn settings_at_startup(
    stored: Option<AppSettings>,
    threads: u32,
    configured_is_folder: bool,
    default_model_dir: &str,
) -> (r: (AppSettings, bool))
    ensures
        stored matches Some(st) ==> {
            &&& exists|abs: bool|
                (#[trigger] spec_presentation_sanitized(st.presentation@, abs)).0 == r.0.presentation@
            &&& drops_relative_logo(st.presentation@.branding, r.0.presentation@.branding)
            &&& r.0.general == st.general
            &&& r.0.audio == st.audio
            &&& r.0.media == st.media
            &&& r.0.speech.recognizer == st.speech.recognizer
            &&& r.0.speech.threads == st.speech.threads
            &&& r.0.speech.language == st.speech.language
            &&& r.0.speech.vad_enabled == st.speech.vad_enabled
            &&& r.0.speech.speech_sample_rate == st.speech.speech_sample_rate
            &&& opt_string(r.0.speech.model_path) == startup_model_path(
                st.speech,
                configured_is_folder,
                default_model_dir@,
            )
            &&& r.1 <==> (r.0.presentation@ != st.presentation@ || model_folder_unusable(
                st.speech,
                configured_is_folder,
            ))
        },
        stored is None ==> {
            &&& r.0.speech.threads == threads
            &&& r.0.speech.recognizer == RecognizerKind::Mock
            &&& r.0.speech.model_path is None
            &&& r.0.general.app_name@ == "Selah"@
            &&& r.0.presentation@ == default_presentation_view()
            &&& !r.1
        },
{
    let base = match stored {
        Some(s) => s,
        None => AppSettings::defaults(threads),
    };
    proof {
        if stored is None {
            lemma_defaults_are_readable();
            reveal_strlit("Selah");
        }
    }
    let (presentation, repaired) = base.presentation.sanitized();
    proof {
        if stored is None {
            let abs = choose|abs: bool| (presentation@, repaired) == spec_presentation_sanitized(
                base.presentation@,
                abs,
            );
            lemma_readable_is_untouched(base.presentation@, abs);
        }
    }
    let mut speech = base.speech;
    let mut model_fixed = false;
    if speech.recognizer == RecognizerKind::Moonshine {
        let usable = match &speech.model_path {
            Some(p) => !p.as_str().is_empty() && configured_is_folder,
            None => false,
        };
        if !usable {
            let fallback = default_model_dir.to_owned();
            model_fixed = true;
            speech.model_path = Some(fallback);
        }
    }
    let next = AppSettings {
        general: base.general,
        audio: base.audio,
        speech,
        presentation,
        media: base.media,
    };
    (next, repaired || model_fixed)
}

} // verus!
