//! Event payloads pushed from the core to the interface, and the playback
//! commands the operator sends to the projector.

use vstd::prelude::*;

use crate::models::presentation::PresentationItem;
use crate::models::settings::BrandingSettings;
use crate::text::{chars_eq_str, lower_chars, lowercase, opt_string, to_chars, trim, trim_chars};

verus! {

/// Payload emitted when voice activity detection found speech.
#[derive(Debug, Clone)]
pub struct VadSegmentEvent {
    pub start_ms: u64,
    pub end_ms: u64,
    pub duration_ms: u64,
}

/// Payload emitted when the projected item changes.
#[derive(Debug, Clone)]
pub struct PresentationChangedEvent {
    pub item: Option<PresentationItem>,
    pub projected: bool,
}

/// How projected content should look.
///
/// The projector window is a separate webview, so it cannot read the operator's
/// form state. This carries the values that change how projected content looks
/// (background, text size, typeface, branding) so a Save in Settings applies
/// immediately.
#[derive(Debug, Clone)]
pub struct PresentationSettingsEvent {
    pub background: String,
    pub font_size: u32,
    pub font_family: String,
    pub fullscreen: bool,
    pub follow_live: bool,
    /// The operator's logo and line of text, drawn on every projected item.
    pub branding: BrandingSettings,
    /// Whether a video starts again when it reaches the end.
    pub repeat_videos: bool,
}

/// Payload emitted when the presentation display opens or closes.
#[derive(Debug, Clone)]
pub struct PresentationDisplayEvent {
    pub open: bool,
    pub display: Option<String>,
}

/// What the operator asked the projector's player to do.
///
/// A video (or a piece of music) is the one kind of content that keeps moving
/// after it is on the screen, so the operator needs a way to start it again,
/// hold it, or send it back to the beginning without leaving their seat.
#[derive(Debug, Clone, Copy, PartialEq, Eq, Structural)]
pub enum PlaybackAction {
    Play,
    Pause,
    /// Back to the start and playing again.
    Restart,
    /// Back to the start and held there.
    Stop,
}

/// The action a (trimmed, lowercased) word names.
pub open spec fn spec_playback_action(word: Seq<char>) -> Option<PlaybackAction> {
    if word == "play"@ {
        Some(PlaybackAction::Play)
    } else if word == "pause"@ {
        Some(PlaybackAction::Pause)
    } else if word == "restart"@ {
        Some(PlaybackAction::Restart)
    } else if word == "stop"@ {
        Some(PlaybackAction::Stop)
    } else {
        None
    }
}

impl PlaybackAction {
    /// Parses the action sent from the interface, ignoring case and
    /// surrounding whitespace.
    pub fn parse(value: &str) -> (r: Option<Self>)
        ensures
            r == spec_playback_action(lowercase(trim(value@))),
    {
        let chars = to_chars(value);
        let trimmed = trim_chars(&chars);
        let word = lower_chars(&trimmed);
        if chars_eq_str(&word, "play") {
            Some(PlaybackAction::Play)
        } else if chars_eq_str(&word, "pause") {
            Some(PlaybackAction::Pause)
        } else if chars_eq_str(&word, "restart") {
            Some(PlaybackAction::Restart)
        } else if chars_eq_str(&word, "stop") {
            Some(PlaybackAction::Stop)
        } else {
            None
        }
    }
}

/// Sent from the operator screen to the projector window.
#[derive(Debug, Clone)]
pub struct MediaPlaybackCommand {
    pub action: PlaybackAction,
    /// The item the action is about, so a stale command cannot affect a
    /// different picture or video that is already on the screen.
    pub item_id: Option<String>,
}

/// What is actually playing.
///
/// The projector window is the only place that knows whether a video really
/// started — the operator screen cannot see the congregation's screen — so it
/// reports back and this state is shown in the interface.
#[derive(Debug, Clone, PartialEq)]
pub struct MediaPlaybackState {
    /// The media item on screen, when it is media.
    pub item_id: Option<String>,
    pub playing: bool,
    pub position_ms: u64,
    pub duration_ms: u64,
    /// A video that has run to its end (unless it is looping).
    pub ended: bool,
}

impl Default for MediaPlaybackState {
    fn default() -> (s: Self)
        ensures
            s.item_id is None,
            !s.playing,
            s.position_ms == 0,
            s.duration_ms == 0,
            !s.ended,
    {
        MediaPlaybackState { item_id: None, playing: false, position_ms: 0, duration_ms: 0, ended: false }
    }
}

impl MediaPlaybackState {
    /// The state for a new item that has not reported anything yet.
    pub fn for_item(item_id: Option<String>) -> (s: Self)
        ensures
            s.item_id == item_id,
            !s.playing,
            s.position_ms == 0,
            s.duration_ms == 0,
            !s.ended,
    {
        MediaPlaybackState { item_id, playing: false, position_ms: 0, duration_ms: 0, ended: false }
    }

    /// Whether the state describes `item_id`.
    pub fn describes(&self, item_id: &str) -> (b: bool)
        ensures
            b == (opt_string(self.item_id) == Some(item_id@)),
    {
        match &self.item_id {
            Some(id) => {
                let chars = to_chars(id.as_str());
                chars_eq_str(&chars, item_id)
            },
            None => false,
        }
    }
}

} // verus!
