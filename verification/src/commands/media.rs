//! Media commands: what is projected, and how the player on the projector is
//! driven and reported.
//!
//! The projector window is a separate webview: only it can touch the video
//! element. The operator's commands therefore name the item they are about,
//! and the projector's reports are only believed about the item that is
//! really on the screen.

use vstd::prelude::*;

use crate::error::AppError;
use crate::events::{spec_playback_action, MediaPlaybackState, PlaybackAction};
use crate::models::presentation::{ContentPayload, PresentationItem};
use crate::text::{append_str, from_chars, lowercase, opt_string, to_chars, trim, trimmed_nonempty, trimmed_option};

verus! {

#[derive(Debug, Clone)]
pub struct ImportMediaRequest {
    pub path: String,
}

#[derive(Debug, Clone)]
pub struct LoadMediaDirectoryRequest {
    pub path: String,
    /// Whether sub-folders are read as well.
    pub recursive: bool,
}

#[derive(Debug, Clone)]
pub struct ProjectMediaRequest {
    pub path: String,
    /// Heading shown with the file; falls back to the file name.
    pub title: Option<String>,
    /// The part of the video to show, and whether it starts again at the end.
    pub clip: Option<MediaClipRequest>,
}

/// A time range chosen on the Media screen, in milliseconds.
#[derive(Debug, Clone, Copy)]
pub struct MediaClipRequest {
    /// Where playback begins. Absent means the beginning of the file.
    pub start_ms: u64,
    /// Where playback ends. Absent runs to the end of the file.
    pub end_ms: Option<u64>,
    /// Whether it starts again instead of stopping. Absent follows the saved
    /// Screen setting.
    pub repeat: Option<bool>,
}

#[derive(Debug, Clone)]
pub struct SetMediaClipRequest {
    /// The library record the range belongs to.
    pub id: String,
    /// The range and repeat choice; `None` forgets the range.
    pub clip: Option<MediaClipRequest>,
}

#[derive(Debug, Clone)]
pub struct PlaybackRequest {
    /// `play`, `pause`, `restart` or `stop`.
    pub action: String,
}

/// What the projector's player reports it is doing.
#[derive(Debug, Clone)]
pub struct PlaybackReport {
    pub playing: bool,
    pub position_ms: u64,
    pub duration_ms: u64,
    pub ended: bool,
}

/// Where the operator screen reads playback from.
#[derive(Debug, Clone)]
pub struct PlaybackSnapshot {
    /// The item on screen, if any.
    pub item_id: Option<String>,
    /// The kind of the media on screen, when it has one.
    pub media_kind: Option<String>,
    pub playing: bool,
    pub position_ms: u64,
    pub duration_ms: u64,
    pub ended: bool,
}

/// The heading printed over projected media: only one the operator gave
/// (trimmed), so a picture fills the screen without its file name on it.
pub fn media_caption(title: &Option<String>) -> (r: Option<String>)
    ensures
        opt_string(r) == trimmed_nonempty(opt_string(*title)),
{
    trimmed_option(title)
}

/// The title of projected media: the operator's heading, else the file
/// name, else `Media`.
pub fn media_title(title: &Option<String>, file_name: Option<String>) -> (r: String)
    ensures
        r@ == match trimmed_nonempty(opt_string(*title)) {
            Some(t) => t,
            None => match file_name {
                Some(f) => f@,
                None => "Media"@,
            },
        },
{
    match trimmed_option(title) {
        Some(t) => t,
        None => match file_name {
            Some(f) => f,
            None => "Media".to_owned(),
        },
    }
}

/// The message for an action a player does not know.
pub open spec fn unknown_action(action: Seq<char>) -> Seq<char> {
    action + " is not something a player can do (try play, pause, restart or stop)"@
}

/// Checks a playback request against what is on the screen: the action must
/// be one a player knows, and something must be on the screen.
pub fn playback_command(request: &PlaybackRequest, on_screen: &Option<String>) -> (r: Result<
    PlaybackAction,
    AppError,
>)
    ensures
        spec_playback_action(lowercase(trim(request.action@))) is None ==> (r matches Err(
            AppError::InvalidConfiguration(m),
        ) && m@ == unknown_action(request.action@)),
        spec_playback_action(lowercase(trim(request.action@))) matches Some(a) ==> (match on_screen {
            Some(_) => r == Ok::<PlaybackAction, AppError>(a),
            None => r matches Err(AppError::Presentation(m)) && m@
                == "nothing is on the screen to play"@,
        }),
{
    let action = match PlaybackAction::parse(request.action.as_str()) {
        Some(a) => a,
        None => {
            let mut m = to_chars(request.action.as_str());
            append_str(&mut m, " is not something a player can do (try play, pause, restart or stop)");
            return Err(AppError::InvalidConfiguration(from_chars(&m)));
        },
    };
    match on_screen {
        Some(_) => Ok(action),
        None => Err(AppError::Presentation("nothing is on the screen to play".to_owned())),
    }
}

/// What the held playback state becomes once `action` was sent about the
/// item `on_screen`, before the projector reports back: only a state that
/// describes that item changes.
pub open spec fn after_action(p: MediaPlaybackState, on_screen: Option<String>, action: PlaybackAction) -> MediaPlaybackState {
    if opt_string(p.item_id) != opt_string(on_screen) {
        p
    } else {
        match action {
            PlaybackAction::Play => MediaPlaybackState { playing: true, ..p },
            PlaybackAction::Pause => MediaPlaybackState { playing: false, ..p },
            PlaybackAction::Restart => MediaPlaybackState { playing: true, position_ms: 0, ended: false, ..p },
            PlaybackAction::Stop => MediaPlaybackState { playing: false, position_ms: 0, ended: false, ..p },
        }
    }
}

fn same_id(a: &Option<String>, b: &Option<String>) -> (r: bool)
    ensures
        r == (opt_string(*a) == opt_string(*b)),
{
    match (a, b) {
        (Some(x), Some(y)) => {
            let xs = to_chars(x.as_str());
            let ys = to_chars(y.as_str());
            crate::text::chars_eq(&xs, &ys)
        },
        (None, None) => true,
        _ => false,
    }
}

/// Updates the held state optimistically, so the button responds at once;
/// the projector's report replaces it with the truth a moment later.
pub fn apply_playback_action(
    playback: &mut MediaPlaybackState,
    on_screen: &Option<String>,
    action: PlaybackAction,
)
    ensures
        *final(playback) == after_action(*old(playback), *on_screen, action),
{
    if same_id(&playback.item_id, on_screen) {
        match action {
            PlaybackAction::Play => {
                playback.playing = true;
            },
            PlaybackAction::Pause => {
                playback.playing = false;
            },
            PlaybackAction::Restart => {
                playback.playing = true;
                playback.position_ms = 0;
                playback.ended = false;
            },
            PlaybackAction::Stop => {
                playback.playing = false;
                playback.position_ms = 0;
                playback.ended = false;
            },
        }
    }
}

/// Whether the held state describes the item on the screen.
pub open spec fn describes_current(p: MediaPlaybackState, current: Option<PresentationItem>) -> bool {
    match current {
        Some(item) => opt_string(p.item_id) == Some(item.id@),
        None => false,
    }
}

/// Takes in the projector's report, but only about the item that is really
/// on the screen, so a late report from a file that has been replaced
/// cannot flip the badge.
pub fn apply_playback_report(
    playback: &mut MediaPlaybackState,
    current: &Option<PresentationItem>,
    report: &PlaybackReport,
)
    ensures
        describes_current(*old(playback), *current) ==> *final(playback) == (MediaPlaybackState {
            playing: report.playing,
            position_ms: report.position_ms,
            duration_ms: report.duration_ms,
            ended: report.ended,
            ..*old(playback)
        }),
        !describes_current(*old(playback), *current) ==> *final(playback) == *old(playback),
{
    let describes = match current {
        Some(item) => playback.describes(item.id.as_str()),
        None => false,
    };
    if describes {
        playback.playing = report.playing;
        playback.position_ms = report.position_ms;
        playback.duration_ms = report.duration_ms;
        playback.ended = report.ended;
    }
}

/// The kind of the media on screen, when the item is media and has one.
pub open spec fn current_media_kind(current: Option<PresentationItem>) -> Option<Seq<char>> {
    match current {
        Some(item) => match item.payload {
            ContentPayload::Media { media_kind, .. } => opt_string(media_kind),
            _ => None,
        },
        None => None,
    }
}

/// What the Media screen shows: the item on screen and its kind, and the
/// playback figures only when the held state is about that item.
pub fn playback_snapshot(current: &Option<PresentationItem>, playback: &MediaPlaybackState) -> (s:
    PlaybackSnapshot)
    ensures
        opt_string(s.item_id) == (match *current {
            Some(item) => Some(item.id@),
            None => None,
        }),
        opt_string(s.media_kind) == current_media_kind(*current),
        s.playing == (describes_current(*playback, *current) && playback.playing),
        s.position_ms == (if describes_current(*playback, *current) {
            playback.position_ms
        } else {
            0
        }),
        s.duration_ms == (if describes_current(*playback, *current) {
            playback.duration_ms
        } else {
            0
        }),
        s.ended == (describes_current(*playback, *current) && playback.ended),
{
    let (item_id, media_kind, describes) = match current {
        Some(item) => {
            let kind = match &item.payload {
                ContentPayload::Media { media_kind, .. } => media_kind.clone(),
                _ => None,
            };
            (Some(item.id.clone()), kind, playback.describes(item.id.as_str()))
        },
        None => (None, None, false),
    };
    PlaybackSnapshot {
        item_id,
        media_kind,
        playing: describes && playback.playing,
        position_ms: if describes {
            playback.position_ms
        } else {
            0
        },
        duration_ms: if describes {
            playback.duration_ms
        } else {
            0
        },
        ended: describes && playback.ended,
    }
}

} // verus!
