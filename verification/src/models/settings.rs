//! Persisted application settings.
//!
//! Stored as a single document in the `settings` table so new fields do not
//! require schema migrations. Defaults are conservative, and
//! [`PresentationSettings::sanitized`] repairs values that would break the
//! projector.

use vstd::prelude::*;

use crate::text::{
    collapse_whitespace, collapse_ws, from_chars, is_hex_digit, is_ws, lemma_collapse_ws_fixed,
    lemma_collapse_ws_shape, lemma_collapsed_cut, lemma_trim_idempotent, lemma_trim_len, take_chars,
    to_chars, trim, trim_chars, trim_end, trim_start,
};

verus! {

/// Which speech recognition implementation is active.
#[derive(Debug, Clone, Copy, PartialEq, Eq, Structural)]
pub enum RecognizerKind {
    /// Development recognizer. Returns empty transcripts — never pretends to
    /// transcribe audio.
    Mock,
    /// Moonshine (ONNX). Requires a model directory at runtime.
    Moonshine,
}

#[derive(Debug, Clone, PartialEq)]
pub struct GeneralSettings {
    pub app_name: String,
    pub default_translation_id: Option<String>,
    pub theme: String,
}

#[derive(Debug, Clone, PartialEq)]
pub struct AudioSettings {
    pub input_device_id: Option<String>,
    /// 0 = device default sample rate.
    pub sample_rate: u32,
}

#[derive(Debug, Clone, PartialEq)]
pub struct SpeechSettings {
    pub recognizer: RecognizerKind,
    pub model_path: Option<String>,
    pub language: Option<String>,
    pub threads: u32,
    pub vad_enabled: bool,
    /// The expected/speech sample rate after resampling (Moonshine wants 16k).
    pub speech_sample_rate: u32,
}

impl SpeechSettings {
    /// The defaults, for a machine that offers `threads` worker threads: the
    /// mock recognizer (it needs no model), voice detection on, 16 kHz audio.
    pub fn defaults(threads: u32) -> (s: Self)
        ensures
            s.recognizer == RecognizerKind::Mock,
            s.model_path is None,
            s.language is None,
            s.threads == threads,
            s.vad_enabled,
            s.speech_sample_rate == 16_000,
    {
        Self {
            recognizer: RecognizerKind::Mock,
            model_path: None,
            language: None,
            threads,
            vad_enabled: true,
            speech_sample_rate: 16_000,
        }
    }
}

/// Font family the projector draws with when a setting does not name one.
pub fn default_font_family() -> (s: String)
    ensures
        s@ == "Creato Display"@,
{
    let v = to_chars("Creato Display");
    from_chars(&v)
}

/// Background colour the projector falls back to when none is set.
pub fn default_background() -> (s: String)
    ensures
        s@ == "#000000"@,
{
    let v = to_chars("#000000");
    from_chars(&v)
}

/// Text size (in CSS pixels) the projector falls back to when none is set.
pub fn default_font_size() -> (n: u32)
    ensures
        n == 64,
{
    64
}

/// Which edge of the screen the branding overlay is drawn against.
#[derive(Debug, Clone, Copy, PartialEq, Eq, Structural)]
pub enum BrandingPosition {
    Top,
    Bottom,
    Left,
    Right,
}

pub open spec fn position_name(p: BrandingPosition) -> Seq<char> {
    match p {
        BrandingPosition::Top => "top"@,
        BrandingPosition::Bottom => "bottom"@,
        BrandingPosition::Left => "left"@,
        BrandingPosition::Right => "right"@,
    }
}

impl BrandingPosition {
    /// The CSS class-safe name used by the presentation window.
    pub fn as_str(self) -> (s: &'static str)
        ensures
            s@ == position_name(self),
    {
        match self {
            BrandingPosition::Top => "top",
            BrandingPosition::Bottom => "bottom",
            BrandingPosition::Left => "left",
            BrandingPosition::Right => "right",
        }
    }

}

impl Default for BrandingPosition {
    /// The default edge: the bottom.
    fn default() -> (p: Self)
        ensures
            p == BrandingPosition::Bottom,
    {
        BrandingPosition::Bottom
    }
}

/// Longest branding line Selah will draw. Anything longer is cut in
/// [`BrandingSettings::sanitized`].
pub const MAX_BRANDING_TEXT: usize = 120;

/// The operator's own branding: a line of text and/or a logo image, drawn on
/// every projected item. Both are optional: no text and no logo means "no
/// branding".
#[derive(Debug, Clone, PartialEq)]
pub struct BrandingSettings {
    /// Which edge the overlay hugs.
    pub position: BrandingPosition,
    /// Church name, service title, slogan…
    pub text: Option<String>,
    /// Absolute path to a logo image the operator chose.
    pub logo: Option<String>,
    /// How much smaller than the projected text the overlay is, as a
    /// percentage.
    pub size_percent: u32,
}

/// The characters of an optional string.
pub open spec fn opt_chars(s: Option<String>) -> Option<Seq<char>> {
    match s {
        Some(v) => Some(v@),
        None => None,
    }
}

/// The mathematical content of [`BrandingSettings`].
pub struct BrandingView {
    pub position: BrandingPosition,
    pub text: Option<Seq<char>>,
    pub logo: Option<Seq<char>>,
    pub size_percent: u32,
}

impl View for BrandingSettings {
    type V = BrandingView;

    open spec fn view(&self) -> BrandingView {
        BrandingView {
            position: self.position,
            text: opt_chars(self.text),
            logo: opt_chars(self.logo),
            size_percent: self.size_percent,
        }
    }
}

/// Default overlay size, as a percentage of the projected text.
pub fn default_branding_size_percent() -> (n: u32)
    ensures
        n == 30,
{
    30
}

/// The branding line as it is drawn: whitespace collapsed, cut to at most
/// [`MAX_BRANDING_TEXT`] characters, trimmed, and nothing at all when blank.
pub open spec fn clean_branding_text(text: Option<Seq<char>>) -> Option<Seq<char>> {
    match text {
        Some(t) => {
            let c = collapse_ws(t);
            let u = trim(
                if c.len() > 120 {
                    c.take(120)
                } else {
                    c
                },
            );
            if u.len() == 0 {
                None
            } else {
                Some(u)
            }
        },
        None => None,
    }
}

/// The logo as it is kept: trimmed, and only when that path is absolute
/// (`trimmed_is_absolute` says whether it is).
pub open spec fn clean_logo(logo: Option<Seq<char>>, trimmed_is_absolute: bool) -> Option<Seq<char>> {
    match logo {
        Some(l) => if trimmed_is_absolute {
            Some(trim(l))
        } else {
            None
        },
        None => None,
    }
}

/// Sanitized branding and whether anything changed.
pub open spec fn spec_branding_sanitized(b: BrandingView, logo_is_absolute: bool) -> (BrandingView, bool) {
    let text = clean_branding_text(b.text);
    let logo = clean_logo(b.logo, logo_is_absolute);
    let size_ok = 10 <= b.size_percent <= 60;
    let fixed = BrandingView {
        position: b.position,
        text,
        logo,
        size_percent: if size_ok {
            b.size_percent
        } else {
            30
        },
    };
    (fixed, text != b.text || logo != b.logo || !size_ok)
}

/// A path no platform reads as absolute: empty, or neither starting with
/// `/` or `\\` nor holding a `:` (which could make a Windows drive prefix).
pub open spec fn relative_everywhere(p: Seq<char>) -> bool {
    p.len() == 0 || (p[0] != '/' && p[0] != '\\' && !p.contains(':'))
}

/// A logo path that is relative on every platform is dropped.
pub open spec fn drops_relative_logo(before: BrandingView, after: BrandingView) -> bool {
    before.logo matches Some(l) && relative_everywhere(trim(l)) ==> after.logo is None
}

/// Whether `path` is absolute (`std::path::Path::is_absolute`). What makes a
/// path absolute depends on the platform, so nothing is stated of the result.
#[verifier::external_body]
fn path_is_absolute(path: &String) -> (r: bool)
    ensures
        relative_everywhere(path@) ==> !r,
{
    std::path::Path::new(path.as_str()).is_absolute()
}

fn opt_string_eq(a: &Option<String>, b: &Option<String>) -> (r: bool)
    ensures
        r == (opt_chars(*a) == opt_chars(*b)),
{
    match (a, b) {
        (Some(x), Some(y)) => {
            let xv = to_chars(x.as_str());
            let yv = to_chars(y.as_str());
            crate::text::chars_eq(&xv, &yv)
        },
        (None, None) => true,
        _ => false,
    }
}

fn clone_opt_string(a: &Option<String>) -> (r: Option<String>)
    ensures
        r == *a,
{
    match a {
        Some(x) => Some(x.clone()),
        None => None,
    }
}

impl Default for BrandingSettings {
    /// No text, no logo, at the bottom, at the default size.
    fn default() -> (b: Self)
        ensures
            b@ == (BrandingView {
                position: BrandingPosition::Bottom,
                text: None,
                logo: None,
                size_percent: 30,
            }),
    {
        Self {
            position: BrandingPosition::Bottom,
            text: None,
            logo: None,
            size_percent: default_branding_size_percent(),
        }
    }
}

impl BrandingSettings {
    /// Largest overlay size allowed, as a percentage of the projected text.
    pub const MAX_SIZE_PERCENT: u32 = 60;

    /// Smallest overlay size allowed.
    pub const MIN_SIZE_PERCENT: u32 = 10;


    /// Trims, de-duplicates whitespace and repairs values that would render
    /// badly; reports whether anything changed.
    ///
    /// Whether the logo path is absolute is decided by the platform, so the
    /// contract holds for the answer it gave.
    pub fn sanitized(&self) -> (r: (Self, bool))
        ensures
            exists|abs: bool| (r.0@, r.1) == spec_branding_sanitized(self@, abs),
            r.1 <==> r.0@ != self@,
            drops_relative_logo(self@, r.0@),
    {
        let text: Option<String> = match &self.text {
            Some(t) => {
                let chars = to_chars(t.as_str());
                let collapsed = collapse_whitespace(&chars);
                let cut = take_chars(&collapsed, MAX_BRANDING_TEXT);
                let tidy = trim_chars(&cut);
                if tidy.len() == 0 {
                    None
                } else {
                    Some(from_chars(&tidy))
                }
            },
            None => None,
        };
        let mut changed = false;
        if !opt_string_eq(&text, &self.text) {
            changed = true;
        }
        let mut abs = false;
        let logo: Option<String> = match &self.logo {
            Some(l) => {
                let chars = to_chars(l.as_str());
                let t = trim_chars(&chars);
                let trimmed = from_chars(&t);
                abs = path_is_absolute(&trimmed);
                if abs {
                    Some(trimmed)
                } else {
                    None
                }
            },
            None => None,
        };
        if !opt_string_eq(&logo, &self.logo) {
            changed = true;
        }
        let size_ok = Self::MIN_SIZE_PERCENT <= self.size_percent && self.size_percent
            <= Self::MAX_SIZE_PERCENT;
        let size_percent = if size_ok {
            self.size_percent
        } else {
            changed = true;
            default_branding_size_percent()
        };
        let fixed = Self { position: self.position, text, logo, size_percent };
        assert((fixed@, changed) == spec_branding_sanitized(self@, abs));
        (fixed, changed)
    }

    /// Whether there is anything to draw at all.
    pub fn is_empty(&self) -> (b: bool)
        ensures
            b == (self.text is None && self.logo is None),
    {
        self.text.is_none() && self.logo.is_none()
    }
}

#[derive(Debug, Clone, PartialEq)]
pub struct PresentationSettings {
    pub display_index: Option<usize>,
    pub fullscreen: bool,
    pub background: String,
    pub font_size: u32,
    /// Family used for projected text.
    pub font_family: String,
    pub follow_live: bool,
    /// The operator's own logo and line of text, drawn on every projected item.
    pub branding: BrandingSettings,
}

/// The mathematical content of [`PresentationSettings`].
pub struct PresentationView {
    pub display_index: Option<usize>,
    pub fullscreen: bool,
    pub background: Seq<char>,
    pub font_size: u32,
    pub font_family: Seq<char>,
    pub follow_live: bool,
    pub branding: BrandingView,
}

impl View for PresentationSettings {
    type V = PresentationView;

    open spec fn view(&self) -> PresentationView {
        PresentationView {
            display_index: self.display_index,
            fullscreen: self.fullscreen,
            background: self.background@,
            font_size: self.font_size,
            font_family: self.font_family@,
            follow_live: self.follow_live,
            branding: self.branding@,
        }
    }
}

/// Smallest projector font size considered readable (theatre/back-of-room).
pub const MIN_FONT_SIZE: u32 = 16;

/// Largest projector font size; above this a single word fills the screen.
pub const MAX_FONT_SIZE: u32 = 200;

/// Whether `s` is a `#RRGGBB` colour literal.
pub open spec fn spec_is_hex_color(s: Seq<char>) -> bool {
    &&& s.len() == 7
    &&& s[0] == '#'
    &&& forall|i: int| 1 <= i < 7 ==> is_hex_digit(#[trigger] s[i])
}

/// Whether `value` is a `#RRGGBB` colour literal.
pub fn is_valid_hex_color(value: &str) -> (b: bool)
    ensures
        b == spec_is_hex_color(value@),
{
    let v = to_chars(value);
    if v.len() != 7 || v[0] != '#' {
        return false;
    }
    let mut i: usize = 1;
    while i < 7
        invariant
            v@ == value@,
            v@.len() == 7,
            1 <= i <= 7,
            forall|k: int| 1 <= k < i ==> is_hex_digit(#[trigger] v@[k]),
        decreases 7 - i,
    {
        let c = v[i];
        if !(('0' <= c && c <= '9') || ('a' <= c && c <= 'f') || ('A' <= c && c <= 'F')) {
            assert(!is_hex_digit(v@[i as int]));
            return false;
        }
        i = i + 1;
    }
    true
}

/// The projector settings with unreadable values repaired, and whether
/// anything changed.
pub open spec fn spec_presentation_sanitized(s: PresentationView, logo_is_absolute: bool) -> (
    PresentationView,
    bool,
) {
    let bg_ok = spec_is_hex_color(s.background);
    let size_ok = 16 <= s.font_size <= 200;
    let family_ok = trim(s.font_family).len() > 0;
    let (branding, branding_changed) = spec_branding_sanitized(s.branding, logo_is_absolute);
    let fixed = PresentationView {
        background: if bg_ok {
            s.background
        } else {
            "#000000"@
        },
        font_size: if size_ok {
            s.font_size
        } else {
            64
        },
        font_family: if family_ok {
            s.font_family
        } else {
            "Creato Display"@
        },
        branding,
        ..s
    };
    (fixed, !bg_ok || !size_ok || !family_ok || branding_changed)
}

/// Projector settings that cannot put the projector into an unreadable
/// state: a `#RRGGBB` background, a readable text size, a named typeface, an
/// overlay of sensible size, a branding line of one short line at most, and
/// a logo path with no surrounding whitespace.
pub open spec fn is_readable(s: PresentationView) -> bool {
    &&& spec_is_hex_color(s.background)
    &&& 16 <= s.font_size <= 200
    &&& trim(s.font_family).len() > 0
    &&& 10 <= s.branding.size_percent <= 60
    &&& s.branding.text matches Some(t) ==> 0 < t.len() <= 120
    &&& s.branding.logo matches Some(l) ==> trim(l) == l
}

/// Whatever was stored, sanitized projector settings are readable.
pub proof fn lemma_sanitized_is_readable(s: PresentationView, logo_is_absolute: bool)
    ensures
        is_readable(spec_presentation_sanitized(s, logo_is_absolute).0),
{
    reveal_strlit("#000000");
    reveal_strlit("Creato Display");
    let f = spec_presentation_sanitized(s, logo_is_absolute).0;
    if !spec_is_hex_color(s.background) {
        assert(f.background == "#000000"@);
        assert forall|i: int| 1 <= i < 7 implies is_hex_digit(#[trigger] f.background[i]) by {}
    }
    if trim(s.font_family).len() == 0 {
        let d = "Creato Display"@;
        assert(!is_ws(d[0]) && !is_ws(d[13]));
        assert(trim_start(d) == d);
        assert(trim_end(d) == d);
    }
    if let Some(l) = s.branding.logo {
        lemma_trim_idempotent(l);
    }
    if let Some(t) = s.branding.text {
        let c = collapse_ws(t);
        lemma_trim_len(if c.len() > 120 {
            c.take(120)
        } else {
            c
        });
    }
}

/// Readable settings whose branding line is already tidy (single spaces, no
/// surrounding whitespace) and whose logo path the platform calls absolute
/// are left untouched.
pub proof fn lemma_readable_is_untouched(s: PresentationView, logo_is_absolute: bool)
    requires
        is_readable(s),
        s.branding.text matches Some(t) ==> collapse_ws(t) == t && trim(t) == t,
        s.branding.logo is Some ==> logo_is_absolute,
    ensures
        spec_presentation_sanitized(s, logo_is_absolute) == (s, false),
{
    assert(spec_presentation_sanitized(s, logo_is_absolute).0 =~= s);
}

/// A branding line that has been cleaned is already tidy: collapsing or
/// trimming it again changes nothing.
proof fn lemma_clean_text_settled(text: Option<Seq<char>>)
    ensures
        clean_branding_text(text) matches Some(u) ==> collapse_ws(u) == u && trim(u) == u && u.len() <= 120,
{
    if let Some(t) = text {
        let c = collapse_ws(t);
        lemma_collapse_ws_shape(t);
        let n: int = if c.len() > 120 { 120 } else { c.len() as int };
        assert(c.take(c.len() as int) =~= c);
        let cut = if c.len() > 120 { c.take(120) } else { c };
        assert(cut == c.take(n));
        lemma_collapsed_cut(c, n);
        lemma_collapse_ws_fixed(trim(cut));
        lemma_trim_idempotent(cut);
        lemma_trim_len(cut);
    }
}

/// Sanitizing branding a second time changes nothing, as long as the logo
/// path gets the same answer from the absolute-path check both times.
pub proof fn lemma_branding_sanitize_settles(b: BrandingView, logo_is_absolute: bool)
    ensures
        spec_branding_sanitized(spec_branding_sanitized(b, logo_is_absolute).0, logo_is_absolute) == (
            spec_branding_sanitized(b, logo_is_absolute).0,
            false,
        ),
{
    let f = spec_branding_sanitized(b, logo_is_absolute).0;
    lemma_clean_text_settled(b.text);
    if let Some(l) = b.logo {
        lemma_trim_idempotent(l);
    }
    if let Some(u) = f.text {
        let c = collapse_ws(u);
        assert(c == u);
        assert(clean_branding_text(f.text) == Some(u));
    }
    assert(spec_branding_sanitized(f, logo_is_absolute).0 =~= f);
}

/// Sanitizing projector settings a second time changes nothing, as long as
/// the logo path gets the same answer from the absolute-path check both times.
pub proof fn lemma_sanitize_settles(s: PresentationView, logo_is_absolute: bool)
    ensures
        spec_presentation_sanitized(spec_presentation_sanitized(s, logo_is_absolute).0, logo_is_absolute) == (
            spec_presentation_sanitized(s, logo_is_absolute).0,
            false,
        ),
{
    let f = spec_presentation_sanitized(s, logo_is_absolute).0;
    lemma_sanitized_is_readable(s, logo_is_absolute);
    lemma_clean_text_settled(s.branding.text);
    lemma_readable_is_untouched(f, logo_is_absolute);
}

/// The default projector settings are readable.
pub proof fn lemma_defaults_are_readable()
    ensures
        is_readable(default_presentation_view()),
{
    reveal_strlit("#000000");
    reveal_strlit("Creato Display");
    let d = default_presentation_view();
    assert forall|i: int| 1 <= i < 7 implies is_hex_digit(#[trigger] d.background[i]) by {}
    let f = "Creato Display"@;
    assert(!is_ws(f[0]) && !is_ws(f[13]));
    assert(trim_start(f) == f);
    assert(trim_end(f) == f);
}

/// The default projector settings.
pub open spec fn default_presentation_view() -> PresentationView {
    PresentationView {
        display_index: None,
        fullscreen: true,
        background: "#000000"@,
        font_size: 64,
        font_family: "Creato Display"@,
        follow_live: true,
        branding: BrandingView {
            position: BrandingPosition::Bottom,
            text: None,
            logo: None,
            size_percent: 30,
        },
    }
}

impl Default for PresentationSettings {
    /// The defaults: full screen on the default display, black background,
    /// 64 px text in the default family, following the live item, no branding.
    fn default() -> (s: Self)
        ensures
            s@ == default_presentation_view(),
    {
        Self {
            display_index: None,
            fullscreen: true,
            background: default_background(),
            font_size: default_font_size(),
            font_family: default_font_family(),
            follow_live: true,
            branding: BrandingSettings::default(),
        }
    }
}

impl PresentationSettings {

    /// Repairs values that would break the projector window.
    ///
    /// A hand-edited or partially written document can contain a malformed
    /// background colour (for example `#06666`) or a font size small enough to
    /// be unreadable from the back of a room. Those fields are put back to
    /// their defaults, and the result reports whether anything was changed.
    pub fn sanitized(&self) -> (r: (Self, bool))
        ensures
            exists|abs: bool| (r.0@, r.1) == spec_presentation_sanitized(self@, abs),
            r.1 <==> r.0@ != self@,
            drops_relative_logo(self@.branding, r.0@.branding),
    {
        let mut changed = false;
        let background = if is_valid_hex_color(self.background.as_str()) {
            self.background.clone()
        } else {
            changed = true;
            default_background()
        };
        let font_size = if MIN_FONT_SIZE <= self.font_size && self.font_size <= MAX_FONT_SIZE {
            self.font_size
        } else {
            changed = true;
            default_font_size()
        };
        let fam = to_chars(self.font_family.as_str());
        let fam_trimmed = trim_chars(&fam);
        let font_family = if fam_trimmed.len() > 0 {
            self.font_family.clone()
        } else {
            changed = true;
            default_font_family()
        };
        let (branding, branding_changed) = self.branding.sanitized();
        if branding_changed {
            changed = true;
        }
        let fixed = Self {
            display_index: self.display_index,
            fullscreen: self.fullscreen,
            background,
            font_size,
            font_family,
            follow_live: self.follow_live,
            branding,
        };
        proof {
            let abs = choose|abs: bool|
                (branding@, branding_changed) == spec_branding_sanitized(self.branding@, abs);
            assert((fixed@, changed) == spec_presentation_sanitized(self@, abs));
            reveal_strlit("#000000");
            reveal_strlit("Creato Display");
            let black = "#000000"@;
            assert(spec_is_hex_color(black));
            let family = "Creato Display"@;
            assert(trim_start(family) == family);
            assert(trim_end(family) == family);
            assert(trim(family).len() > 0);
        }
        (fixed, changed)
    }
}

/// Where the media library reads files from.
#[derive(Debug, Clone, PartialEq)]
pub struct MediaSettings {
    /// Folder chosen by the operator. `None` until they pick one.
    pub directory: Option<String>,
    /// Whether sub-folders are read as well.
    pub recursive: bool,
}

impl Default for MediaSettings {
    /// No folder chosen yet, sub-folders not read.
    fn default() -> (m: Self)
        ensures
            m.directory is None,
            !m.recursive,
    {
        Self { directory: None, recursive: false }
    }
}

#[derive(Debug, Clone, PartialEq)]
pub struct AppSettings {
    pub general: GeneralSettings,
    pub audio: AudioSettings,
    pub speech: SpeechSettings,
    pub presentation: PresentationSettings,
    /// Where the media library reads files from (chosen at runtime).
    pub media: MediaSettings,
}

impl AppSettings {
    /// The defaults on a machine that offers `threads` worker threads.
    pub fn defaults(threads: u32) -> (s: Self)
        ensures
            s.general.app_name@ == "Selah"@,
            s.general.default_translation_id is None,
            s.general.theme@ == "dark"@,
            s.audio.input_device_id is None,
            s.audio.sample_rate == 0,
            s.speech.recognizer == RecognizerKind::Mock,
            s.speech.model_path is None,
            s.speech.language is None,
            s.speech.threads == threads,
            s.speech.vad_enabled,
            s.speech.speech_sample_rate == 16_000,
            s.presentation@ == default_presentation_view(),
            s.media.directory is None,
            !s.media.recursive,
    {
        let name = to_chars("Selah");
        let theme = to_chars("dark");
        let presentation = PresentationSettings::default();
        Self {
            general: GeneralSettings {
                app_name: from_chars(&name),
                default_translation_id: None,
                theme: from_chars(&theme),
            },
            audio: AudioSettings { input_device_id: None, sample_rate: 0 },
            speech: SpeechSettings::defaults(threads),
            presentation,
            media: MediaSettings::default(),
        }
    }
}

/// Storage key for the settings document.
pub const SETTINGS_KEY: &'static str = "app_settings";

/// Storage key marking that the first-run setup has been completed.
pub const SETUP_COMPLETE_KEY: &'static str = "setup_complete";

} // verus!
