//! Presentation domain types.
//!
//! These are the generic content model for the presentation engine. The
//! engine is not Bible-specific: any [`ContentType`] with a [`ContentPayload`]
//! can be pushed onto the projector.

use vstd::prelude::*;

use crate::error::AppError;
use crate::media::library::plain_file_name;

use crate::text::{
    append_chars, append_str, chars_eq_str, from_chars, push_decimal, slice_chars, take_chars,
    to_chars, trim, trim_chars, decimal,
};

verus! {

/// The kind of content a presentation item can carry.
#[derive(Debug, Clone, Copy, PartialEq, Eq, Structural)]
pub enum ContentType {
    Scripture,
    Lyrics,
    Text,
    Image,
    Video,
    Announcement,
    Slide,
    /// A song from the library, presented one section at a time.
    Song,
}

/// The stored name of each content type.
pub open spec fn content_item_type(t: ContentType) -> Seq<char> {
    match t {
        ContentType::Scripture => "scripture"@,
        ContentType::Lyrics => "lyrics"@,
        ContentType::Text => "text"@,
        ContentType::Image => "image"@,
        ContentType::Video => "video"@,
        ContentType::Announcement => "announcement"@,
        ContentType::Slide => "slide"@,
        ContentType::Song => "song"@,
    }
}

/// The content type whose stored name is exactly `s`.
pub open spec fn spec_parse_content_type(s: Seq<char>) -> Option<ContentType> {
    if s == "scripture"@ {
        Some(ContentType::Scripture)
    } else if s == "lyrics"@ {
        Some(ContentType::Lyrics)
    } else if s == "text"@ {
        Some(ContentType::Text)
    } else if s == "image"@ {
        Some(ContentType::Image)
    } else if s == "video"@ {
        Some(ContentType::Video)
    } else if s == "announcement"@ {
        Some(ContentType::Announcement)
    } else if s == "slide"@ {
        Some(ContentType::Slide)
    } else if s == "song"@ {
        Some(ContentType::Song)
    } else {
        None
    }
}

impl ContentType {
    pub fn as_str(&self) -> (s: &'static str)
        ensures
            s@ == content_item_type(*self),
    {
        match self {
            ContentType::Scripture => "scripture",
            ContentType::Lyrics => "lyrics",
            ContentType::Text => "text",
            ContentType::Image => "image",
            ContentType::Video => "video",
            ContentType::Announcement => "announcement",
            ContentType::Slide => "slide",
            ContentType::Song => "song",
        }
    }

    pub fn parse(s: &str) -> (r: Option<Self>)
        ensures
            r == spec_parse_content_type(s@),
    {
        let v = to_chars(s);
        if chars_eq_str(&v, "scripture") {
            Some(ContentType::Scripture)
        } else if chars_eq_str(&v, "lyrics") {
            Some(ContentType::Lyrics)
        } else if chars_eq_str(&v, "text") {
            Some(ContentType::Text)
        } else if chars_eq_str(&v, "image") {
            Some(ContentType::Image)
        } else if chars_eq_str(&v, "video") {
            Some(ContentType::Video)
        } else if chars_eq_str(&v, "announcement") {
            Some(ContentType::Announcement)
        } else if chars_eq_str(&v, "slide") {
            Some(ContentType::Slide)
        } else if chars_eq_str(&v, "song") {
            Some(ContentType::Song)
        } else {
            None
        }
    }
}

/// The payload of a presentation item.
#[derive(Debug, Clone, PartialEq)]
pub enum ContentPayload {
    /// A resolved passage, ready for display.
    Scripture {
        reference: String,
        translation: String,
        text: String,
        /// Operator-supplied heading shown above the reference.
        heading: Option<String>,
        /// Exact heading size in CSS pixels.
        heading_size: Option<u32>,
        /// Exact verse size in CSS pixels.
        text_size: Option<u32>,
    },
    /// Plain text (announcements, custom text, notes).
    Text { heading: Option<String>, text: String },
    /// Local media file (image or video) referenced by filesystem path.
    Media {
        path: String,
        /// `image`, `video` or `audio`; absent for files imported by an earlier
        /// build.
        media_kind: Option<String>,
        /// Optional caption shown over the media.
        heading: Option<String>,
    },
    /// One section of a song (verse, chorus, bridge...).
    Song {
        /// Song title, drawn as the heading.
        title: String,
        /// Section label (`Verse 1`, `Chorus`).
        label: Option<String>,
        text: String,
        /// 1-based position of this section within the song.
        index: u32,
        /// Total number of sections in the song.
        total: u32,
    },
}

/// Default for counters that cannot sensibly be zero.
pub fn one() -> (r: u32)
    ensures
        r == 1,
{
    1
}

/// The trimmed text of an optional string, when it has anything other than
/// whitespace.
pub open spec fn spec_non_empty(value: Option<String>) -> Option<Seq<char>> {
    match value {
        Some(v) => if trim(v@).len() > 0 {
            Some(trim(v@))
        } else {
            None
        },
        None => None,
    }
}

/// The trimmed value when it is present and contains something other than
/// whitespace.
pub fn non_empty(value: &Option<String>) -> (r: Option<String>)
    ensures
        match (r, spec_non_empty(*value)) {
            (Some(s), Some(t)) => s@ == t,
            (None, None) => true,
            _ => false,
        },
{
    match value {
        Some(v) => {
            let chars = to_chars(v.as_str());
            let t = trim_chars(&chars);
            if t.len() > 0 {
                Some(from_chars(&t))
            } else {
                None
            }
        },
        None => None,
    }
}

/// An item the presentation engine can display.
#[derive(Debug, Clone, PartialEq)]
pub struct PresentationItem {
    pub id: String,
    pub content_type: ContentType,
    pub title: String,
    pub payload: ContentPayload,
}

/// The state of the live presentation engine (what is on the projector).
#[derive(Debug, Clone, PartialEq)]
pub struct PresentationState {
    pub current: Option<PresentationItem>,
    pub queue: Vec<PresentationItem>,
    pub history: Vec<PresentationItem>,
}

/// A saved presentation (rows in the `presentations` table).
#[derive(Debug, Clone, PartialEq)]
pub struct Presentation {
    pub id: String,
    pub name: String,
    pub created_at: String,
    pub updated_at: String,
    /// Lightweight list of item records (type name + JSON payload).
    pub items: Vec<PresentationItemRecord>,
}

/// Row shape of a persisted presentation item.
#[derive(Debug, Clone, PartialEq)]
pub struct PresentationItemRecord {
    pub id: String,
    pub presentation_id: String,
    pub item_type: String,
    pub position: i64,
    pub payload: String,
}

/// Whether an id has the shape of a hyphenated UUID string.
pub open spec fn is_item_id(id: Seq<char>) -> bool {
    &&& id.len() == 36
    &&& id[8] == '-'
    &&& id[13] == '-'
    &&& id[18] == '-'
    &&& id[23] == '-'
}

/// A fresh random identifier: `uuid::Uuid::new_v4()` in its hyphenated
/// string form. Its value is random, so only its shape is stated.
#[verifier::external_body]
fn new_item_id() -> (id: String)
    ensures
        is_item_id(id@),
{
    uuid::Uuid::new_v4().to_string()
}

/// `item` is section `index` of `total` of the song titled `song_title`,
/// with words `text` and label `label`: a blank label is dropped, and the
/// item's title names the label, or the position when there is none.
pub open spec fn is_song_section_item(
    item: PresentationItem,
    song_title: Seq<char>,
    label: Option<String>,
    text: String,
    index: u32,
    total: u32,
) -> bool {
    let kept = match label {
        Some(x) => if trim(x@).len() > 0 {
            Some(x)
        } else {
            None
        },
        None => None,
    };
    &&& is_item_id(item.id@)
    &&& item.content_type == ContentType::Song
    &&& item.title@ == song_title + " \u{2014} "@ + match kept {
        Some(l) => l@,
        None => decimal(index as nat) + "/"@ + decimal(total as nat),
    }
    &&& item.payload == (ContentPayload::Song { title: item.payload->Song_title, label: kept, text, index, total })
    &&& item.payload->Song_title@ == song_title
}

impl PresentationItem {
    pub fn scripture(reference: &str, translation: &str, text: String) -> (item: Self)
        ensures
            is_item_id(item.id@),
            item.content_type == ContentType::Scripture,
            item.title@ == translation@ + " "@ + reference@,
            item.payload matches ContentPayload::Scripture {
                reference: rf,
                translation: tr,
                text: tx,
                heading: None,
                heading_size: None,
                text_size: None,
            } && rf@ == reference@ && tr@ == translation@ && tx == text,
    {
        Self::scripture_sized(reference, translation, text, None, None)
    }

    /// A passage whose heading and verse sizes were chosen on the Bible screen.
    ///
    /// `None` for either size means "use the saved projector setting".
    pub fn scripture_sized(
        reference: &str,
        translation: &str,
        text: String,
        heading_size: Option<u32>,
        text_size: Option<u32>,
    ) -> (item: Self)
        ensures
            is_item_id(item.id@),
            item.content_type == ContentType::Scripture,
            item.title@ == translation@ + " "@ + reference@,
            item.payload matches ContentPayload::Scripture {
                reference: rf,
                translation: tr,
                text: tx,
                heading: None,
                heading_size: hs,
                text_size: ts,
            } && rf@ == reference@ && tr@ == translation@ && tx == text && hs == heading_size
                && ts == text_size,
    {
        let mut title = to_chars(translation);
        append_str(&mut title, " ");
        append_str(&mut title, reference);
        let r = to_chars(reference);
        let t = to_chars(translation);
        Self {
            id: new_item_id(),
            content_type: ContentType::Scripture,
            title: from_chars(&title),
            payload: ContentPayload::Scripture {
                reference: from_chars(&r),
                translation: from_chars(&t),
                text,
                heading: None,
                heading_size,
                text_size,
            },
        }
    }

    /// Plain text with a heading; a blank heading is not drawn.
    pub fn plain_text(title: String, text: String) -> (item: Self)
        ensures
            is_item_id(item.id@),
            item.content_type == ContentType::Text,
            item.title == title,
            item.payload matches ContentPayload::Text { heading: h, text: tx } && tx == text && (
            if trim(title@).len() > 0 {
                h == Some(title)
            } else {
                h is None
            }),
    {
        let chars = to_chars(title.as_str());
        let t = trim_chars(&chars);
        let heading = if t.len() > 0 {
            Some(title.clone())
        } else {
            None
        };
        Self {
            id: new_item_id(),
            content_type: ContentType::Text,
            title,
            payload: ContentPayload::Text { heading, text },
        }
    }

    /// A media file ready for the projector.
    ///
    /// `heading` is only set when a caption was actually supplied: a picture or
    /// video should take over the screen without the file name printed over it.
    pub fn media(title: String, path: String, kind: Option<String>, heading: Option<String>) -> (item:
        Self)
        ensures
            is_item_id(item.id@),
            item.content_type == (if kind matches Some(k) && k@ == "video"@ {
                ContentType::Video
            } else {
                ContentType::Image
            }),
            item.title == title,
            item.payload matches ContentPayload::Media { path: p, media_kind: mk, heading: h } && p
                == path && mk == kind && match (h, spec_non_empty(heading)) {
                (Some(s), Some(t)) => s@ == t,
                (None, None) => true,
                _ => false,
            },
    {
        let content_type = match &kind {
            Some(k) => {
                let kc = to_chars(k.as_str());
                if chars_eq_str(&kc, "video") {
                    ContentType::Video
                } else {
                    ContentType::Image
                }
            },
            None => ContentType::Image,
        };
        let caption = non_empty(&heading);
        Self {
            id: new_item_id(),
            content_type,
            title,
            payload: ContentPayload::Media { path, media_kind: kind, heading: caption },
        }
    }

    /// One section of a song, ready for the projector. A blank label is
    /// dropped; the title names the label, or the position when there is none.
    pub fn song_section(
        song_title: &str,
        label: Option<String>,
        text: String,
        index: u32,
        total: u32,
    ) -> (item: Self)
        ensures
            is_item_id(item.id@),
            item.content_type == ContentType::Song,
            item.title@ == song_title@ + " \u{2014} "@ + match label {
                Some(l) => if trim(l@).len() > 0 {
                    l@
                } else {
                    decimal(index as nat) + "/"@ + decimal(total as nat)
                },
                None => decimal(index as nat) + "/"@ + decimal(total as nat),
            },
            item.payload matches ContentPayload::Song {
                title: t,
                label: l,
                text: tx,
                index: i,
                total: n,
            } && t@ == song_title@ && tx == text && i == index && n == total && l == (
            match label {
                Some(x) => if trim(x@).len() > 0 {
                    Some(x)
                } else {
                    None
                },
                None => None,
            }),
            is_song_section_item(item, song_title@, label, text, index, total),
    {
        let kept = match label {
            Some(l) => {
                let lc = to_chars(l.as_str());
                let t = trim_chars(&lc);
                if t.len() > 0 {
                    Some(l)
                } else {
                    None
                }
            },
            None => None,
        };
        let mut title = to_chars(song_title);
        append_str(&mut title, " \u{2014} ");
        match &kept {
            Some(l) => append_str(&mut title, l.as_str()),
            None => {
                push_decimal(&mut title, index as u64);
                append_str(&mut title, "/");
                push_decimal(&mut title, total as u64);
            },
        }
        let st = to_chars(song_title);
        Self {
            id: new_item_id(),
            content_type: ContentType::Song,
            title: from_chars(&title),
            payload: ContentPayload::Song { title: from_chars(&st), label: kept, text, index, total },
        }
    }
}

// ---------------------------------------------------------------------------
// Titles of stored items
// ---------------------------------------------------------------------------

/// The characters of an optional string.
pub open spec fn opt_view(s: Option<String>) -> Option<Seq<char>> {
    match s {
        Some(v) => Some(v@),
        None => None,
    }
}

/// The first line of `s` (lines end at `\n`) that is not blank, trimmed.
pub open spec fn first_nonblank_line(s: Seq<char>) -> Option<Seq<char>>
    decreases s.len(),
{
    let i = line_end(s, 0);
    let piece = s.take(i);
    if trim(piece).len() > 0 {
        Some(trim(piece))
    } else if 0 <= i < s.len() {
        first_nonblank_line(s.skip(i + 1))
    } else {
        None
    }
}

/// Index of the first `\n` at or after `i`, or the length.
pub open spec fn line_end(s: Seq<char>, i: int) -> int
    decreases s.len() - i,
{
    if i < 0 || i >= s.len() || s[i] == '\n' {
        i
    } else {
        line_end(s, i + 1)
    }
}

proof fn lemma_line_end(s: Seq<char>, i: int)
    requires
        0 <= i <= s.len(),
    ensures
        i <= line_end(s, i) <= s.len(),
        line_end(s, i) < s.len() ==> s[line_end(s, i)] == '\n',
    decreases s.len() - i,
{
    if i < s.len() && s[i] != '\n' {
        lemma_line_end(s, i + 1);
    }
}

/// A short heading for an item, used where only a label is needed.
/// `file_name` is the final component of a media item's path, if it has one.
///
/// An operator-supplied heading always wins.
pub open spec fn spec_item_title(payload: ContentPayload, file_name: Option<Seq<char>>) -> Seq<char> {
    match payload {
        ContentPayload::Scripture { reference, translation, heading, .. } => match spec_non_empty(
            heading,
        ) {
            Some(h) => h,
            None => {
                let trimmed = trim(translation@ + " "@ + reference@);
                if trimmed.len() == 0 {
                    "Bible verse"@
                } else {
                    trimmed
                }
            },
        },
        ContentPayload::Text { heading, text } => match spec_non_empty(heading) {
            Some(h) => h,
            None => match first_nonblank_line(text@) {
                Some(line) => if line.len() > 60 {
                    line.take(60)
                } else {
                    line
                },
                None => "Words"@,
            },
        },
        ContentPayload::Media { heading, .. } => match spec_non_empty(heading) {
            Some(h) => h,
            None => match file_name {
                Some(f) => f,
                None => "Media"@,
            },
        },
        ContentPayload::Song { title, label, .. } => match spec_non_empty(label) {
            Some(l) => title@ + " \u{2014} "@ + l,
            None => title@,
        },
    }
}

fn first_line_title(text: &String) -> (r: Option<Vec<char>>)
    ensures
        match (r, first_nonblank_line(text@)) {
            (Some(v), Some(line)) => v@ == line,
            (None, None) => true,
            _ => false,
        },
{
    let chars = to_chars(text.as_str());
    let ghost s = chars@;
    let mut start: usize = 0;
    assert(s.skip(0) =~= s);
    while start <= chars.len()
        invariant
            s == chars@,
            s == text@,
            start <= chars.len() + 1,
            start <= chars.len() ==> first_nonblank_line(s) == first_nonblank_line(
                s.skip(start as int),
            ),
            start > chars.len() ==> first_nonblank_line(s) is None,
        decreases chars.len() + 1 - start,
    {
        let mut end = start;
        while end < chars.len() && chars[end] != '\n'
            invariant
                s == chars@,
                start <= end <= chars.len(),
                line_end(s.skip(start as int), 0) == line_end(s.skip(start as int), end - start),
            decreases chars.len() - end,
        {
            end = end + 1;
            assert(s.skip(start as int)[end - start - 1] == s[end - 1]);
        }
        proof {
            let rest = s.skip(start as int);
            if end < chars.len() {
                assert(rest[end - start] == '\n');
            }
            lemma_line_end(rest, 0);
            assert(rest.take(end - start) =~= s.subrange(start as int, end as int));
        }
        let piece = slice_chars(&chars, start, end);
        let t = trim_chars(&piece);
        proof {
            let rest = s.skip(start as int);
            let i = line_end(rest, 0);
            assert(i == end - start);
            assert(rest.take(i) == piece@);
            assert(first_nonblank_line(rest) == if trim(piece@).len() > 0 {
                Some(trim(piece@))
            } else if 0 <= i < rest.len() {
                first_nonblank_line(rest.skip(i + 1))
            } else {
                None
            });
        }
        if t.len() > 0 {
            return Some(t);
        }
        if end == chars.len() {
            return None;
        }
        proof {
            let rest = s.skip(start as int);
            assert(rest.skip(end - start + 1) =~= s.skip(end + 1));
        }
        start = end + 1;
    }
    None
}

/// The title of an item given its payload and, for media, the file name of
/// its path.
pub fn title_from(payload: &ContentPayload, file_name: Option<String>) -> (r: String)
    ensures
        r@ == spec_item_title(*payload, opt_view(file_name)),
{
    match payload {
        ContentPayload::Scripture { reference, translation, heading, .. } => {
            if let Some(h) = non_empty(heading) {
                return h;
            }
            let mut combined = to_chars(translation.as_str());
            append_str(&mut combined, " ");
            append_str(&mut combined, reference.as_str());
            let trimmed = trim_chars(&combined);
            if trimmed.len() == 0 {
                let v = to_chars("Bible verse");
                from_chars(&v)
            } else {
                from_chars(&trimmed)
            }
        },
        ContentPayload::Text { heading, text } => {
            if let Some(h) = non_empty(heading) {
                return h;
            }
            match first_line_title(text) {
                Some(line) => {
                    let cut = take_chars(&line, 60);
                    from_chars(&cut)
                },
                None => {
                    let v = to_chars("Words");
                    from_chars(&v)
                },
            }
        },
        ContentPayload::Media { heading, .. } => {
            if let Some(h) = non_empty(heading) {
                return h;
            }
            match file_name {
                Some(f) => f,
                None => {
                    let v = to_chars("Media");
                    from_chars(&v)
                },
            }
        },
        ContentPayload::Song { title, label, .. } => {
            match non_empty(label) {
                Some(l) => {
                    let mut v = to_chars(title.as_str());
                    append_str(&mut v, " \u{2014} ");
                    append_str(&mut v, l.as_str());
                    from_chars(&v)
                },
                None => title.clone(),
            }
        },
    }
}

/// The final component of a path (`std::path::Path::file_name`, lossily
/// converted to a `String`; a `String` path converts exactly). What counts
/// as a separator, and which prefixes a path may start with, depend on the
/// platform, so what is stated holds on every platform: a path of the plain
/// shape of [`plain_file_name`] has that file name. Of any other path
/// nothing is stated.
#[verifier::external_body]
fn path_file_name(path: &String) -> (r: Option<String>)
    ensures
        plain_file_name(path@) matches Some(f) ==> r.is_some() && r.unwrap()@ == f,
{
    std::path::Path::new(path.as_str()).file_name().map(|name| name.to_string_lossy().to_string())
}

/// A short heading for an item, used where only a label is needed.
///
/// An operator-supplied heading always wins: if someone typed a heading for
/// their words, that is what should appear on the projector. A media item
/// without a caption is named after its file.
pub fn item_title(payload: &ContentPayload) -> (r: String)
    ensures
        exists|f: Option<Seq<char>>| r@ == spec_item_title(*payload, f),
        !(payload is Media) ==> r@ == spec_item_title(*payload, None),
        payload matches ContentPayload::Media { path, .. } ==> (plain_file_name(path@) matches Some(
            f,
        ) ==> r@ == spec_item_title(*payload, Some(f))),
{
    let file_name = match payload {
        ContentPayload::Media { path, heading, .. } => {
            if non_empty(heading).is_some() {
                None
            } else {
                path_file_name(path)
            }
        },
        _ => None,
    };
    let ghost f = opt_view(file_name);
    let r = title_from(payload, file_name);
    assert(r@ == spec_item_title(*payload, f));
    r
}

/// The content type used when a stored type name is not recognized.
pub open spec fn payload_content_type(payload: ContentPayload) -> ContentType {
    match payload {
        ContentPayload::Scripture { .. } => ContentType::Scripture,
        ContentPayload::Text { .. } => ContentType::Text,
        ContentPayload::Media { .. } => ContentType::Image,
        ContentPayload::Song { .. } => ContentType::Song,
    }
}

/// The message for a stored payload that could not be read.
pub open spec fn unreadable_item(id: Seq<char>, detail: Seq<char>) -> Seq<char> {
    "saved item "@ + id + " has content Selah cannot read: "@ + detail
}

impl PresentationItemRecord {
    /// Rebuilds a projectable item from a stored row.
    ///
    /// Saved items keep their content as JSON so new content kinds never need
    /// a schema change; `payload` is that JSON as read, or why it could not
    /// be read. An unreadable payload is reported, not ignored. The stored
    /// type name decides the content type when it is a known one; otherwise
    /// the payload's own kind does.
    pub fn to_item(&self, payload: Result<ContentPayload, String>) -> (r: Result<
        PresentationItem,
        AppError,
    >)
        ensures
            payload matches Err(detail) ==> (r matches Err(AppError::InvalidConfiguration(m)) && m@
                == unreadable_item(self.id@, detail@)),
            payload matches Ok(p) ==> (r matches Ok(item) && item.id == self.id && item.content_type
                == match spec_parse_content_type(self.item_type@) {
                Some(t) => t,
                None => payload_content_type(p),
            } && (exists|f: Option<Seq<char>>| item.title@ == spec_item_title(p, f)) && (!(
            p is Media) ==> item.title@ == spec_item_title(p, None)) && (p matches ContentPayload::Media {
                path,
                ..
            } ==> (plain_file_name(path@) matches Some(f) ==> item.title@ == spec_item_title(
                p,
                Some(f),
            ))) && item.payload == p),
    {
        let payload = match payload {
            Ok(p) => p,
            Err(detail) => {
                let mut m = to_chars("saved item ");
                append_str(&mut m, self.id.as_str());
                append_str(&mut m, " has content Selah cannot read: ");
                append_str(&mut m, detail.as_str());
                return Err(AppError::InvalidConfiguration(from_chars(&m)));
            },
        };
        let fallback = match &payload {
            ContentPayload::Scripture { .. } => ContentType::Scripture,
            ContentPayload::Text { .. } => ContentType::Text,
            ContentPayload::Media { .. } => ContentType::Image,
            ContentPayload::Song { .. } => ContentType::Song,
        };
        let content_type = match ContentType::parse(self.item_type.as_str()) {
            Some(t) => t,
            None => fallback,
        };
        let title = item_title(&payload);
        Ok(PresentationItem { id: self.id.clone(), content_type, title, payload })
    }
}

} // verus!
