//! Song commands: saving, and projecting a song section by section.

use vstd::prelude::*;

use crate::error::AppError;
use crate::models::presentation::{is_song_section_item, PresentationItem};
use crate::songs::models::{Song, SongInput};
use crate::text::{append_str, from_chars, to_chars};

verus! {

/// Creates a song, or replaces one when `id` is supplied.
#[derive(Debug, Clone)]
pub struct SaveSongRequest {
    /// Absent when creating, present when replacing an existing song.
    pub id: Option<String>,
    pub song: SongInput,
}

/// Shows a song on the projector, starting at `section`.
#[derive(Debug, Clone)]
pub struct ProjectSongRequest {
    pub song_id: String,
    /// 1-based section to start from. The remaining sections wait in the
    /// queue, so the operator can walk the song with Next/Back.
    pub section: Option<usize>,
}

/// The section a song starts at: the one asked for (1-based, the first when
/// none is asked for), kept within the song.
pub open spec fn start_section(section: Option<usize>, total: int) -> int {
    let asked = match section {
        Some(s) => s as int,
        None => 1,
    };
    if asked < 1 {
        1
    } else if asked > total {
        total
    } else {
        asked
    }
}

/// `item` is section `k` (0-based) of `song` as a projectable item.
pub open spec fn is_section_of(item: PresentationItem, song: Song, k: int) -> bool {
    is_song_section_item(
        item,
        song.title@,
        song.sections@[k].label,
        song.sections@[k].text,
        (k + 1) as u32,
        song.sections@.len() as u32,
    )
}

/// How a song is shown: each section becomes its own item; the starting
/// section goes on the screen and the sections after it wait in the queue.
/// A song without sections is refused.
pub fn song_items(song: &Song, section: Option<usize>) -> (r: Result<
    (PresentationItem, Vec<PresentationItem>),
    AppError,
>)
    requires
        song.sections@.len() <= u32::MAX,
    ensures
        song.sections@.len() == 0 ==> (r matches Err(AppError::Presentation(m)) && m@
            == "this song has no sections yet — add some words first"@),
        song.sections@.len() > 0 ==> (r matches Ok((first, rest)) && {
            let start = start_section(section, song.sections@.len() as int);
            &&& is_section_of(first, *song, start - 1)
            &&& rest@.len() == song.sections@.len() - start
            &&& forall|j: int| 0 <= j < rest@.len() ==> is_section_of(#[trigger] rest@[j], *song, start + j)
        }),
{
    let n = song.sections.len();
    if n == 0 {
        return Err(
            AppError::Presentation("this song has no sections yet — add some words first".to_owned()),
        );
    }
    let total = n as u32;
    let asked = match section {
        Some(s) => s,
        None => 1,
    };
    let start: usize = if asked < 1 {
        1
    } else if asked > n {
        n
    } else {
        asked
    };
    let first_section = &song.sections[start - 1];
    let first = PresentationItem::song_section(
        song.title.as_str(),
        first_section.label.clone(),
        first_section.text.clone(),
        start as u32,
        total,
    );
    let mut rest: Vec<PresentationItem> = Vec::new();
    let mut k: usize = start;
    while k < n
        invariant
            1 <= start <= k <= n,
            n == song.sections@.len(),
            n <= u32::MAX,
            total == n as u32,
            start == start_section(section, n as int),
            rest@.len() == k - start,
            forall|j: int| 0 <= j < rest@.len() ==> is_section_of(#[trigger] rest@[j], *song, start + j),
        decreases n - k,
    {
        let s = &song.sections[k];
        let item = PresentationItem::song_section(
            song.title.as_str(),
            s.label.clone(),
            s.text.clone(),
            (k + 1) as u32,
            total,
        );
        rest.push(item);
        k = k + 1;
    }
    Ok((first, rest))
}

} // verus!
