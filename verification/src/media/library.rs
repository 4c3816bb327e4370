//! Which files the media library accepts, and the rows of the folder browser.

use vstd::prelude::*;

use crate::text::{chars_eq_str, lower_chars, lowercase, to_chars};

verus! {

/// One row in the folder browser.
#[derive(Debug, Clone, PartialEq)]
pub struct DirectoryEntry {
    pub name: String,
    pub path: String,
    pub is_dir: bool,
    /// `image` / `video` / `audio` for files Selah can present, else `None`.
    pub media_kind: Option<String>,
}

/// The contents of one folder, as shown by the media folder picker.
#[derive(Debug, Clone, PartialEq)]
pub struct DirectoryListing {
    pub path: String,
    /// Parent folder, absent when already at the filesystem root.
    pub parent: Option<String>,
    pub entries: Vec<DirectoryEntry>,
}

/// The local media library. Files remain on disk; only their metadata is
/// stored.
pub struct MediaLibrary;

/// A path separator on some platform: `/` everywhere, `\\` on Windows.
pub open spec fn is_separator(c: char) -> bool {
    c == '/' || c == '\\'
}

/// Where the last component of `s` starts: just after its last separator.
pub open spec fn final_start(s: Seq<char>) -> int
    decreases s.len(),
{
    if s.len() == 0 {
        0
    } else if is_separator(s.last()) {
        s.len() as int
    } else {
        final_start(s.drop_last())
    }
}

/// The position of the last `.` in `s`, or -1.
pub open spec fn last_dot(s: Seq<char>) -> int
    decreases s.len(),
{
    if s.len() == 0 {
        -1
    } else if s.last() == '.' {
        s.len() - 1
    } else {
        last_dot(s.drop_last())
    }
}

/// The extension of a path whose reading no platform disagrees on: the
/// path does not start with two separators (a network or device prefix on
/// Windows), its last component holds no `:` (a drive prefix), and that
/// component has a `.` after its first character with text after it. The
/// extension is the text after that last `.`; `None` where the path is not
/// of that plain shape.
pub open spec fn plain_extension(path: Seq<char>) -> Option<Seq<char>> {
    let f = path.subrange(final_start(path), path.len() as int);
    let d = last_dot(f);
    if path.len() >= 2 && is_separator(path[0]) && is_separator(path[1]) {
        None
    } else if f.contains(':') {
        None
    } else if 0 < d && d + 1 < f.len() {
        Some(f.subrange(d + 1, f.len() as int))
    } else {
        None
    }
}

/// The file name of a path whose reading no platform disagrees on: a path
/// with no `\\` and no `:`, not starting with `//`, whose last
/// `/`-separated component is neither empty, `.` nor `..`. The file name is
/// that component; `None` where the path is not of that plain shape.
pub open spec fn plain_file_name(path: Seq<char>) -> Option<Seq<char>> {
    let f = path.subrange(final_start(path), path.len() as int);
    if path.contains('\\') || path.contains(':') {
        None
    } else if path.len() >= 2 && path[0] == '/' && path[1] == '/' {
        None
    } else if f.len() == 0 || f == "."@ || f == ".."@ {
        None
    } else {
        Some(f)
    }
}

/// Calls `std::path::Path::extension` on a path given as text: the part of
/// the file name (the last component) after its last `.`, where the file
/// name has text before that `.`. Which characters separate components, and
/// which prefixes a path may start with, depend on the platform, so what is
/// stated holds on every platform: a path with no `.` has no extension, and
/// a path of the plain shape of [`plain_extension`] has that extension.
/// Of any other path nothing is stated.
#[verifier::external_body]
fn path_extension(path: &str) -> (r: Option<String>)
    ensures
        !path@.contains('.') ==> r == Option::<String>::None,
        plain_extension(path@) matches Some(e) ==> r.is_some() && r.unwrap()@ == e,
{
    std::path::Path::new(path).extension().and_then(|e| e.to_str()).map(|e| e.to_string())
}

/// Extensions of pictures Selah shows.
pub open spec fn image_exts() -> Seq<Seq<char>> {
    seq!["png"@, "jpg"@, "jpeg"@, "gif"@, "webp"@, "bmp"@]
}

/// Extensions of videos Selah plays.
pub open spec fn video_exts() -> Seq<Seq<char>> {
    seq!["mp4"@, "mov"@, "m4v"@, "mkv"@, "webm"@]
}

/// Extensions of audio Selah plays.
pub open spec fn audio_exts() -> Seq<Seq<char>> {
    seq!["mp3"@, "wav"@, "flac"@, "ogg"@, "m4a"@]
}

/// The media kind for a lowercased extension.
pub open spec fn spec_kind_for_extension(ext: Seq<char>) -> Option<Seq<char>> {
    if image_exts().contains(ext) {
        Some("image"@)
    } else if video_exts().contains(ext) {
        Some("video"@)
    } else if audio_exts().contains(ext) {
        Some("audio"@)
    } else {
        None
    }
}

fn one_of(ext: &Vec<char>, names: &[&str]) -> (b: bool)
    ensures
        b == names@.map_values(|n: &str| n@).contains(ext@),
{
    let ghost ns = names@.map_values(|n: &str| n@);
    let mut i: usize = 0;
    while i < names.len()
        invariant
            i <= names@.len(),
            ns == names@.map_values(|n: &str| n@),
            forall|k: int| 0 <= k < i ==> ns[k] != ext@,
        decreases names.len() - i,
    {
        if chars_eq_str(ext, names[i]) {
            assert(ns[i as int] == ext@);
            return true;
        }
        i = i + 1;
    }
    false
}

/// The media kind for a file extension, ignoring its case.
pub fn kind_for_extension(ext: &str) -> (r: Option<&'static str>)
    ensures
        match r {
            Some(k) => spec_kind_for_extension(lowercase(ext@)) == Some(k@),
            None => spec_kind_for_extension(lowercase(ext@)) is None,
        },
{
    let chars = to_chars(ext);
    let e = lower_chars(&chars);
    let images: [&str; 6] = ["png", "jpg", "jpeg", "gif", "webp", "bmp"];
    let videos: [&str; 5] = ["mp4", "mov", "m4v", "mkv", "webm"];
    let audios: [&str; 5] = ["mp3", "wav", "flac", "ogg", "m4a"];
    assert(images@.map_values(|n: &str| n@) =~= image_exts());
    assert(videos@.map_values(|n: &str| n@) =~= video_exts());
    assert(audios@.map_values(|n: &str| n@) =~= audio_exts());
    if one_of(&e, &images) {
        Some("image")
    } else if one_of(&e, &videos) {
        Some("video")
    } else if one_of(&e, &audios) {
        Some("audio")
    } else {
        None
    }
}

/// The media kind for a path, or `None` when Selah cannot present it: the
/// path's extension (as the platform reads it), lowercased, decides; see
/// [`kind_for_extension`].
pub fn kind_for_path(path: &str) -> (r: Option<&'static str>)
    ensures
        r matches Some(k) ==> exists|e: Seq<char>| spec_kind_for_extension(lowercase(e)) == Some(k@),
        !path@.contains('.') ==> (r is None),
        plain_extension(path@) matches Some(e) ==> match r {
            Some(k) => spec_kind_for_extension(lowercase(e)) == Some(k@),
            None => spec_kind_for_extension(lowercase(e)) is None,
        },
{
    match path_extension(path) {
        Some(e) => kind_for_extension(e.as_str()),
        None => None,
    }
}


/// How many folder levels a scan walks below the folder it was given.
pub const MAX_SCAN_DEPTH: usize = 4;

/// Most files a single scan registers, so a scan of a whole disk stays small.
pub const MAX_SCAN_FILES: usize = 2000;

/// A hidden entry (its name starts with `.`), which the browser and the
/// scans leave out.
pub fn is_hidden(name: &str) -> (b: bool)
    ensures
        b == (name@.len() > 0 && name@[0] == '.'),
{
    let chars = to_chars(name);
    chars.len() > 0 && chars[0] == '.'
}

/// The paths a scan registers from those `found`, given those `known`
/// already: each found path in turn, unless it is known or was registered
/// earlier in the same scan.
pub open spec fn registered(found: Seq<Seq<char>>, known: Seq<Seq<char>>) -> Seq<Seq<char>>
    decreases found.len(),
{
    if found.len() == 0 {
        seq![]
    } else {
        let prev = registered(found.drop_last(), known);
        let f = found.last();
        if known.contains(f) || prev.contains(f) {
            prev
        } else {
            prev.push(f)
        }
    }
}

/// The views of a list of strings.
pub open spec fn views(v: Seq<String>) -> Seq<Seq<char>> {
    v.map_values(|s: String| s@)
}

fn contains_string(v: &Vec<String>, s: &String) -> (b: bool)
    ensures
        b == views(v@).contains(s@),
{
    let mut i: usize = 0;
    while i < v.len()
        invariant
            i <= v@.len(),
            forall|k: int| 0 <= k < i ==> v@[k]@ != s@,
        decreases v.len() - i,
    {
        if v[i] == *s {
            assert(views(v@)[i as int] == s@);
            return true;
        }
        i = i + 1;
    }
    proof {
        if views(v@).contains(s@) {
            let k = choose|k: int| 0 <= k < views(v@).len() && views(v@)[k] == s@;
            assert(v@[k]@ == s@);
        }
    }
    false
}

/// The files a folder scan registers: of the first [`MAX_SCAN_FILES`] files
/// found, in the order given, those whose path is not known yet, each once.
pub fn files_to_register(found: &Vec<String>, known: &Vec<String>) -> (r: Vec<String>)
    ensures
        views(r@) == registered(
            views(found@).take(
                if found@.len() < MAX_SCAN_FILES {
                    found@.len() as int
                } else {
                    MAX_SCAN_FILES as int
                },
            ),
            views(known@),
        ),
{
    let n: usize = if found.len() < MAX_SCAN_FILES {
        found.len()
    } else {
        MAX_SCAN_FILES
    };
    let mut r: Vec<String> = Vec::new();
    let mut i: usize = 0;
    while i < n
        invariant
            i <= n,
            n <= found@.len(),
            views(r@) == registered(views(found@).take(i as int), views(known@)),
        decreases n - i,
    {
        let f = &found[i];
        proof {
            let t = views(found@).take(i + 1);
            assert(t.drop_last() =~= views(found@).take(i as int));
            assert(t.last() == f@);
        }
        let skip = contains_string(known, f) || contains_string(&r, f);
        if !skip {
            let ghost before = r@;
            r.push(f.clone());
            proof {
                assert(views(r@) =~= views(before).push(f@));
            }
        }
        i = i + 1;
    }
    r
}


proof fn lemma_registered_covers(found: Seq<Seq<char>>, known: Seq<Seq<char>>)
    ensures
        forall|i: int|
            0 <= i < found.len() ==> known.contains(#[trigger] found[i]) || registered(found, known).contains(
                found[i],
            ),
    decreases found.len(),
{
    if found.len() > 0 {
        let d = found.drop_last();
        lemma_registered_covers(d, known);
        let pd = registered(d, known);
        let p = registered(found, known);
        assert forall|i: int| 0 <= i < found.len() implies known.contains(#[trigger] found[i])
            || p.contains(found[i]) by {
            if i < d.len() {
                assert(d[i] == found[i]);
                if !known.contains(found[i]) {
                    assert(pd.contains(d[i]));
                    let k = choose|k: int| 0 <= k < pd.len() && pd[k] == d[i];
                    if !(known.contains(found.last()) || pd.contains(found.last())) {
                        assert(p[k] == pd[k]);
                    }
                }
            } else if !known.contains(found[i]) && !pd.contains(found[i]) {
                assert(p[pd.len() as int] == found[i]);
            }
        }
    }
}

proof fn lemma_nothing_new(found: Seq<Seq<char>>, known: Seq<Seq<char>>)
    requires
        forall|i: int| 0 <= i < found.len() ==> known.contains(#[trigger] found[i]),
    ensures
        registered(found, known) == Seq::<Seq<char>>::empty(),
    decreases found.len(),
{
    if found.len() > 0 {
        let d = found.drop_last();
        assert forall|i: int| 0 <= i < d.len() implies known.contains(#[trigger] d[i]) by {
            assert(d[i] == found[i]);
        }
        lemma_nothing_new(d, known);
        assert(known.contains(found[found.len() - 1]));
    }
}

/// Scanning a folder again, once what the first scan registered is known,
/// registers nothing: a folder's media is loaded once.
pub proof fn lemma_rescan_registers_nothing(found: Seq<Seq<char>>, known: Seq<Seq<char>>)
    ensures
        registered(found, known + registered(found, known)) == Seq::<Seq<char>>::empty(),
{
    let r = registered(found, known);
    lemma_registered_covers(found, known);
    assert forall|i: int| 0 <= i < found.len() implies (known + r).contains(#[trigger] found[i]) by {
        if known.contains(found[i]) {
            let k = choose|k: int| 0 <= k < known.len() && known[k] == found[i];
            assert((known + r)[k] == found[i]);
        } else {
            let k = choose|k: int| 0 <= k < r.len() && r[k] == found[i];
            assert((known + r)[known.len() + k] == found[i]);
        }
    }
    lemma_nothing_new(found, known + r);
}

} // verus!
