//! Bible commands: translations, search, and verses an operator supplies.

use vstd::prelude::*;

use crate::scripture::verses::{chapter_verses, spec_chapter_verses};
use crate::bible::catalogue::{find, is_builtin, spec_find, spec_is_builtin};
use crate::bible::models::{Translation, TranslationInfo, Verse};
use crate::bible::topics::{answers, split_terms, suggest, terms_from, TopicSuggestion};
use crate::error::{config_error, fails_with_config, AppError};
use crate::scripture::books::{
    book_by_id, book_by_name, find_book, spec_book_at, spec_book_by_id, spec_book_by_name,
    spec_find_book, token_views, BibleBook, BookSpec,
};
use crate::text::{
    all_digits, append_chars, append_str, char_is_alphabetic, collapse_whitespace, collapse_ws,
    decimal, from_chars, has_prefix, is_alphabetic, is_ascii_alnum, is_ascii_alphanumeric,
    is_ascii_digit, is_digit, join, join_chars, lower_chars, lowercase, parse_i32, parse_integer,
    push_decimal, push_signed_decimal, signed_decimal, slice_chars, split_words, starts_with,
    take_chars, to_chars, trim, trim_chars, trimmed_nonempty, trimmed_option, opt_string, words,
};

verus! {

/// A passage the interface asks for.
#[derive(Debug, Clone)]
pub struct PassageRequest {
    pub translation_id: String,
    pub book_id: i32,
    pub chapter: u16,
    pub start_verse: Option<u16>,
    pub end_verse: Option<u16>,
}

/// A translation and how many verses it holds.
#[derive(Debug, Clone)]
pub struct TranslationStatus {
    pub translation: Translation,
    pub verse_count: i64,
}

/// What a search found — and what to try when it found nothing.
#[derive(Debug, Clone)]
pub struct BibleSearchResult {
    pub verses: Vec<Verse>,
    /// True when the exact words did not match and these are the closest.
    pub related: bool,
    /// Themes to offer when no verse matched at all. Carries references only —
    /// Selah ships no Bible text.
    pub suggestions: Vec<TopicSuggestion>,
}

/// Result of importing a translation document.
#[derive(Debug, Clone)]
pub struct ImportResult {
    pub translation_id: String,
    pub verses_imported: usize,
}

/// Request to import one of the common SQLite Bible downloads.
#[derive(Debug, Clone)]
pub struct SqliteImportRequest {
    /// Absolute path to the `.sqlite` file the operator chose.
    pub path: String,
    /// Short id used everywhere afterwards, e.g. `kjv`.
    pub translation_id: String,
    /// Full name shown in the interface, e.g. `King James Version`.
    pub name: String,
    pub abbreviation: Option<String>,
    /// Whether this should become the translation Selah starts with.
    pub make_default: bool,
}

/// Request to add a translation so verses can be stored under it.
#[derive(Debug, Clone)]
pub struct AddTranslationRequest {
    /// A published id (`msg`), or a short id the operator chooses.
    pub id: String,
    /// Only needed for a translation that is not in the published list.
    pub name: Option<String>,
    pub abbreviation: Option<String>,
    pub language: Option<String>,
}

/// Request to rename a translation the operator added.
#[derive(Debug, Clone)]
pub struct UpdateTranslationRequest {
    pub id: String,
    pub name: String,
    pub abbreviation: Option<String>,
    pub language: Option<String>,
}

/// One verse the operator typed or pasted.
///
/// The book is given as text (`"John"`, `"1 Corinthians"`, `"Jn"`) and resolved
/// against Selah's canonical registry, so a typo is reported instead of being
/// written into the database.
#[derive(Debug, Clone)]
pub struct CustomVerseInput {
    pub book: String,
    pub chapter: u16,
    pub verse: u16,
    pub text: String,
}

/// A whole chapter (or a single verse) of operator-supplied text.
#[derive(Debug, Clone)]
pub struct SaveCustomVersesRequest {
    /// Short id for the translation the verses belong to, e.g. `my-notes`.
    /// Defaults to `custom`.
    pub translation_id: Option<String>,
    /// Name shown in the Bible picker, e.g. `My notes`.
    pub name: Option<String>,
    pub abbreviation: Option<String>,
    pub verses: Vec<CustomVerseInput>,
}

/// What was stored, and anything the operator should know about it.
#[derive(Debug, Clone)]
pub struct CustomVerseImportResult {
    pub translation_id: String,
    pub reference: String,
    pub book_id: i32,
    pub chapter: u16,
    pub verses_saved: usize,
    /// Verse numbers inside the saved range that were not supplied.
    pub missing_verses: Vec<u16>,
}

/// Most verses Selah will accept in one paste. The longest chapter in the Bible
/// has 176 verses; the ceiling is a typo guard, not a limit on chapter size.
pub const MAX_CUSTOM_VERSES: usize = 400;

/// Longest single verse Selah will accept (the longest verse in the Bible is
/// well under this).
pub const MAX_CUSTOM_VERSE_CHARS: usize = 2000;

/// Highest verse number accepted, used only as a sanity bound.
pub const MAX_CUSTOM_VERSE_NUMBER: u16 = 200;

/// Longest id a custom translation may have.
pub const MAX_CUSTOM_ID_CHARS: usize = 40;

// ---------------------------------------------------------------------------
// Topic suggestions
// ---------------------------------------------------------------------------

/// How many topic suggestions a request gets: six unless it says otherwise,
/// and always between one and twelve.
pub open spec fn topic_limit(limit: Option<usize>) -> int {
    match limit {
        None => 6,
        Some(l) => if l < 1 {
            1
        } else if l > 12 {
            12
        } else {
            l as int
        },
    }
}

/// Ideas for an operator who is not sure what to search for.
pub fn suggest_bible_topics(query: String, limit: Option<usize>) -> (r: Result<
    Vec<TopicSuggestion>,
    AppError,
>)
    ensures
        r matches Ok(v) && answers(query@, topic_limit(limit), v@),
{
    let n: usize = match limit {
        None => 6,
        Some(l) => if l < 1 {
            1
        } else if l > 12 {
            12
        } else {
            l
        },
    };
    Ok(suggest(query.as_str(), n))
}

// ---------------------------------------------------------------------------
// Search terms
// ---------------------------------------------------------------------------

/// A word quoted for the full-text index, lowercased: `"word"`.
pub open spec fn quoted(w: Seq<char>) -> Seq<char> {
    seq!['"'] + lowercase(w) + seq!['"']
}

/// A word quoted for the full-text index and allowed to match as a prefix.
pub open spec fn quoted_prefix(w: Seq<char>) -> Seq<char> {
    quoted(w) + seq!['*']
}

/// The words of `ws` with three characters or more, in order.
pub open spec fn long_words(ws: Seq<Seq<char>>) -> Seq<Seq<char>>
    decreases ws.len(),
{
    if ws.len() == 0 {
        seq![]
    } else if ws.last().len() >= 3 {
        long_words(ws.drop_last()).push(ws.last())
    } else {
        long_words(ws.drop_last())
    }
}

/// The full-text query for free text: every word quoted, joined with `AND`;
/// `None` when there is no word at all.
pub open spec fn spec_search_terms(q: Seq<char>) -> Option<Seq<char>> {
    let ws = terms_from(q, 0);
    if ws.len() == 0 {
        None
    } else {
        Some(join(ws.map_values(|w: Seq<char>| quoted(w)), " AND "@))
    }
}

/// The widened full-text query: every word of three characters or more,
/// quoted and matching as a prefix, joined with `AND`; `None` when there is
/// no such word.
pub open spec fn spec_prefix_terms(q: Seq<char>) -> Option<Seq<char>> {
    let ws = long_words(terms_from(q, 0));
    if ws.len() == 0 {
        None
    } else {
        Some(join(ws.map_values(|w: Seq<char>| quoted_prefix(w)), " AND "@))
    }
}

/// Words of three characters or more are all kept.
proof fn lemma_long_words_keep_all(ws: Seq<Seq<char>>)
    requires
        forall|i: int| 0 <= i < ws.len() ==> (#[trigger] ws[i]).len() >= 3,
    ensures
        long_words(ws) == ws,
    decreases ws.len(),
{
    if ws.len() > 0 {
        let front = ws.drop_last();
        assert forall|i: int| 0 <= i < front.len() implies (#[trigger] front[i]).len() >= 3 by {
            assert(front[i] == ws[i]);
        }
        lemma_long_words_keep_all(front);
        assert(front.push(ws.last()) =~= ws);
    }
}

/// The widened search asks for the same words as the exact one, joined the
/// same way, each only allowed to match as a prefix: when every word has
/// three characters or more, its query is the exact query's quoted words,
/// each followed by `*`, still all required (`AND`).
pub proof fn lemma_widened_query_stars_each_word(q: Seq<char>)
    requires
        terms_from(q, 0).len() > 0,
        forall|i: int| 0 <= i < terms_from(q, 0).len() ==> (#[trigger] terms_from(q, 0)[i]).len() >= 3,
    ensures
        exists|pieces: Seq<Seq<char>>|
            #![trigger join(pieces, " AND "@)]
            {
                &&& pieces.len() == terms_from(q, 0).len()
                &&& spec_search_terms(q) == Some(join(pieces, " AND "@))
                &&& spec_prefix_terms(q) == Some(
                    join(pieces.map_values(|p: Seq<char>| p + seq!['*']), " AND "@),
                )
            },
{
    let ws = terms_from(q, 0);
    lemma_long_words_keep_all(ws);
    let pieces = ws.map_values(|w: Seq<char>| quoted(w));
    assert(pieces.map_values(|p: Seq<char>| p + seq!['*']) =~= ws.map_values(
        |w: Seq<char>| quoted_prefix(w),
    ));
    assert(spec_search_terms(q) == Some(join(pieces, " AND "@)));
}

/// Turns free text into a full-text query, quoting each word so punctuation
/// the operator typed (`"`, `*`, `-`, `:`) cannot be read as search syntax.
///
/// `None` means there was nothing searchable to begin with.
pub fn search_terms(query: &str) -> (r: Option<String>)
    ensures
        match r {
            Some(s) => spec_search_terms(query@) == Some(s@),
            None => spec_search_terms(query@) is None,
        },
{
    let q = to_chars(query);
    let words = split_terms(&q);
    let ghost ws = words@.map_values(|w: Vec<char>| w@);
    let mut pieces: Vec<Vec<char>> = Vec::new();
    let mut i: usize = 0;
    while i < words.len()
        invariant
            i <= words.len(),
            ws == words@.map_values(|w: Vec<char>| w@),
            pieces@.map_values(|p: Vec<char>| p@) == ws.take(i as int).map_values(
                |w: Seq<char>| quoted(w),
            ),
        decreases words.len() - i,
    {
        let mut piece: Vec<char> = Vec::new();
        piece.push('"');
        let lowered = lower_chars(&words[i]);
        append_chars(&mut piece, &lowered);
        piece.push('"');
        let ghost before = pieces@.map_values(|p: Vec<char>| p@);
        pieces.push(piece);
        proof {
            assert(piece@ =~= quoted(ws[i as int]));
            assert(pieces@.map_values(|p: Vec<char>| p@) =~= before.push(piece@));
            assert(ws.take(i + 1).map_values(|w: Seq<char>| quoted(w)) =~= ws.take(
                i as int,
            ).map_values(|w: Seq<char>| quoted(w)).push(quoted(ws[i as int])));
        }
        i = i + 1;
    }
    assert(ws.take(words.len() as int) =~= ws);
    if words.len() == 0 {
        return None;
    }
    let sep = to_chars(" AND ");
    let joined = join_chars(&pieces, &sep);
    Some(from_chars(&joined))
}

/// Like [`search_terms`], but every word may also match as a prefix, so a
/// half-remembered word still finds something. Words shorter than three
/// characters are left out: they would match most of the Bible.
pub fn prefix_terms(query: &str) -> (r: Option<String>)
    ensures
        match r {
            Some(s) => spec_prefix_terms(query@) == Some(s@),
            None => spec_prefix_terms(query@) is None,
        },
{
    let q = to_chars(query);
    let words = split_terms(&q);
    let ghost ws = words@.map_values(|w: Vec<char>| w@);
    let mut pieces: Vec<Vec<char>> = Vec::new();
    let mut i: usize = 0;
    while i < words.len()
        invariant
            i <= words.len(),
            ws == words@.map_values(|w: Vec<char>| w@),
            pieces@.map_values(|p: Vec<char>| p@) == long_words(ws.take(i as int)).map_values(
                |w: Seq<char>| quoted_prefix(w),
            ),
        decreases words.len() - i,
    {
        proof {
            assert(ws.take(i + 1).drop_last() =~= ws.take(i as int));
            assert(ws.take(i + 1).last() == ws[i as int]);
        }
        if words[i].len() >= 3 {
            let mut piece: Vec<char> = Vec::new();
            piece.push('"');
            let lowered = lower_chars(&words[i]);
            append_chars(&mut piece, &lowered);
            piece.push('"');
            piece.push('*');
            let ghost before = pieces@.map_values(|p: Vec<char>| p@);
            pieces.push(piece);
            proof {
                assert(piece@ =~= quoted_prefix(ws[i as int]));
                assert(pieces@.map_values(|p: Vec<char>| p@) =~= before.push(piece@));
                assert(long_words(ws.take(i + 1)).map_values(|w: Seq<char>| quoted_prefix(w))
                    =~= long_words(ws.take(i as int)).map_values(|w: Seq<char>| quoted_prefix(w)).push(
                    quoted_prefix(ws[i as int]),
                ));
            }
        }
        i = i + 1;
    }
    assert(ws.take(words.len() as int) =~= ws);
    if pieces.len() == 0 {
        return None;
    }
    let sep = to_chars(" AND ");
    let joined = join_chars(&pieces, &sep);
    Some(from_chars(&joined))
}

// ---------------------------------------------------------------------------
// Translation ids
// ---------------------------------------------------------------------------

/// Letters and digits stay; every other character becomes `-`.
pub open spec fn id_char(c: char) -> char {
    if is_ascii_alnum(c) {
        c
    } else {
        '-'
    }
}

/// `s` without its leading dashes.
pub open spec fn strip_leading_dashes(s: Seq<char>) -> Seq<char>
    decreases s.len(),
{
    if s.len() > 0 && s[0] == '-' {
        strip_leading_dashes(s.drop_first())
    } else {
        s
    }
}

/// `s` without its trailing dashes.
pub open spec fn strip_trailing_dashes(s: Seq<char>) -> Seq<char>
    decreases s.len(),
{
    if s.len() > 0 && s.last() == '-' {
        strip_trailing_dashes(s.drop_last())
    } else {
        s
    }
}

/// The id a typed translation id becomes: trimmed, lowercased, every
/// character other than an ASCII letter or digit turned into `-`, dashes
/// stripped from both ends, and cut to forty characters; `None` when
/// nothing is left.
pub open spec fn spec_translation_id(input: Seq<char>) -> Option<Seq<char>> {
    let cleaned = strip_trailing_dashes(
        strip_leading_dashes(lowercase(trim(input)).map_values(|c: char| id_char(c))),
    );
    if cleaned.len() == 0 {
        None
    } else if cleaned.len() > 40 {
        Some(cleaned.take(40))
    } else {
        Some(cleaned)
    }
}

proof fn lemma_strip_leading(s: Seq<char>, i: int)
    requires
        0 <= i <= s.len(),
        forall|k: int| 0 <= k < i ==> #[trigger] s[k] == '-',
    ensures
        strip_leading_dashes(s) == strip_leading_dashes(s.skip(i)),
    decreases i,
{
    if i > 0 {
        assert(s[0] == '-');
        assert(s.drop_first().skip(i - 1) =~= s.skip(i));
        assert forall|k: int| 0 <= k < i - 1 implies #[trigger] s.drop_first()[k] == '-' by {
            assert(s.drop_first()[k] == s[k + 1]);
        }
        lemma_strip_leading(s.drop_first(), i - 1);
    } else {
        assert(s.skip(0) =~= s);
    }
}

proof fn lemma_strip_trailing(s: Seq<char>, j: int)
    requires
        0 <= j <= s.len(),
        forall|k: int| j <= k < s.len() ==> #[trigger] s[k] == '-',
    ensures
        strip_trailing_dashes(s) == strip_trailing_dashes(s.take(j)),
    decreases s.len() - j,
{
    if j < s.len() {
        assert(s.last() == '-');
        assert(s.drop_last().take(j) =~= s.take(j));
        assert forall|k: int| j <= k < s.len() - 1 implies #[trigger] s.drop_last()[k] == '-' by {
            assert(s.drop_last()[k] == s[k]);
        }
        lemma_strip_trailing(s.drop_last(), j);
    } else {
        assert(s.take(j) =~= s);
    }
}

proof fn lemma_strip_leading_shape(s: Seq<char>)
    ensures
        strip_leading_dashes(s).len() <= s.len(),
        strip_leading_dashes(s).len() == 0 || strip_leading_dashes(s)[0] != '-',
        strip_leading_dashes(s) == s.skip(s.len() - strip_leading_dashes(s).len()),
    decreases s.len(),
{
    if s.len() > 0 && s[0] == '-' {
        lemma_strip_leading_shape(s.drop_first());
        let n = strip_leading_dashes(s).len();
        assert(s.drop_first().skip(s.drop_first().len() - n) =~= s.skip(s.len() - n));
    } else {
        assert(s.skip(0) =~= s);
    }
}

proof fn lemma_strip_trailing_shape(s: Seq<char>)
    ensures
        strip_trailing_dashes(s).len() <= s.len(),
        strip_trailing_dashes(s) == s.take(strip_trailing_dashes(s).len() as int),
    decreases s.len(),
{
    if s.len() > 0 && s.last() == '-' {
        lemma_strip_trailing_shape(s.drop_last());
        let n = strip_trailing_dashes(s).len() as int;
        assert(s.drop_last().take(n) =~= s.take(n));
    } else {
        assert(s.take(s.len() as int) =~= s);
    }
}

/// An id that is safe to store and to use in the picker: not empty, at
/// most forty characters, only ASCII letters, digits and dashes, and not
/// starting with a dash.
pub open spec fn is_safe_id(id: Seq<char>) -> bool {
    &&& 0 < id.len() <= 40
    &&& forall|i: int| 0 <= i < id.len() ==> is_ascii_alnum(#[trigger] id[i]) || id[i] == '-'
    &&& id[0] != '-'
}

/// Whatever is typed, a translation id that is accepted is safe to store.
pub proof fn lemma_translation_id_is_safe(input: Seq<char>)
    ensures
        spec_translation_id(input) matches Some(id) ==> is_safe_id(id),
{
    let m = lowercase(trim(input)).map_values(|c: char| id_char(c));
    let a = strip_leading_dashes(m);
    lemma_strip_leading_shape(m);
    lemma_strip_trailing_shape(a);
    let cleaned = strip_trailing_dashes(a);
    if cleaned.len() > 0 {
        assert forall|i: int| 0 <= i < cleaned.len() implies is_ascii_alnum(#[trigger] cleaned[i])
            || cleaned[i] == '-' by {
            assert(cleaned[i] == a[i]);
            assert(a[i] == m[i + (m.len() - a.len())]);
        }
        assert(cleaned[0] == a[0]);
        let id = if cleaned.len() > 40 {
            cleaned.take(40)
        } else {
            cleaned
        };
        assert forall|i: int| 0 <= i < id.len() implies is_ascii_alnum(#[trigger] id[i]) || id[i]
            == '-' by {
            assert(id[i] == cleaned[i]);
        }
        assert(id[0] == cleaned[0]);
    }
}

/// Whatever the interface sends, the id custom verses are stored under is
/// safe: it cannot break the database or the picker.
pub proof fn lemma_custom_id_is_safe(id: Option<Seq<char>>)
    ensures
        is_safe_id(spec_custom_id(id)),
{
    reveal_strlit("custom");
    if let Some(s) = id {
        lemma_translation_id_is_safe(trim(s));
    }
    let c = "custom"@;
    assert forall|i: int| 0 <= i < c.len() implies is_ascii_alnum(#[trigger] c[i]) || c[i] == '-' by {}
}

/// `s` with dashes stripped from both ends.
fn strip_dashes(s: &Vec<char>) -> (r: Vec<char>)
    ensures
        r@ == strip_trailing_dashes(strip_leading_dashes(s@)),
{
    let mut a: usize = 0;
    while a < s.len() && s[a] == '-'
        invariant
            a <= s.len(),
            forall|k: int| 0 <= k < a ==> #[trigger] s@[k] == '-',
        decreases s.len() - a,
    {
        a = a + 1;
    }
    proof {
        lemma_strip_leading(s@, a as int);
    }
    let ghost t = s@.skip(a as int);
    assert(strip_leading_dashes(s@) == t);
    let mut b: usize = s.len();
    while b > a && s[b - 1] == '-'
        invariant
            a <= b <= s.len(),
            forall|k: int| b <= k < s.len() ==> #[trigger] s@[k] == '-',
        decreases b,
    {
        b = b - 1;
    }
    proof {
        let j = (b - a) as int;
        assert forall|k: int| j <= k < t.len() implies #[trigger] t[k] == '-' by {
            assert(t[k] == s@[k + a]);
        }
        lemma_strip_trailing(t, j);
        assert(t.take(j) =~= s@.subrange(a as int, b as int));
        let u = t.take(j);
        if u.len() > 0 {
            assert(u.last() == s@[b - 1]);
        }
    }
    slice_chars(s, a, b)
}

/// Turns a typed id into something the database and the picker can live
/// with.
pub fn normalise_translation_id(input: &str) -> (r: Result<String, AppError>)
    ensures
        match spec_translation_id(input@) {
            Some(id) => r matches Ok(s) && s@ == id,
            None => fails_with_config(
                r,
                "give the translation a short id, such as msg or my-readings"@,
            ),
        },
{
    let chars = to_chars(input);
    let trimmed = trim_chars(&chars);
    let lowered = lower_chars(&trimmed);
    let mut mapped: Vec<char> = Vec::new();
    let mut i: usize = 0;
    while i < lowered.len()
        invariant
            i <= lowered.len(),
            mapped@ == lowered@.take(i as int).map_values(|c: char| id_char(c)),
        decreases lowered.len() - i,
    {
        let c = lowered[i];
        if is_ascii_alphanumeric(c) {
            mapped.push(c);
        } else {
            mapped.push('-');
        }
        assert(lowered@.take(i + 1).map_values(|c: char| id_char(c)) =~= lowered@.take(
            i as int,
        ).map_values(|c: char| id_char(c)).push(id_char(c)));
        i = i + 1;
    }
    assert(lowered@.take(lowered.len() as int) =~= lowered@);
    let cleaned = strip_dashes(&mapped);
    if cleaned.len() == 0 {
        return Err(config_error("give the translation a short id, such as msg or my-readings"));
    }
    let cut = take_chars(&cleaned, MAX_CUSTOM_ID_CHARS);
    Ok(from_chars(&cut))
}

/// The characters of an optional text.
pub open spec fn opt_str(s: Option<&str>) -> Option<Seq<char>> {
    match s {
        Some(v) => Some(v@),
        None => None,
    }
}

/// The id verses are saved under: the id the interface sent, normalised,
/// or `custom` when it sent nothing usable.
pub open spec fn spec_custom_id(id: Option<Seq<char>>) -> Seq<char> {
    match id {
        Some(s) => if trim(s).len() > 0 {
            match spec_translation_id(trim(s)) {
                Some(v) => v,
                None => "custom"@,
            }
        } else {
            "custom"@
        },
        None => "custom"@,
    }
}

/// Turns whatever the interface sent into a safe, stable translation id.
pub fn normalise_custom_id(id: Option<&str>) -> (r: String)
    ensures
        r@ == spec_custom_id(opt_str(id)),
{
    match id {
        Some(value) => {
            let chars = to_chars(value);
            let trimmed = trim_chars(&chars);
            if trimmed.len() == 0 {
                return "custom".to_owned();
            }
            let t = from_chars(&trimmed);
            match normalise_translation_id(t.as_str()) {
                Ok(v) => v,
                Err(_) => "custom".to_owned(),
            }
        },
        None => "custom".to_owned(),
    }
}

// ---------------------------------------------------------------------------
// Checking verses an operator supplies
// ---------------------------------------------------------------------------

/// The book a typed book name stands for: a book number, a canonical name,
/// or an alias spelled over all of the name's words. The error is the
/// message the operator sees.
pub open spec fn spec_resolve_book(book: Seq<char>) -> Result<BookSpec, Seq<char>> {
    let t = trim(book);
    let ws = words(t);
    if t.len() == 0 {
        Err("every verse needs a book name"@)
    } else if parse_integer(t, i32::MIN as int, i32::MAX as int) is Some {
        let id = parse_integer(t, i32::MIN as int, i32::MAX as int)->Some_0;
        match spec_book_by_id(id) {
            Some(b) => Ok(b),
            None => Err("there is no book number "@ + signed_decimal(id)),
        }
    } else if spec_book_by_name(t) is Some {
        Ok(spec_book_by_name(t)->Some_0)
    } else {
        match spec_find_book(ws, 0) {
            Some((k, n)) => if n == ws.len() {
                Ok(spec_book_at(k))
            } else {
                Err(seq!['"'] + t + "\" is not a book of the Bible Selah knows"@)
            },
            None => Err(seq!['"'] + t + "\" is not a book of the Bible Selah knows"@),
        }
    }
}

/// Resolves a book written in any recognised form: full name, abbreviation or
/// spoken alias. Numeric ids are accepted too, so a pasted array generated by
/// an AI agent with `"bookId": 43` still works.
pub fn resolve_book_name(book: &str) -> (r: Result<BibleBook, AppError>)
    ensures
        match spec_resolve_book(book@) {
            Ok(b) => r matches Ok(found) && found@ == b,
            Err(m) => fails_with_config(r, m),
        },
{
    let chars = to_chars(book);
    let trimmed = trim_chars(&chars);
    if trimmed.len() == 0 {
        return Err(config_error("every verse needs a book name"));
    }
    match parse_i32(&trimmed) {
        Some(id) => {
            return match book_by_id(id) {
                Some(b) => Ok(b),
                None => {
                    let mut m = to_chars("there is no book number ");
                    push_signed_decimal(&mut m, id as i64);
                    Err(AppError::InvalidConfiguration(from_chars(&m)))
                },
            };
        },
        None => {},
    }
    let t = from_chars(&trimmed);
    match book_by_name(t.as_str()) {
        Some(found) => {
            return Ok(found);
        },
        None => {},
    }
    // Aliases can be more than one word (`1 corinthians`, `song of songs`), so
    // they are matched against every token of the name.
    let ws = split_words(&trimmed);
    let ghost wv = ws@.map_values(|w: Vec<char>| w@);
    let mut strings: Vec<String> = Vec::new();
    let mut i: usize = 0;
    while i < ws.len()
        invariant
            i <= ws.len(),
            wv == ws@.map_values(|w: Vec<char>| w@),
            strings@.len() == i,
            forall|k: int| 0 <= k < i ==> (#[trigger] strings@[k])@ == wv[k],
        decreases ws.len() - i,
    {
        strings.push(from_chars(&ws[i]));
        i = i + 1;
    }
    let mut tokens: Vec<&str> = Vec::new();
    let mut j: usize = 0;
    while j < strings.len()
        invariant
            j <= strings.len(),
            tokens@.len() == j,
            forall|k: int| 0 <= k < j ==> (#[trigger] tokens@[k])@ == strings@[k]@,
        decreases strings.len() - j,
    {
        tokens.push(strings[j].as_str());
        j = j + 1;
    }
    assert(token_views(tokens@) =~= wv);
    let mut message: Vec<char> = Vec::new();
    message.push('"');
    append_chars(&mut message, &trimmed);
    append_str(&mut message, "\" is not a book of the Bible Selah knows");
    match find_book(tokens.as_slice(), 0) {
        Some((found, consumed)) => {
            if consumed == tokens.len() {
                Ok(found)
            } else {
                Err(AppError::InvalidConfiguration(from_chars(&message)))
            }
        },
        None => Err(AppError::InvalidConfiguration(from_chars(&message))),
    }
}

/// The message for a chapter the book does not have.
pub open spec fn no_such_chapter(book: BookSpec, chapter: u16) -> Seq<char> {
    book.name + " has "@ + decimal(book.chapters) + " chapters, so there is no chapter "@ + decimal(
        chapter as nat,
    )
}

/// Rejects chapters that cannot exist in that book.
pub fn validate_chapter(book: &BibleBook, chapter: u16) -> (r: Result<(), AppError>)
    ensures
        1 <= chapter <= book.chapters ==> r is Ok,
        !(1 <= chapter <= book.chapters) ==> fails_with_config(r, no_such_chapter(book@, chapter)),
{
    if chapter < 1 || chapter > book.chapters {
        let mut m = to_chars(book.name);
        append_str(&mut m, " has ");
        push_decimal(&mut m, book.chapters as u64);
        append_str(&mut m, " chapters, so there is no chapter ");
        push_decimal(&mut m, chapter as u64);
        assert(m@ =~= no_such_chapter(book@, chapter));
        return Err(AppError::InvalidConfiguration(from_chars(&m)));
    }
    Ok(())
}

/// The first 40 characters of `l`.
pub open spec fn metadata_head(l: Seq<char>) -> Seq<char> {
    if l.len() > 40 {
        l.take(40)
    } else {
        l
    }
}

/// Index of the first `:` at or after `i`, or the length.
pub open spec fn colon_from(h: Seq<char>, i: int) -> int
    decreases h.len() - i,
{
    if i < 0 || i >= h.len() || h[i] == ':' {
        i
    } else {
        colon_from(h, i + 1)
    }
}

proof fn lemma_colon_from(h: Seq<char>, i: int)
    requires
        0 <= i <= h.len(),
    ensures
        i <= colon_from(h, i) <= h.len(),
        colon_from(h, i) < h.len() ==> h[colon_from(h, i)] == ':',
        forall|k: int| i <= k < colon_from(h, i) ==> h[k] != ':',
    decreases h.len() - i,
{
    if i < h.len() && h[i] != ':' {
        lemma_colon_from(h, i + 1);
    }
}

/// Whether a (lowercased) head of a line starts with a reference label such
/// as `john 3:16`: it holds a colon and a digit, and the last word before the
/// first colon is all digits.
pub open spec fn spec_has_label(h: Seq<char>) -> bool {
    let left = h.take(colon_from(h, 0));
    let ws = words(left);
    &&& exists|i: int| 0 <= i < h.len() && h[i] == ':'
    &&& exists|i: int| 0 <= i < h.len() && is_digit(h[i])
    &&& ws.len() > 0
    &&& all_digits(ws.last())
}

/// Whether a line still carries a label such as `John 3:16 — For God so
/// loved`, or a `verse:`/`text:` field name.
pub open spec fn spec_looks_like_metadata(text: Seq<char>) -> bool {
    let l = lowercase(text);
    starts_with(l, "verse:"@) || starts_with(l, "text:"@) || spec_has_label(metadata_head(l))
}

/// Whether a line still carries an AI/reference label such as
/// `John 3:16 — For God so loved`, or a `verse:`/`text:` field name.
pub fn looks_like_metadata(text: &str) -> (b: bool)
    ensures
        b == spec_looks_like_metadata(text@),
{
    let chars = to_chars(text);
    let lowered = lower_chars(&chars);
    let verse_field = to_chars("verse:");
    let text_field = to_chars("text:");
    if has_prefix(&lowered, &verse_field) || has_prefix(&lowered, &text_field) {
        return true;
    }
    // `Something 3:16` at the very start of the line.
    let head = take_chars(&lowered, 40);
    assert(head@ == metadata_head(lowered@));
    let mut digits = false;
    let mut colon = false;
    let mut i: usize = 0;
    while i < head.len()
        invariant
            i <= head.len(),
            digits <==> exists|k: int| 0 <= k < i && is_digit(head@[k]),
            colon <==> exists|k: int| 0 <= k < i && head@[k] == ':',
        decreases head.len() - i,
    {
        let ch = head[i];
        if is_ascii_digit(ch) {
            digits = true;
        } else if ch == ':' {
            colon = true;
        }
        i = i + 1;
    }
    if !(colon && digits) {
        return false;
    }
    let mut p: usize = 0;
    while p < head.len() && head[p] != ':'
        invariant
            p <= head.len(),
            colon_from(head@, 0) == colon_from(head@, p as int),
        decreases head.len() - p,
    {
        p = p + 1;
    }
    let left = slice_chars(&head, 0, p);
    assert(left@ =~= head@.take(colon_from(head@, 0)));
    let ws = split_words(&left);
    assert(ws@.map_values(|w: Vec<char>| w@).len() == ws@.len());
    if ws.len() == 0 {
        assert(words(left@).len() == 0);
        return false;
    }
    let last = &ws[ws.len() - 1];
    assert(last@ == words(left@).last());
    let mut numeric = true;
    let mut k: usize = 0;
    while k < last.len()
        invariant
            k <= last.len(),
            numeric <==> forall|m: int| 0 <= m < k ==> is_digit(#[trigger] last@[m]),
        decreases last.len() - k,
    {
        if !is_ascii_digit(last[k]) {
            numeric = false;
        }
        k = k + 1;
    }
    numeric
}

/// What becomes of a verse's words: the message of the check that refuses
/// them, or the words with their whitespace tidied.
pub open spec fn spec_check_verse_text(text: Seq<char>, verse: u16) -> Result<Seq<char>, Seq<char>> {
    let t = collapse_ws(text);
    let n = decimal(verse as nat);
    if t.len() == 0 {
        Err("verse "@ + n + " has no words"@)
    } else if t.len() > 2000 {
        Err("verse "@ + n + " has "@ + decimal(t.len()) + " characters, which is longer than a verse"@)
    } else if t[0] == '{' || t[0] == '[' {
        Err("verse "@ + n + " looks like code rather than verse text — only the words belong here"@)
    } else if !(exists|i: int| 0 <= i < t.len() && char_is_alphabetic(t[i])) {
        Err("verse "@ + n + " has no words, only numbers or punctuation"@)
    } else if spec_looks_like_metadata(t) {
        Err("verse "@ + n
            + " still has its label on it — remove the book, chapter and verse number, and keep only the words"@)
    } else {
        Ok(t)
    }
}

/// Checks a verse's words and returns them trimmed.
///
/// The point of this function is to catch the two mistakes that actually
/// happen when text is pasted in: markup (a JSON object or a whole chapter
/// dropped in by mistake) and emptiness.
pub fn check_verse_text(text: &str, verse: u16) -> (r: Result<String, AppError>)
    ensures
        match spec_check_verse_text(text@, verse) {
            Ok(t) => r matches Ok(s) && s@ == t,
            Err(m) => fails_with_config(r, m),
        },
{
    let chars = to_chars(text);
    let t = collapse_whitespace(&chars);
    let mut m = to_chars("verse ");
    push_decimal(&mut m, verse as u64);
    if t.len() == 0 {
        append_str(&mut m, " has no words");
        return Err(AppError::InvalidConfiguration(from_chars(&m)));
    }
    if t.len() > MAX_CUSTOM_VERSE_CHARS {
        append_str(&mut m, " has ");
        push_decimal(&mut m, t.len() as u64);
        append_str(&mut m, " characters, which is longer than a verse");
        return Err(AppError::InvalidConfiguration(from_chars(&m)));
    }
    if t[0] == '{' || t[0] == '[' {
        append_str(&mut m, " looks like code rather than verse text — only the words belong here");
        return Err(AppError::InvalidConfiguration(from_chars(&m)));
    }
    let mut alphabetic = false;
    let mut i: usize = 0;
    while i < t.len()
        invariant
            i <= t.len(),
            alphabetic <==> exists|k: int| 0 <= k < i && char_is_alphabetic(t@[k]),
        decreases t.len() - i,
    {
        if is_alphabetic(t[i]) {
            alphabetic = true;
        }
        i = i + 1;
    }
    if !alphabetic {
        append_str(&mut m, " has no words, only numbers or punctuation");
        return Err(AppError::InvalidConfiguration(from_chars(&m)));
    }
    let words_only = from_chars(&t);
    if looks_like_metadata(words_only.as_str()) {
        append_str(
            &mut m,
            " still has its label on it — remove the book, chapter and verse number, and keep only the words",
        );
        return Err(AppError::InvalidConfiguration(from_chars(&m)));
    }
    Ok(words_only)
}

/// `n` lies between the smallest and the largest of the supplied numbers.
pub open spec fn within_supplied(s: Seq<u16>, n: int) -> bool {
    &&& exists|i: int| 0 <= i < s.len() && s[i] <= n
    &&& exists|j: int| 0 <= j < s.len() && n <= s[j]
}

fn contains_u16(s: &[u16], x: u16) -> (b: bool)
    ensures
        b == s@.contains(x),
{
    let mut i: usize = 0;
    while i < s.len()
        invariant
            i <= s.len(),
            forall|k: int| 0 <= k < i ==> s@[k] != x,
        decreases s.len() - i,
    {
        if s[i] == x {
            assert(s@[i as int] == x);
            return true;
        }
        i = i + 1;
    }
    false
}

/// `r` lists, in ascending order, exactly the numbers between the smallest
/// and the largest of `s` that `s` does not hold.
pub open spec fn is_gaps(s: Seq<u16>, r: Seq<u16>) -> bool {
    &&& forall|i: int| 0 <= i < r.len() ==> within_supplied(s, #[trigger] r[i] as int) && !s.contains(
        r[i],
    )
    &&& forall|i: int, j: int| 0 <= i < j < r.len() ==> #[trigger] r[i] < #[trigger] r[j]
    &&& forall|n: u16| within_supplied(s, n as int) && !s.contains(n) ==> r.contains(n)
}

/// Verse numbers between the supplied ones that were not supplied, in
/// ascending order.
pub fn gaps_between(verses: &[u16]) -> (r: Vec<u16>)
    ensures
        is_gaps(verses@, r@),
{
    let mut r: Vec<u16> = Vec::new();
    if verses.len() == 0 {
        return r;
    }
    let mut lo: u16 = verses[0];
    let mut hi: u16 = verses[0];
    let mut lo_at: usize = 0;
    let mut hi_at: usize = 0;
    let mut i: usize = 1;
    while i < verses.len()
        invariant
            1 <= i <= verses.len(),
            lo_at < i,
            hi_at < i,
            verses@[lo_at as int] == lo,
            verses@[hi_at as int] == hi,
            forall|k: int| 0 <= k < i ==> lo <= #[trigger] verses@[k] <= hi,
        decreases verses.len() - i,
    {
        if verses[i] < lo {
            lo = verses[i];
            lo_at = i;
        }
        if verses[i] > hi {
            hi = verses[i];
            hi_at = i;
        }
        i = i + 1;
    }
    let mut n: u32 = lo as u32;
    while n <= hi as u32
        invariant
            lo <= hi,
            lo <= n <= hi as u32 + 1,
            verses@[lo_at as int] == lo,
            verses@[hi_at as int] == hi,
            lo_at < verses@.len(),
            hi_at < verses@.len(),
            forall|k: int| 0 <= k < verses@.len() ==> lo <= #[trigger] verses@[k] <= hi,
            forall|k: int| 0 <= k < r@.len() ==> lo <= #[trigger] r@[k] < n && !verses@.contains(r@[k]),
            forall|a: int, b: int| 0 <= a < b < r@.len() ==> #[trigger] r@[a] < #[trigger] r@[b],
            forall|m: u16| lo <= m < n && !verses@.contains(m) ==> r@.contains(m),
        decreases hi as u32 + 1 - n,
    {
        let v: u16 = n as u16;
        if !contains_u16(verses, v) {
            let ghost before = r@;
            r.push(v);
            proof {
                assert forall|m: u16| lo <= m < n + 1 && !verses@.contains(m) implies r@.contains(m) by {
                    if m == v {
                        assert(r@[r@.len() - 1] == m);
                    } else {
                        assert(before.contains(m));
                        let k = choose|k: int| 0 <= k < before.len() && before[k] == m;
                        assert(r@[k] == m);
                    }
                }
            }
        }
        n = n + 1;
    }
    proof {
        assert forall|k: int| 0 <= k < r@.len() implies within_supplied(verses@, #[trigger] r@[k] as int)
            && !verses@.contains(r@[k]) by {
            assert(verses@[lo_at as int] <= r@[k]);
            assert(r@[k] <= verses@[hi_at as int]);
        }
        assert forall|m: u16| within_supplied(verses@, m as int) && !verses@.contains(m) implies r@.contains(m) by {
            let a = choose|a: int| 0 <= a < verses@.len() && verses@[a] <= m;
            let b = choose|b: int| 0 <= b < verses@.len() && m <= verses@[b];
            assert(lo <= verses@[a]);
            assert(verses@[b] <= hi);
        }
    }
    r
}

/// Verses that survived validation, plus what was noticed along the way.
#[derive(Debug)]
pub struct CheckedVerses {
    pub verses: Vec<Verse>,
    pub book_id: i32,
    pub chapter: u16,
    pub reference: String,
    pub missing_verses: Vec<u16>,
}

/// The verse numbers of the entries, in order.
pub open spec fn verse_numbers(vs: Seq<CustomVerseInput>) -> Seq<u16> {
    vs.map_values(|e: CustomVerseInput| e.verse)
}

/// The message for a verse number the chapter does not reach.
pub open spec fn no_such_verse(book: Seq<char>, chapter: u16, count: int, verse: u16) -> Seq<char> {
    book + " "@ + decimal(chapter as nat) + " has "@ + decimal(count as nat) + " verses, so there is no verse "@
        + decimal(verse as nat)
}

/// Why entry `i` is refused, given the book and chapter the first entry
/// fixed; `None` when it passes.
pub open spec fn entry_error(vs: Seq<CustomVerseInput>, i: int, first: BookSpec, chapter: u16) -> Option<
    Seq<char>,
> {
    let e = vs[i];
    match spec_resolve_book(e.book@) {
        Err(m) => Some(m),
        Ok(b) => if b.id != first.id {
            Some("this paste mixes "@ + first.name + " with "@ + b.name + "; save one chapter at a time"@)
        } else if e.chapter != chapter {
            Some(
                "this paste mixes chapter "@ + decimal(chapter as nat) + " with chapter "@ + decimal(
                    e.chapter as nat,
                ) + "; save one chapter at a time"@,
            )
        } else if e.verse < 1 || e.verse > 200 {
            Some("verse number "@ + decimal(e.verse as nat) + " is not a verse number"@)
        } else if e.verse > spec_chapter_verses(first.id, chapter as int) {
            Some(no_such_verse(first.name, chapter, spec_chapter_verses(first.id, chapter as int), e.verse))
        } else if verse_numbers(vs.take(i)).contains(e.verse) {
            Some("verse "@ + decimal(e.verse as nat) + " appears more than once"@)
        } else {
            match spec_check_verse_text(e.text@, e.verse) {
                Err(m) => Some(m),
                Ok(_) => None,
            }
        },
    }
}

/// Why the first refused entry at or after `i` is refused.
pub open spec fn first_entry_error(
    vs: Seq<CustomVerseInput>,
    i: int,
    first: BookSpec,
    chapter: u16,
) -> Option<Seq<char>>
    decreases vs.len() - i,
{
    if i < 0 || i >= vs.len() {
        None
    } else {
        match entry_error(vs, i, first, chapter) {
            Some(m) => Some(m),
            None => first_entry_error(vs, i + 1, first, chapter),
        }
    }
}

/// The book the first entry names.
pub open spec fn spec_first_book(vs: Seq<CustomVerseInput>) -> BookSpec {
    spec_resolve_book(vs[0].book@)->Ok_0
}

/// Why a paste is refused, in the order the checks run; `None` when it is
/// accepted.
pub open spec fn spec_validation_error(vs: Seq<CustomVerseInput>) -> Option<Seq<char>> {
    if vs.len() == 0 {
        Some("there are no verses to save"@)
    } else if vs.len() > 400 {
        Some(
            decimal(vs.len()) + " verses is more than one chapter; paste a single chapter (up to 400 verses)"@,
        )
    } else {
        match spec_resolve_book(vs[0].book@) {
            Err(m) => Some(m),
            Ok(first) => if !(1 <= vs[0].chapter <= first.chapters) {
                Some(no_such_chapter(first, vs[0].chapter))
            } else {
                first_entry_error(vs, 0, first, vs[0].chapter)
            },
        }
    }
}

/// `v` is entry `e` as it is stored under translation `tid`.
pub open spec fn stored_as(v: Verse, e: CustomVerseInput, tid: Seq<char>, book_id: int) -> bool {
    &&& v.translation_id@ == tid
    &&& v.book_id == book_id
    &&& v.chapter == e.chapter as int
    &&& v.verse == e.verse as int
    &&& v.text@ == collapse_ws(e.text@)
}

/// `v` is some entry of `vs` as stored.
pub open spec fn from_some_entry(v: Verse, vs: Seq<CustomVerseInput>, tid: Seq<char>, book_id: int) -> bool {
    exists|i: int| 0 <= i < vs.len() && stored_as(v, vs[i], tid, book_id)
}

/// Entry `e` is stored as some verse of `out`.
pub open spec fn stored_somewhere(out: Seq<Verse>, e: CustomVerseInput, tid: Seq<char>, book_id: int) -> bool {
    exists|j: int| 0 <= j < out.len() && stored_as(out[j], e, tid, book_id)
}

/// `out` holds every entry of `vs` and nothing else, in ascending verse
/// order.
pub open spec fn stores_in_order(out: Seq<Verse>, vs: Seq<CustomVerseInput>, tid: Seq<char>, book_id: int) -> bool {
    &&& forall|j: int| 0 <= j < out.len() ==> #[trigger] from_some_entry(out[j], vs, tid, book_id)
    &&& forall|i: int| 0 <= i < vs.len() ==> #[trigger] stored_somewhere(out, vs[i], tid, book_id)
    &&& forall|a: int, b: int| 0 <= a < b < out.len() ==> (#[trigger] out[a]).verse < (#[trigger] out[b]).verse
}

/// The label of a saved paste, e.g. `Genesis 1 (2 verses)`.
pub open spec fn paste_reference(book: BookSpec, chapter: u16, count: nat) -> Seq<char> {
    book.name + " "@ + decimal(chapter as nat) + " ("@ + decimal(count) + " verses)"@
}

/// `c` is what an accepted paste `vs` becomes under translation `tid`: every
/// entry stored once, in verse order, with the gaps between them noted.
pub open spec fn is_checked(c: CheckedVerses, tid: Seq<char>, vs: Seq<CustomVerseInput>) -> bool {
    let first = spec_first_book(vs);
    &&& c.book_id == first.id
    &&& c.chapter == vs[0].chapter
    &&& c.reference@ == paste_reference(first, vs[0].chapter, vs.len())
    &&& stores_in_order(c.verses@, vs, tid, first.id)
    &&& is_gaps(verse_numbers(vs), c.missing_verses@)
}

/// The id a request's verses are stored under.
pub open spec fn request_id(request: SaveCustomVersesRequest) -> Seq<char> {
    spec_custom_id(opt_string(request.translation_id))
}

/// The translation id a request names, normalised.
pub fn request_translation_id(request: &SaveCustomVersesRequest) -> (r: String)
    ensures
        r@ == request_id(*request),
{
    match &request.translation_id {
        Some(s) => normalise_custom_id(Some(s.as_str())),
        None => normalise_custom_id(None),
    }
}

/// The entries all pass their checks: their verse numbers, each within
/// 1..=200 and none repeated, and their tidied words.
pub open spec fn entries_pass(
    vs: Seq<CustomVerseInput>,
    chapter: u16,
    seen: Seq<u16>,
    texts: Seq<String>,
) -> bool {
    &&& seen == verse_numbers(vs)
    &&& texts.len() == vs.len()
    &&& forall|k: int| 0 <= k < vs.len() ==> (#[trigger] texts[k])@ == collapse_ws(vs[k].text@)
    &&& forall|k: int| 0 <= k < vs.len() ==> (#[trigger] vs[k]).chapter == chapter
    &&& forall|k: int| 0 <= k < seen.len() ==> 1 <= #[trigger] seen[k] <= 200
    &&& forall|a: int, b: int| 0 <= a < b < seen.len() ==> #[trigger] seen[a] != #[trigger] seen[b]
}

/// Runs the checks of every entry in order, stopping at the first refusal.
fn check_entries(vs: &Vec<CustomVerseInput>, first: &BibleBook, chapter: u16) -> (r: Result<
    (Vec<u16>, Vec<String>),
    AppError,
>)
    ensures
        match first_entry_error(vs@, 0, first@, chapter) {
            Some(m) => fails_with_config(r, m),
            None => r matches Ok((seen, texts)) && entries_pass(vs@, chapter, seen@, texts@),
        },
{
    let ghost fv = first@;
    let mut seen: Vec<u16> = Vec::new();
    let mut texts: Vec<String> = Vec::new();
    let mut i: usize = 0;
    assert(verse_numbers(vs@.take(0)) =~= seen@);
    while i < vs.len()
        invariant
            i <= vs@.len(),
            fv == first@,
            first_entry_error(vs@, 0, fv, chapter) == first_entry_error(vs@, i as int, fv, chapter),
            entries_pass(vs@.take(i as int), chapter, seen@, texts@),
        decreases vs.len() - i,
    {
        let entry = &vs[i];
        proof {
            assert(vs@.take(i as int).len() == i);
            assert(first_entry_error(vs@, i as int, fv, chapter) == match entry_error(
                vs@,
                i as int,
                fv,
                chapter,
            ) {
                Some(m) => Some(m),
                None => first_entry_error(vs@, i + 1, fv, chapter),
            });
        }
        let book = match resolve_book_name(entry.book.as_str()) {
            Ok(b) => b,
            Err(e) => {
                return Err(e);
            },
        };
        if book.id != first.id {
            let mut m = to_chars("this paste mixes ");
            append_str(&mut m, first.name);
            append_str(&mut m, " with ");
            append_str(&mut m, book.name);
            append_str(&mut m, "; save one chapter at a time");
            return Err(AppError::InvalidConfiguration(from_chars(&m)));
        }
        if entry.chapter != chapter {
            let mut m = to_chars("this paste mixes chapter ");
            push_decimal(&mut m, chapter as u64);
            append_str(&mut m, " with chapter ");
            push_decimal(&mut m, entry.chapter as u64);
            append_str(&mut m, "; save one chapter at a time");
            return Err(AppError::InvalidConfiguration(from_chars(&m)));
        }
        if entry.verse < 1 || entry.verse > MAX_CUSTOM_VERSE_NUMBER {
            let mut m = to_chars("verse number ");
            push_decimal(&mut m, entry.verse as u64);
            append_str(&mut m, " is not a verse number");
            return Err(AppError::InvalidConfiguration(from_chars(&m)));
        }
        let count = chapter_verses(first.id, chapter);
        if entry.verse > count {
            let mut m = to_chars(first.name);
            append_str(&mut m, " ");
            push_decimal(&mut m, chapter as u64);
            append_str(&mut m, " has ");
            push_decimal(&mut m, count as u64);
            append_str(&mut m, " verses, so there is no verse ");
            push_decimal(&mut m, entry.verse as u64);
            return Err(AppError::InvalidConfiguration(from_chars(&m)));
        }
        if contains_u16(seen.as_slice(), entry.verse) {
            let mut m = to_chars("verse ");
            push_decimal(&mut m, entry.verse as u64);
            append_str(&mut m, " appears more than once");
            return Err(AppError::InvalidConfiguration(from_chars(&m)));
        }
        let text = match check_verse_text(entry.text.as_str(), entry.verse) {
            Ok(t) => t,
            Err(e) => {
                return Err(e);
            },
        };
        let ghost before = seen@;
        let ghost before_texts = texts@;
        seen.push(entry.verse);
        texts.push(text);
        proof {
            let pre = vs@.take(i as int);
            let nxt = vs@.take(i + 1);
            assert(nxt =~= pre.push(vs@[i as int]));
            assert(verse_numbers(nxt) =~= before.push(entry.verse));
            assert forall|k: int| 0 <= k < nxt.len() implies (#[trigger] texts@[k])@ == collapse_ws(
                nxt[k].text@,
            ) by {
                if k < i {
                    assert(texts@[k] == before_texts[k]);
                    assert(nxt[k] == pre[k]);
                }
            }
            assert forall|k: int| 0 <= k < nxt.len() implies (#[trigger] nxt[k]).chapter == chapter by {
                if k < i {
                    assert(nxt[k] == pre[k]);
                }
            }
            assert forall|a: int, b: int| 0 <= a < b < seen@.len() implies #[trigger] seen@[a]
                != #[trigger] seen@[b] by {
                if b == i {
                    assert(before[a] == seen@[a]);
                    assert(before.contains(seen@[a]));
                }
            }
        }
        i = i + 1;
    }
    assert(vs@.take(vs@.len() as int) =~= vs@);
    Ok((seen, texts))
}

/// Position `x` occurs in `order`.
spec fn lists_position(order: Seq<usize>, x: int) -> bool {
    exists|j: int| 0 <= j < order.len() && order[j] == x
}

/// The positions of `seen` ordered by the number at each: every position
/// once, smallest number first.
fn verse_order(seen: &Vec<u16>) -> (order: Vec<usize>)
    requires
        forall|k: int| 0 <= k < seen@.len() ==> 1 <= #[trigger] seen@[k] <= 200,
        forall|a: int, b: int| 0 <= a < b < seen@.len() ==> #[trigger] seen@[a] != #[trigger] seen@[b],
    ensures
        forall|j: int| 0 <= j < order@.len() ==> (#[trigger] order@[j]) < seen@.len(),
        forall|a: int, b: int|
            0 <= a < b < order@.len() ==> seen@[(#[trigger] order@[a]) as int] < seen@[(
            #[trigger] order@[b]) as int],
        forall|x: int| 0 <= x < seen@.len() ==> #[trigger] lists_position(order@, x),
{
    // Where each verse number was supplied.
    let mut slots: Vec<Option<usize>> = Vec::new();
    let mut v: usize = 0;
    while v <= 200
        invariant
            v <= 201,
            slots@.len() == v,
            forall|n: int| 0 <= n < v ==> (#[trigger] slots@[n]) is None,
        decreases 201 - v,
    {
        slots.push(None);
        v = v + 1;
    }
    let mut k: usize = 0;
    while k < seen.len()
        invariant
            k <= seen@.len(),
            slots@.len() == 201,
            forall|n: int| 0 <= n < seen@.len() ==> 1 <= #[trigger] seen@[n] <= 200,
            forall|a: int, b: int|
                0 <= a < b < seen@.len() ==> #[trigger] seen@[a] != #[trigger] seen@[b],
            forall|n: int|
                0 <= n < 201 ==> ((#[trigger] slots@[n]) matches Some(x) ==> x < k && seen@[x as int]
                    == n),
            forall|x: int| 0 <= x < k ==> (#[trigger] slots@[seen@[x] as int] matches Some(p) && p == x),
        decreases seen.len() - k,
    {
        let n = seen[k] as usize;
        slots.set(n, Some(k));
        proof {
            assert forall|x: int| 0 <= x < k + 1 implies (#[trigger] slots@[seen@[x] as int] matches Some(
                p,
            ) && p == x) by {
                if x < k {
                    assert(seen@[x] != seen@[k as int]);
                }
            }
        }
        k = k + 1;
    }
    let mut order: Vec<usize> = Vec::new();
    let mut n: usize = 1;
    while n <= 200
        invariant
            1 <= n <= 201,
            slots@.len() == 201,
            forall|m: int|
                0 <= m < 201 ==> ((#[trigger] slots@[m]) matches Some(x) ==> x < seen@.len()
                    && seen@[x as int] == m),
            forall|x: int| 0 <= x < seen@.len() ==> (#[trigger] slots@[seen@[x] as int] matches Some(p) && p == x),
            forall|x: int| 0 <= x < seen@.len() ==> 1 <= #[trigger] seen@[x] <= 200,
            forall|j: int|
                0 <= j < order@.len() ==> (#[trigger] order@[j]) < seen@.len() && seen@[order@[j] as int]
                    < n,
            forall|a: int, b: int|
                0 <= a < b < order@.len() ==> seen@[(#[trigger] order@[a]) as int] < seen@[(
                #[trigger] order@[b]) as int],
            forall|x: int| 0 <= x < seen@.len() && seen@[x] < n ==> #[trigger] lists_position(order@, x),
        decreases 201 - n,
    {
        let slot = slots[n];
        assert(slot == slots@[n as int]);
        let ghost before = order@;
        if let Some(x) = slot {
            order.push(x);
        }
        proof {
            assert forall|y: int| 0 <= y < seen@.len() && seen@[y] < n + 1 implies #[trigger] lists_position(order@, y) by {
                if seen@[y] == n {
                    assert(slots@[seen@[y] as int] matches Some(p) && p == y);
                    assert(order@[before.len() as int] == y);
                } else {
                    assert(lists_position(before, y));
                    let j = choose|j: int| 0 <= j < before.len() && before[j] == y;
                    assert(order@[j] == y);
                }
            }
        }
        n = n + 1;
    }
    proof {
        assert forall|x: int| 0 <= x < seen@.len() implies #[trigger] lists_position(order@, x) by {
            assert(seen@[x] < 201);
        }
    }
    order
}

/// The verses of an accepted paste as they are stored, in verse order.
fn stored_in_order(
    vs: &Vec<CustomVerseInput>,
    seen: &Vec<u16>,
    texts: &Vec<String>,
    translation_id: &String,
    book_id: i32,
    chapter: u16,
) -> (verses: Vec<Verse>)
    requires
        entries_pass(vs@, chapter, seen@, texts@),
    ensures
        stores_in_order(verses@, vs@, translation_id@, book_id as int),
{
    let order = verse_order(seen);
    let mut verses: Vec<Verse> = Vec::new();
    let mut j: usize = 0;
    while j < order.len()
        invariant
            j <= order@.len(),
            entries_pass(vs@, chapter, seen@, texts@),
            forall|q: int| 0 <= q < order@.len() ==> (#[trigger] order@[q]) < seen@.len(),
            verses@.len() == j,
            forall|q: int|
                0 <= q < j ==> stored_as(
                    #[trigger] verses@[q],
                    vs@[order@[q] as int],
                    translation_id@,
                    book_id as int,
                ),
        decreases order.len() - j,
    {
        let x = order[j];
        proof {
            assert(seen@[x as int] == vs@[x as int].verse);
            assert(texts@[x as int]@ == collapse_ws(vs@[x as int].text@));
            assert(vs@[x as int].chapter == chapter);
        }
        let verse = Verse {
            translation_id: translation_id.clone(),
            book_id,
            chapter: chapter as i32,
            verse: seen[x] as i32,
            text: texts[x].clone(),
        };
        verses.push(verse);
        j = j + 1;
    }
    proof {
        let vv = vs@;
        let tid = translation_id@;
        let bid = book_id as int;
        let out = verses@;
        assert forall|q: int| 0 <= q < out.len() implies #[trigger] from_some_entry(out[q], vv, tid, bid) by {
            assert(stored_as(out[q], vv[order@[q] as int], tid, bid));
        }
        assert forall|i: int| 0 <= i < vv.len() implies #[trigger] stored_somewhere(out, vv[i], tid, bid) by {
            assert(lists_position(order@, i));
            let q = choose|q: int| 0 <= q < order@.len() && order@[q] == i;
            assert(stored_as(out[q], vv[i], tid, bid));
        }
        assert forall|a: int, b: int| 0 <= a < b < out.len() implies (#[trigger] out[a]).verse < (
        #[trigger] out[b]).verse by {
            assert(seen@[order@[a] as int] < seen@[order@[b] as int]);
        }
        assert(stores_in_order(out, vv, tid, bid));
    }
    verses
}

/// Validates a paste and converts it into stored verses.
pub fn validate_custom_verses(request: &SaveCustomVersesRequest) -> (r: Result<
    CheckedVerses,
    AppError,
>)
    ensures
        match spec_validation_error(request.verses@) {
            Some(m) => fails_with_config(r, m),
            None => r matches Ok(c) && is_checked(c, request_id(*request), request.verses@),
        },
{
    let vs = &request.verses;
    if vs.len() == 0 {
        return Err(config_error("there are no verses to save"));
    }
    if vs.len() > MAX_CUSTOM_VERSES {
        let mut m: Vec<char> = Vec::new();
        push_decimal(&mut m, vs.len() as u64);
        append_str(
            &mut m,
            " verses is more than one chapter; paste a single chapter (up to 400 verses)",
        );
        return Err(AppError::InvalidConfiguration(from_chars(&m)));
    }
    let translation_id = request_translation_id(request);
    // The first verse fixes the book and chapter; everything else must agree.
    let first = match resolve_book_name(vs[0].book.as_str()) {
        Ok(b) => b,
        Err(e) => {
            return Err(e);
        },
    };
    let chapter = vs[0].chapter;
    match validate_chapter(&first, chapter) {
        Ok(()) => {},
        Err(e) => {
            return Err(e);
        },
    }
    let (seen, texts) = match check_entries(vs, &first, chapter) {
        Ok(p) => p,
        Err(e) => {
            return Err(e);
        },
    };
    let verses = stored_in_order(vs, &seen, &texts, &translation_id, first.id, chapter);
    let missing_verses = gaps_between(seen.as_slice());
    let mut reference = to_chars(first.name);
    append_str(&mut reference, " ");
    push_decimal(&mut reference, chapter as u64);
    append_str(&mut reference, " (");
    push_decimal(&mut reference, seen.len() as u64);
    append_str(&mut reference, " verses)");
    assert(reference@ =~= paste_reference(first@, chapter, vs@.len()));
    let c = CheckedVerses {
        verses,
        book_id: first.id,
        chapter,
        reference: from_chars(&reference),
        missing_verses,
    };
    Ok(c)
}

// ---------------------------------------------------------------------------
// Adding, renaming and importing translations
// ---------------------------------------------------------------------------

/// The message for adding one of the bundled translations.
pub open spec fn already_bundled(id: Seq<char>) -> Seq<char> {
    id + " is one of the Bibles that come with Selah, so it is already here"@
}

/// What adding a translation stores, and whether it comes from the
/// published list: a published id takes its name, abbreviation and language
/// from the catalogue; any other id needs a name, and its language defaults
/// to `en`. Adding never makes a translation the default.
pub open spec fn add_translation_outcome(
    request: AddTranslationRequest,
    r: Result<(TranslationInfo, bool), AppError>,
) -> bool {
    match spec_translation_id(request.id@) {
        None => fails_with_config(r, "give the translation a short id, such as msg or my-readings"@),
        Some(id) => if spec_is_builtin(id) {
            fails_with_config(r, already_bundled(id))
        } else {
            match spec_find(id) {
                Some(p) => r matches Ok((info, published)) && published && info.id@ == id
                    && info.name@ == p.name && opt_string(info.abbreviation) == Some(p.abbreviation)
                    && info.language@ == p.language && !info.is_default,
                None => match trimmed_nonempty(opt_string(request.name)) {
                    None => fails_with_config(
                        r,
                        "give the translation a name — that is what appears in the Bible list"@,
                    ),
                    Some(n) => r matches Ok((info, published)) && !published && info.id@ == id
                        && info.name@ == n && opt_string(info.abbreviation) == trimmed_nonempty(
                        opt_string(request.abbreviation),
                    ) && info.language@ == (match trimmed_nonempty(opt_string(request.language)) {
                        Some(l) => l,
                        None => "en"@,
                    }) && !info.is_default,
                },
            }
        },
    }
}

/// Decides what adding a translation stores. The second value says whether
/// the translation is one of the published ones, which the store records
/// differently.
pub fn plan_add_translation(request: &AddTranslationRequest) -> (r: Result<
    (TranslationInfo, bool),
    AppError,
>)
    ensures
        add_translation_outcome(*request, r),
{
    let id = match normalise_translation_id(request.id.as_str()) {
        Ok(id) => id,
        Err(e) => {
            return Err(e);
        },
    };
    proof {
        reveal_strlit("give the translation a short id, such as msg or my-readings");
    }
    if is_builtin(id.as_str()) {
        let mut m = to_chars(id.as_str());
        append_str(&mut m, " is one of the Bibles that come with Selah, so it is already here");
        return Err(AppError::InvalidConfiguration(from_chars(&m)));
    }
    match find(id.as_str()) {
        Some(p) => {
            let info = TranslationInfo {
                id,
                name: p.name().to_owned(),
                language: p.language().to_owned(),
                abbreviation: Some(p.abbreviation().to_owned()),
                is_default: false,
            };
            Ok((info, true))
        },
        None => {
            let name = match trimmed_option(&request.name) {
                Some(n) => n,
                None => {
                    return Err(
                        config_error(
                            "give the translation a name — that is what appears in the Bible list",
                        ),
                    );
                },
            };
            let language = match trimmed_option(&request.language) {
                Some(l) => l,
                None => "en".to_owned(),
            };
            let info = TranslationInfo {
                id,
                name,
                language,
                abbreviation: trimmed_option(&request.abbreviation),
                is_default: false,
            };
            Ok((info, false))
        },
    }
}

/// What renaming a translation asks of the store: the trimmed name, the
/// abbreviation (trimmed, dropped when blank) and the language (trimmed,
/// `en` when blank); a blank name is refused.
pub fn plan_update_translation(request: &UpdateTranslationRequest) -> (r: Result<
    (String, Option<String>, String),
    AppError,
>)
    ensures
        trim(request.name@).len() == 0 ==> fails_with_config(r, "a translation needs a name"@),
        trim(request.name@).len() > 0 ==> (r matches Ok((name, abbreviation, language)) && name@
            == trim(request.name@) && opt_string(abbreviation) == trimmed_nonempty(
            opt_string(request.abbreviation),
        ) && language@ == (match trimmed_nonempty(opt_string(request.language)) {
            Some(l) => l,
            None => "en"@,
        })),
{
    let chars = to_chars(request.name.as_str());
    let name = trim_chars(&chars);
    if name.len() == 0 {
        return Err(config_error("a translation needs a name"));
    }
    let language = match trimmed_option(&request.language) {
        Some(l) => l,
        None => "en".to_owned(),
    };
    Ok((from_chars(&name), trimmed_option(&request.abbreviation), language))
}

/// The message for renaming or removing one of the bundled translations,
/// `verb` naming what was asked (`renamed`, `removed`).
pub open spec fn bundled_refusal(name: Seq<char>, verb: Seq<char>) -> Seq<char> {
    name + " is one of the Bibles that come with Selah, so it cannot be "@ + verb
}

/// Whether a stored translation may be renamed or removed: the bundled
/// translations are refused, with the translation's name in the message;
/// every other translation may.
pub fn check_not_bundled(builtin: bool, name: &str, verb: &str) -> (r: Result<(), AppError>)
    ensures
        builtin ==> fails_with_config(r, bundled_refusal(name@, verb@)),
        !builtin ==> r is Ok,
{
    if builtin {
        let mut m = to_chars(name);
        append_str(&mut m, " is one of the Bibles that come with Selah, so it cannot be ");
        append_str(&mut m, verb);
        return Err(AppError::InvalidConfiguration(from_chars(&m)));
    }
    Ok(())
}

/// How many verses a search returns at most: 25 unless the request says
/// otherwise, and always between 1 and 200.
pub fn search_limit(limit: Option<usize>) -> (n: i64)
    ensures
        n == (match limit {
            None => 25,
            Some(l) => if l < 1 {
                1
            } else if l > 200 {
                200
            } else {
                l as int
            },
        }),
{
    match limit {
        None => 25,
        Some(l) => if l < 1 {
            1
        } else if l > 200 {
            200
        } else {
            l as i64
        },
    }
}

/// What importing a SQLite Bible stores: the id trimmed and lowercased, the
/// name trimmed, language `en`, the abbreviation when it is not blank, and
/// the default flag as asked. A blank id or name is refused.
pub fn sqlite_translation_info(request: &SqliteImportRequest) -> (r: Result<
    TranslationInfo,
    AppError,
>)
    ensures
        lowercase(trim(request.translation_id@)).len() == 0 || trim(request.name@).len() == 0
            ==> fails_with_config(r, "a short id and a name are both required"@),
        !(lowercase(trim(request.translation_id@)).len() == 0 || trim(request.name@).len() == 0)
            ==> (r matches Ok(info) && info.id@ == lowercase(trim(request.translation_id@))
            && info.name@ == trim(request.name@) && info.language@ == "en"@ && opt_string(
            info.abbreviation,
        ) == (match request.abbreviation {
            Some(a) => if trim(a@).len() > 0 {
                Some(a@)
            } else {
                None
            },
            None => None,
        }) && info.is_default == request.make_default),
{
    let id_chars = to_chars(request.translation_id.as_str());
    let id_trimmed = trim_chars(&id_chars);
    let id = lower_chars(&id_trimmed);
    let name_chars = to_chars(request.name.as_str());
    let name = trim_chars(&name_chars);
    if id.len() == 0 || name.len() == 0 {
        return Err(config_error("a short id and a name are both required"));
    }
    let abbreviation = match &request.abbreviation {
        Some(a) => {
            let a_chars = to_chars(a.as_str());
            if trim_chars(&a_chars).len() > 0 {
                Some(a.clone())
            } else {
                None
            }
        },
        None => None,
    };
    Ok(
        TranslationInfo {
            id: from_chars(&id),
            name: from_chars(&name),
            language: "en".to_owned(),
            abbreviation,
            is_default: request.make_default,
        },
    )
}

/// The message for writing verses into one of the bundled translations.
pub open spec fn bundled_is_read_only(name: Seq<char>) -> Seq<char> {
    name + " is one of the Bibles that come with Selah, so it cannot be changed. Add a translation of your own and put the verses there."@
}

/// What saving pasted verses stores, given what the store already holds
/// under the request's id (whether that translation is bundled, and its
/// name): the bundled translations are refused; otherwise the paste is
/// validated, and the translation is named as asked (`My verses` when no
/// name is given), in `en`, and never made the default.
pub fn plan_custom_verses(request: &SaveCustomVersesRequest, existing: Option<(bool, String)>) -> (r: Result<
    (TranslationInfo, CheckedVerses),
    AppError,
>)
    ensures
        existing matches Some((true, name)) ==> fails_with_config(r, bundled_is_read_only(name@)),
        !(existing matches Some((true, _))) ==> match spec_validation_error(request.verses@) {
            Some(m) => fails_with_config(r, m),
            None => r matches Ok((info, c)) && is_checked(c, request_id(*request), request.verses@)
                && info.id@ == request_id(*request) && info.name@ == (match trimmed_nonempty(
                opt_string(request.name),
            ) {
                Some(n) => n,
                None => "My verses"@,
            }) && info.language@ == "en"@ && opt_string(info.abbreviation) == trimmed_nonempty(
                opt_string(request.abbreviation),
            ) && !info.is_default,
        },
{
    match &existing {
        Some((true, name)) => {
            let mut m = to_chars(name.as_str());
            append_str(
                &mut m,
                " is one of the Bibles that come with Selah, so it cannot be changed. Add a translation of your own and put the verses there.",
            );
            return Err(AppError::InvalidConfiguration(from_chars(&m)));
        },
        _ => {},
    }
    let checked = match validate_custom_verses(request) {
        Ok(c) => c,
        Err(e) => {
            return Err(e);
        },
    };
    let name = match trimmed_option(&request.name) {
        Some(n) => n,
        None => "My verses".to_owned(),
    };
    let info = TranslationInfo {
        id: request_translation_id(request),
        name,
        language: "en".to_owned(),
        abbreviation: trimmed_option(&request.abbreviation),
        is_default: false,
    };
    Ok((info, checked))
}

/// What the interface is told after pasted verses were saved.
pub fn custom_verse_result(translation_id: String, checked: CheckedVerses, saved: usize) -> (r:
    CustomVerseImportResult)
    ensures
        r.translation_id == translation_id,
        r.reference == checked.reference,
        r.book_id == checked.book_id,
        r.chapter == checked.chapter,
        r.verses_saved == saved,
        r.missing_verses == checked.missing_verses,
{
    CustomVerseImportResult {
        translation_id,
        reference: checked.reference,
        book_id: checked.book_id,
        chapter: checked.chapter,
        verses_saved: saved,
        missing_verses: checked.missing_verses,
    }
}

// ---------------------------------------------------------------------------
// Searching
// ---------------------------------------------------------------------------

/// Which translation a search is limited to: `None`, blank, `*` and `@all`
/// mean every translation.
pub open spec fn spec_search_scope(translation_id: Option<Seq<char>>) -> Option<Seq<char>> {
    match translation_id {
        Some(id) => if trim(id).len() == 0 || trim(id) == "*"@ || trim(id) == "@all"@ {
            None
        } else {
            Some(trim(id))
        },
        None => None,
    }
}

/// Which translation a search is limited to, if any.
pub fn search_scope(translation_id: &Option<String>) -> (r: Option<String>)
    ensures
        opt_string(r) == spec_search_scope(opt_string(*translation_id)),
{
    match translation_id {
        Some(id) => {
            let chars = to_chars(id.as_str());
            let t = trim_chars(&chars);
            let star = to_chars("*");
            let all = to_chars("@all");
            if t.len() == 0 || crate::text::chars_eq(&t, &star) || crate::text::chars_eq(&t, &all) {
                None
            } else {
                Some(from_chars(&t))
            }
        },
        None => None,
    }
}

/// The answer to a query too short to search (fewer than two characters
/// once trimmed): no verses, and the starter themes. `None` when the query
/// is long enough to run.
pub fn short_query_result(query: &str) -> (r: Option<BibleSearchResult>)
    ensures
        trim(query@).len() < 2 ==> (r matches Some(res) && res.verses@.len() == 0 && !res.related
            && answers(trim(query@), 6, res.suggestions@)),
        trim(query@).len() >= 2 ==> r is None,
{
    let chars = to_chars(query);
    let t = trim_chars(&chars);
    if t.len() < 2 {
        let q = from_chars(&t);
        Some(BibleSearchResult { verses: Vec::new(), related: false, suggestions: suggest(q.as_str(), 6) })
    } else {
        None
    }
}

/// The answer when the operator's exact words matched: those verses, with
/// no suggestions. `None` when they matched nothing.
pub fn exact_result(exact: Vec<Verse>) -> (r: Option<BibleSearchResult>)
    ensures
        exact@.len() > 0 ==> (r matches Some(res) && res.verses == exact && !res.related
            && res.suggestions@.len() == 0),
        exact@.len() == 0 ==> r is None,
{
    if exact.len() > 0 {
        Some(BibleSearchResult { verses: exact, related: false, suggestions: Vec::new() })
    } else {
        None
    }
}

/// The answer once the exact words found nothing: the widened matches,
/// marked as related, and themes to try when even those are empty.
pub fn widened_result(query: &str, widened: Vec<Verse>) -> (r: BibleSearchResult)
    ensures
        r.verses == widened,
        r.related,
        widened@.len() > 0 ==> r.suggestions@.len() == 0,
        widened@.len() == 0 ==> answers(query@, 6, r.suggestions@),
{
    let suggestions = if widened.len() == 0 {
        suggest(query, 6)
    } else {
        Vec::new()
    };
    BibleSearchResult { verses: widened, related: true, suggestions }
}

/// Which database search a Bible search asks for next.
#[derive(Debug, Clone, Copy, PartialEq, Eq, Structural)]
pub enum SearchStage {
    /// All the query's words, as typed.
    Exact,
    /// Each word as a prefix, when the exact words found nothing.
    Widened,
}

/// The next thing a Bible search does: answer, or run a search for `terms`
/// and report back what it found.
#[derive(Debug, Clone)]
pub enum SearchAction {
    Answer(BibleSearchResult),
    Search { stage: SearchStage, terms: String },
}

/// What a search does once its exact words found `exact`.
pub open spec fn after_exact_action(query: Seq<char>, exact: Seq<Verse>, a: SearchAction) -> bool {
    if exact.len() > 0 {
        a matches SearchAction::Answer(res) && res.verses@ == exact && !res.related
            && res.suggestions@.len() == 0
    } else {
        match spec_prefix_terms(query) {
            Some(t) => a matches SearchAction::Search { stage, terms } && stage == SearchStage::Widened
                && terms@ == t,
            None => a matches SearchAction::Answer(res) && res.verses@.len() == 0 && res.related
                && answers(query, 6, res.suggestions@),
        }
    }
}

/// The first step of a Bible search for an already trimmed `query`: a query
/// shorter than two characters is answered with themes at once; otherwise
/// the exact words are searched, and when the query has no searchable word
/// the search goes straight on to the widened words.
pub fn search_begin(query: &str) -> (a: SearchAction)
    ensures
        trim(query@).len() < 2 ==> (a matches SearchAction::Answer(res) && res.verses@.len() == 0
            && !res.related && answers(trim(query@), 6, res.suggestions@)),
        trim(query@).len() >= 2 ==> match spec_search_terms(query@) {
            Some(t) => a matches SearchAction::Search { stage, terms } && stage == SearchStage::Exact
                && terms@ == t,
            None => after_exact_action(query@, seq![], a),
        },
{
    if let Some(r) = short_query_result(query) {
        return SearchAction::Answer(r);
    }
    match search_terms(query) {
        Some(terms) => SearchAction::Search { stage: SearchStage::Exact, terms },
        None => search_after_exact(query, Vec::new()),
    }
}

/// The step after the exact search found `exact`: answer with those verses,
/// or ask for the widened search, or, when the query has no word to widen,
/// answer with themes to try.
pub fn search_after_exact(query: &str, exact: Vec<Verse>) -> (a: SearchAction)
    ensures
        after_exact_action(query@, exact@, a),
{
    if let Some(r) = exact_result(exact) {
        return SearchAction::Answer(r);
    }
    match prefix_terms(query) {
        Some(terms) => SearchAction::Search { stage: SearchStage::Widened, terms },
        None => SearchAction::Answer(widened_result(query, Vec::new())),
    }
}

} // verus!
