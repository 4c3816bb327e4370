//! Deterministic Bible book registry.
//!
//! A book is identified by a stable numeric id shared with the SQLite `books`
//! table. Each entry carries canonical name, common written abbreviations and
//! spoken aliases ("first corinthians", "i corinthians", "psalms", ...).
//! Lookups are exact token matches that ignore ASCII case — no fuzzy scoring,
//! so results are reproducible.

use vstd::prelude::*;

use crate::text::{
    chars_eq, eq_ignore_ascii_case, eq_ignore_case, lower_chars, lowercase, split_words, to_chars,
    trim, trim_chars, words,
};

verus! {

#[derive(Debug, Clone, Copy, PartialEq, Eq, Structural)]
pub enum Testament {
    Old,
    New,
}

/// A book of the bible with all written/spoken reference variants.
#[derive(Debug, Clone)]
pub struct BibleBook {
    pub id: i32,
    pub name: &'static str,
    pub testament: Testament,
    pub abbreviation: &'static str,
    /// Chapter count for the canonical protestant arrangement. Used for
    /// structural validation of parsed references.
    pub chapters: u16,
    /// Lowercase spoken/written variants, multi-word allowed.
    pub aliases: Vec<&'static str>,
}

/// The mathematical content of a registry entry.
pub struct BookSpec {
    pub id: int,
    pub name: Seq<char>,
    pub testament: Testament,
    pub abbreviation: Seq<char>,
    pub chapters: nat,
    pub aliases: Seq<Seq<char>>,
}

impl View for BibleBook {
    type V = BookSpec;

    open spec fn view(&self) -> BookSpec {
        BookSpec {
            id: self.id as int,
            name: self.name@,
            testament: self.testament,
            abbreviation: self.abbreviation@,
            chapters: self.chapters as nat,
            aliases: self.aliases@.map_values(|a: &str| a@),
        }
    }
}

/// Number of books in the registry.
pub const BOOK_COUNT: usize = 66;

/// The registry entry at position `i` (ids run from 1 to 66 in order).
pub open spec fn spec_book_at(i: int) -> BookSpec {
    if i == 0 {
        BookSpec { id: 1, name: "Genesis"@, testament: Testament::Old, abbreviation: "Gen"@, chapters: 50, aliases: seq!["genesis"@, "gen"@, "gn"@] }
    } else if i == 1 {
        BookSpec { id: 2, name: "Exodus"@, testament: Testament::Old, abbreviation: "Exo"@, chapters: 40, aliases: seq!["exodus"@, "exo"@, "ex"@, "exod"@] }
    } else if i == 2 {
        BookSpec { id: 3, name: "Leviticus"@, testament: Testament::Old, abbreviation: "Lev"@, chapters: 27, aliases: seq!["leviticus"@, "lev"@, "lv"@] }
    } else if i == 3 {
        BookSpec { id: 4, name: "Numbers"@, testament: Testament::Old, abbreviation: "Num"@, chapters: 36, aliases: seq!["numbers"@, "num"@, "nm"@, "nu"@] }
    } else if i == 4 {
        BookSpec { id: 5, name: "Deuteronomy"@, testament: Testament::Old, abbreviation: "Deu"@, chapters: 34, aliases: seq!["deuteronomy"@, "deut"@, "deu"@, "dt"@] }
    } else if i == 5 {
        BookSpec { id: 6, name: "Joshua"@, testament: Testament::Old, abbreviation: "Jos"@, chapters: 24, aliases: seq!["joshua"@, "josh"@, "jos"@, "jsh"@] }
    } else if i == 6 {
        BookSpec { id: 7, name: "Judges"@, testament: Testament::Old, abbreviation: "Jdg"@, chapters: 21, aliases: seq!["judges"@, "judg"@, "jdg"@, "jd"@] }
    } else if i == 7 {
        BookSpec { id: 8, name: "Ruth"@, testament: Testament::Old, abbreviation: "Rut"@, chapters: 4, aliases: seq!["ruth"@, "rut"@] }
    } else if i == 8 {
        BookSpec { id: 9, name: "1 Samuel"@, testament: Testament::Old, abbreviation: "1Sa"@, chapters: 31, aliases: seq!["1 samuel"@, "first samuel"@, "i samuel"@, "1st samuel"@, "one samuel"@, "1sa"@, "1 sam"@, "i sam"@, "1sm"@] }
    } else if i == 9 {
        BookSpec { id: 10, name: "2 Samuel"@, testament: Testament::Old, abbreviation: "2Sa"@, chapters: 24, aliases: seq!["2 samuel"@, "second samuel"@, "ii samuel"@, "2nd samuel"@, "2sa"@, "2 sam"@, "2sm"@] }
    } else if i == 10 {
        BookSpec { id: 11, name: "1 Kings"@, testament: Testament::Old, abbreviation: "1Ki"@, chapters: 22, aliases: seq!["1 kings"@, "first kings"@, "i kings"@, "1st kings"@, "1ki"@, "1 kgs"@] }
    } else if i == 11 {
        BookSpec { id: 12, name: "2 Kings"@, testament: Testament::Old, abbreviation: "2Ki"@, chapters: 25, aliases: seq!["2 kings"@, "second kings"@, "ii kings"@, "2nd kings"@, "2ki"@, "2 kgs"@] }
    } else if i == 12 {
        BookSpec { id: 13, name: "1 Chronicles"@, testament: Testament::Old, abbreviation: "1Ch"@, chapters: 29, aliases: seq!["1 chronicles"@, "first chronicles"@, "i chronicles"@, "1st chronicles"@, "1ch"@, "1 chron"@] }
    } else if i == 13 {
        BookSpec { id: 14, name: "2 Chronicles"@, testament: Testament::Old, abbreviation: "2Ch"@, chapters: 36, aliases: seq!["2 chronicles"@, "second chronicles"@, "ii chronicles"@, "2nd chronicles"@, "2ch"@, "2 chron"@] }
    } else if i == 14 {
        BookSpec { id: 15, name: "Ezra"@, testament: Testament::Old, abbreviation: "Ezr"@, chapters: 10, aliases: seq!["ezra"@, "ezr"@] }
    } else if i == 15 {
        BookSpec { id: 16, name: "Nehemiah"@, testament: Testament::Old, abbreviation: "Neh"@, chapters: 13, aliases: seq!["nehemiah"@, "neh"@] }
    } else if i == 16 {
        BookSpec { id: 17, name: "Esther"@, testament: Testament::Old, abbreviation: "Est"@, chapters: 10, aliases: seq!["esther"@, "est"@] }
    } else if i == 17 {
        BookSpec { id: 18, name: "Job"@, testament: Testament::Old, abbreviation: "Job"@, chapters: 42, aliases: seq!["job"@] }
    } else if i == 18 {
        BookSpec { id: 19, name: "Psalms"@, testament: Testament::Old, abbreviation: "Psa"@, chapters: 150, aliases: seq!["psalms"@, "psalm"@, "psa"@, "ps"@, "pslm"@] }
    } else if i == 19 {
        BookSpec { id: 20, name: "Proverbs"@, testament: Testament::Old, abbreviation: "Pro"@, chapters: 31, aliases: seq!["proverbs"@, "proverb"@, "prov"@, "pro"@] }
    } else if i == 20 {
        BookSpec { id: 21, name: "Ecclesiastes"@, testament: Testament::Old, abbreviation: "Ecc"@, chapters: 12, aliases: seq!["ecclesiastes"@, "eccles"@, "ecc"@, "eccl"@, "qc"@] }
    } else if i == 21 {
        BookSpec { id: 22, name: "Song of Solomon"@, testament: Testament::Old, abbreviation: "Sng"@, chapters: 8, aliases: seq!["song of solomon"@, "song of songs"@, "song of song"@, "songs"@, "canticles"@, "sng"@, "sos"@, "so"@] }
    } else if i == 22 {
        BookSpec { id: 23, name: "Isaiah"@, testament: Testament::Old, abbreviation: "Isa"@, chapters: 66, aliases: seq!["isaiah"@, "isa"@, "is"@] }
    } else if i == 23 {
        BookSpec { id: 24, name: "Jeremiah"@, testament: Testament::Old, abbreviation: "Jer"@, chapters: 52, aliases: seq!["jeremiah"@, "jeremias"@, "jer"@, "jr"@] }
    } else if i == 24 {
        BookSpec { id: 25, name: "Lamentations"@, testament: Testament::Old, abbreviation: "Lam"@, chapters: 5, aliases: seq!["lamentations"@, "lamentation"@, "lam"@] }
    } else if i == 25 {
        BookSpec { id: 26, name: "Ezekiel"@, testament: Testament::Old, abbreviation: "Ezk"@, chapters: 48, aliases: seq!["ezekiel"@, "ezek"@, "ezk"@, "eze"@] }
    } else if i == 26 {
        BookSpec { id: 27, name: "Daniel"@, testament: Testament::Old, abbreviation: "Dan"@, chapters: 12, aliases: seq!["daniel"@, "dan"@] }
    } else if i == 27 {
        BookSpec { id: 28, name: "Hosea"@, testament: Testament::Old, abbreviation: "Hos"@, chapters: 14, aliases: seq!["hosea"@, "hos"@] }
    } else if i == 28 {
        BookSpec { id: 29, name: "Joel"@, testament: Testament::Old, abbreviation: "Jol"@, chapters: 3, aliases: seq!["joel"@, "jol"@] }
    } else if i == 29 {
        BookSpec { id: 30, name: "Amos"@, testament: Testament::Old, abbreviation: "Amo"@, chapters: 9, aliases: seq!["amos"@, "amo"@] }
    } else if i == 30 {
        BookSpec { id: 31, name: "Obadiah"@, testament: Testament::Old, abbreviation: "Oba"@, chapters: 1, aliases: seq!["obadiah"@, "oba"@, "abdias"@] }
    } else if i == 31 {
        BookSpec { id: 32, name: "Jonah"@, testament: Testament::Old, abbreviation: "Jon"@, chapters: 4, aliases: seq!["jonah"@, "jon"@] }
    } else if i == 32 {
        BookSpec { id: 33, name: "Micah"@, testament: Testament::Old, abbreviation: "Mic"@, chapters: 7, aliases: seq!["micah"@, "mic"@] }
    } else if i == 33 {
        BookSpec { id: 34, name: "Nahum"@, testament: Testament::Old, abbreviation: "Nam"@, chapters: 3, aliases: seq!["nahum"@, "nam"@] }
    } else if i == 34 {
        BookSpec { id: 35, name: "Habakkuk"@, testament: Testament::Old, abbreviation: "Hab"@, chapters: 3, aliases: seq!["habakkuk"@, "hab"@] }
    } else if i == 35 {
        BookSpec { id: 36, name: "Zephaniah"@, testament: Testament::Old, abbreviation: "Zep"@, chapters: 3, aliases: seq!["zephaniah"@, "zeph"@, "zep"@] }
    } else if i == 36 {
        BookSpec { id: 37, name: "Haggai"@, testament: Testament::Old, abbreviation: "Hag"@, chapters: 2, aliases: seq!["haggai"@, "hag"@] }
    } else if i == 37 {
        BookSpec { id: 38, name: "Zechariah"@, testament: Testament::Old, abbreviation: "Zec"@, chapters: 14, aliases: seq!["zechariah"@, "zechar"@, "zec"@] }
    } else if i == 38 {
        BookSpec { id: 39, name: "Malachi"@, testament: Testament::Old, abbreviation: "Mal"@, chapters: 4, aliases: seq!["malachi"@, "mal"@] }
    } else if i == 39 {
        BookSpec { id: 40, name: "Matthew"@, testament: Testament::New, abbreviation: "Mat"@, chapters: 28, aliases: seq!["matthew"@, "matt"@, "mat"@, "mt"@] }
    } else if i == 40 {
        BookSpec { id: 41, name: "Mark"@, testament: Testament::New, abbreviation: "Mar"@, chapters: 16, aliases: seq!["mark"@, "mar"@, "mk"@] }
    } else if i == 41 {
        BookSpec { id: 42, name: "Luke"@, testament: Testament::New, abbreviation: "Luk"@, chapters: 24, aliases: seq!["luke"@, "luk"@, "lk"@] }
    } else if i == 42 {
        BookSpec { id: 43, name: "John"@, testament: Testament::New, abbreviation: "Jhn"@, chapters: 21, aliases: seq!["john"@, "jhn"@, "joh"@, "jn"@] }
    } else if i == 43 {
        BookSpec { id: 44, name: "Acts"@, testament: Testament::New, abbreviation: "Act"@, chapters: 28, aliases: seq!["acts"@, "act"@, "ac"@] }
    } else if i == 44 {
        BookSpec { id: 45, name: "Romans"@, testament: Testament::New, abbreviation: "Rom"@, chapters: 16, aliases: seq!["romans"@, "rom"@, "rm"@] }
    } else if i == 45 {
        BookSpec { id: 46, name: "1 Corinthians"@, testament: Testament::New, abbreviation: "1Co"@, chapters: 16, aliases: seq!["1 corinthians"@, "first corinthians"@, "i corinthians"@, "1st corinthians"@, "one corinthians"@, "1co"@, "1 cor"@, "i cor"@] }
    } else if i == 46 {
        BookSpec { id: 47, name: "2 Corinthians"@, testament: Testament::New, abbreviation: "2Co"@, chapters: 13, aliases: seq!["2 corinthians"@, "second corinthians"@, "ii corinthians"@, "2nd corinthians"@, "2co"@, "2 cor"@] }
    } else if i == 47 {
        BookSpec { id: 48, name: "Galatians"@, testament: Testament::New, abbreviation: "Gal"@, chapters: 6, aliases: seq!["galatians"@, "gal"@] }
    } else if i == 48 {
        BookSpec { id: 49, name: "Ephesians"@, testament: Testament::New, abbreviation: "Eph"@, chapters: 6, aliases: seq!["ephesians"@, "eph"@] }
    } else if i == 49 {
        BookSpec { id: 50, name: "Philippians"@, testament: Testament::New, abbreviation: "Php"@, chapters: 4, aliases: seq!["philippians"@, "phil"@, "php"@, "pp"@] }
    } else if i == 50 {
        BookSpec { id: 51, name: "Colossians"@, testament: Testament::New, abbreviation: "Col"@, chapters: 4, aliases: seq!["colossians"@, "col"@] }
    } else if i == 51 {
        BookSpec { id: 52, name: "1 Thessalonians"@, testament: Testament::New, abbreviation: "1Th"@, chapters: 5, aliases: seq!["1 thessalonians"@, "first thessalonians"@, "i thessalonians"@, "1st thessalonians"@, "1th"@, "1 thess"@] }
    } else if i == 52 {
        BookSpec { id: 53, name: "2 Thessalonians"@, testament: Testament::New, abbreviation: "2Th"@, chapters: 3, aliases: seq!["2 thessalonians"@, "second thessalonians"@, "ii thessalonians"@, "2nd thessalonians"@, "2th"@, "2 thess"@] }
    } else if i == 53 {
        BookSpec { id: 54, name: "1 Timothy"@, testament: Testament::New, abbreviation: "1Ti"@, chapters: 6, aliases: seq!["1 timothy"@, "first timothy"@, "i timothy"@, "1st timothy"@, "1ti"@, "1 tim"@] }
    } else if i == 54 {
        BookSpec { id: 55, name: "2 Timothy"@, testament: Testament::New, abbreviation: "2Ti"@, chapters: 4, aliases: seq!["2 timothy"@, "second timothy"@, "ii timothy"@, "2nd timothy"@, "2ti"@, "2 tim"@] }
    } else if i == 55 {
        BookSpec { id: 56, name: "Titus"@, testament: Testament::New, abbreviation: "Tit"@, chapters: 3, aliases: seq!["titus"@, "tit"@] }
    } else if i == 56 {
        BookSpec { id: 57, name: "Philemon"@, testament: Testament::New, abbreviation: "Phm"@, chapters: 1, aliases: seq!["philemon"@, "philomon"@, "phm"@, "phlm"@] }
    } else if i == 57 {
        BookSpec { id: 58, name: "Hebrews"@, testament: Testament::New, abbreviation: "Heb"@, chapters: 13, aliases: seq!["hebrews"@, "heb"@] }
    } else if i == 58 {
        BookSpec { id: 59, name: "James"@, testament: Testament::New, abbreviation: "Jas"@, chapters: 5, aliases: seq!["james"@, "jas"@, "jm"@] }
    } else if i == 59 {
        BookSpec { id: 60, name: "1 Peter"@, testament: Testament::New, abbreviation: "1Pe"@, chapters: 5, aliases: seq!["1 peter"@, "first peter"@, "i peter"@, "1st peter"@, "1pe"@, "1 pet"@] }
    } else if i == 60 {
        BookSpec { id: 61, name: "2 Peter"@, testament: Testament::New, abbreviation: "2Pe"@, chapters: 3, aliases: seq!["2 peter"@, "second peter"@, "ii peter"@, "2nd peter"@, "2pe"@, "2 pet"@] }
    } else if i == 61 {
        BookSpec { id: 62, name: "1 John"@, testament: Testament::New, abbreviation: "1Jn"@, chapters: 5, aliases: seq!["1 john"@, "first john"@, "i john"@, "1st john"@, "1jn"@, "1 jn"@] }
    } else if i == 62 {
        BookSpec { id: 63, name: "2 John"@, testament: Testament::New, abbreviation: "2Jn"@, chapters: 1, aliases: seq!["2 john"@, "second john"@, "ii john"@, "2nd john"@, "2jn"@, "2 jn"@] }
    } else if i == 63 {
        BookSpec { id: 64, name: "3 John"@, testament: Testament::New, abbreviation: "3Jn"@, chapters: 1, aliases: seq!["3 john"@, "third john"@, "iii john"@, "3rd john"@, "3jn"@, "3 jn"@] }
    } else if i == 64 {
        BookSpec { id: 65, name: "Jude"@, testament: Testament::New, abbreviation: "Jud"@, chapters: 1, aliases: seq!["jude"@, "jud"@] }
    } else {
        BookSpec { id: 66, name: "Revelation"@, testament: Testament::New, abbreviation: "Rev"@, chapters: 22, aliases: seq!["revelation"@, "revelations"@, "rev"@, "revelation of john"@, "apocalypse"@] }
    }
}

/// The registry entry at position `i`.
fn book_at(i: usize) -> (b: BibleBook)
    requires
        i < 66,
    ensures
        b@ == spec_book_at(i as int),
{
    let b = match i {
        0 => BibleBook { id: 1, name: "Genesis", testament: Testament::Old, abbreviation: "Gen", chapters: 50, aliases: vec!["genesis", "gen", "gn"] },
        1 => BibleBook { id: 2, name: "Exodus", testament: Testament::Old, abbreviation: "Exo", chapters: 40, aliases: vec!["exodus", "exo", "ex", "exod"] },
        2 => BibleBook { id: 3, name: "Leviticus", testament: Testament::Old, abbreviation: "Lev", chapters: 27, aliases: vec!["leviticus", "lev", "lv"] },
        3 => BibleBook { id: 4, name: "Numbers", testament: Testament::Old, abbreviation: "Num", chapters: 36, aliases: vec!["numbers", "num", "nm", "nu"] },
        4 => BibleBook { id: 5, name: "Deuteronomy", testament: Testament::Old, abbreviation: "Deu", chapters: 34, aliases: vec!["deuteronomy", "deut", "deu", "dt"] },
        5 => BibleBook { id: 6, name: "Joshua", testament: Testament::Old, abbreviation: "Jos", chapters: 24, aliases: vec!["joshua", "josh", "jos", "jsh"] },
        6 => BibleBook { id: 7, name: "Judges", testament: Testament::Old, abbreviation: "Jdg", chapters: 21, aliases: vec!["judges", "judg", "jdg", "jd"] },
        7 => BibleBook { id: 8, name: "Ruth", testament: Testament::Old, abbreviation: "Rut", chapters: 4, aliases: vec!["ruth", "rut"] },
        8 => BibleBook { id: 9, name: "1 Samuel", testament: Testament::Old, abbreviation: "1Sa", chapters: 31, aliases: vec!["1 samuel", "first samuel", "i samuel", "1st samuel", "one samuel", "1sa", "1 sam", "i sam", "1sm"] },
        9 => BibleBook { id: 10, name: "2 Samuel", testament: Testament::Old, abbreviation: "2Sa", chapters: 24, aliases: vec!["2 samuel", "second samuel", "ii samuel", "2nd samuel", "2sa", "2 sam", "2sm"] },
        10 => BibleBook { id: 11, name: "1 Kings", testament: Testament::Old, abbreviation: "1Ki", chapters: 22, aliases: vec!["1 kings", "first kings", "i kings", "1st kings", "1ki", "1 kgs"] },
        11 => BibleBook { id: 12, name: "2 Kings", testament: Testament::Old, abbreviation: "2Ki", chapters: 25, aliases: vec!["2 kings", "second kings", "ii kings", "2nd kings", "2ki", "2 kgs"] },
        12 => BibleBook { id: 13, name: "1 Chronicles", testament: Testament::Old, abbreviation: "1Ch", chapters: 29, aliases: vec!["1 chronicles", "first chronicles", "i chronicles", "1st chronicles", "1ch", "1 chron"] },
        13 => BibleBook { id: 14, name: "2 Chronicles", testament: Testament::Old, abbreviation: "2Ch", chapters: 36, aliases: vec!["2 chronicles", "second chronicles", "ii chronicles", "2nd chronicles", "2ch", "2 chron"] },
        14 => BibleBook { id: 15, name: "Ezra", testament: Testament::Old, abbreviation: "Ezr", chapters: 10, aliases: vec!["ezra", "ezr"] },
        15 => BibleBook { id: 16, name: "Nehemiah", testament: Testament::Old, abbreviation: "Neh", chapters: 13, aliases: vec!["nehemiah", "neh"] },
        16 => BibleBook { id: 17, name: "Esther", testament: Testament::Old, abbreviation: "Est", chapters: 10, aliases: vec!["esther", "est"] },
        17 => BibleBook { id: 18, name: "Job", testament: Testament::Old, abbreviation: "Job", chapters: 42, aliases: vec!["job"] },
        18 => BibleBook { id: 19, name: "Psalms", testament: Testament::Old, abbreviation: "Psa", chapters: 150, aliases: vec!["psalms", "psalm", "psa", "ps", "pslm"] },
        19 => BibleBook { id: 20, name: "Proverbs", testament: Testament::Old, abbreviation: "Pro", chapters: 31, aliases: vec!["proverbs", "proverb", "prov", "pro"] },
        20 => BibleBook { id: 21, name: "Ecclesiastes", testament: Testament::Old, abbreviation: "Ecc", chapters: 12, aliases: vec!["ecclesiastes", "eccles", "ecc", "eccl", "qc"] },
        21 => BibleBook { id: 22, name: "Song of Solomon", testament: Testament::Old, abbreviation: "Sng", chapters: 8, aliases: vec!["song of solomon", "song of songs", "song of song", "songs", "canticles", "sng", "sos", "so"] },
        22 => BibleBook { id: 23, name: "Isaiah", testament: Testament::Old, abbreviation: "Isa", chapters: 66, aliases: vec!["isaiah", "isa", "is"] },
        23 => BibleBook { id: 24, name: "Jeremiah", testament: Testament::Old, abbreviation: "Jer", chapters: 52, aliases: vec!["jeremiah", "jeremias", "jer", "jr"] },
        24 => BibleBook { id: 25, name: "Lamentations", testament: Testament::Old, abbreviation: "Lam", chapters: 5, aliases: vec!["lamentations", "lamentation", "lam"] },
        25 => BibleBook { id: 26, name: "Ezekiel", testament: Testament::Old, abbreviation: "Ezk", chapters: 48, aliases: vec!["ezekiel", "ezek", "ezk", "eze"] },
        26 => BibleBook { id: 27, name: "Daniel", testament: Testament::Old, abbreviation: "Dan", chapters: 12, aliases: vec!["daniel", "dan"] },
        27 => BibleBook { id: 28, name: "Hosea", testament: Testament::Old, abbreviation: "Hos", chapters: 14, aliases: vec!["hosea", "hos"] },
        28 => BibleBook { id: 29, name: "Joel", testament: Testament::Old, abbreviation: "Jol", chapters: 3, aliases: vec!["joel", "jol"] },
        29 => BibleBook { id: 30, name: "Amos", testament: Testament::Old, abbreviation: "Amo", chapters: 9, aliases: vec!["amos", "amo"] },
        30 => BibleBook { id: 31, name: "Obadiah", testament: Testament::Old, abbreviation: "Oba", chapters: 1, aliases: vec!["obadiah", "oba", "abdias"] },
        31 => BibleBook { id: 32, name: "Jonah", testament: Testament::Old, abbreviation: "Jon", chapters: 4, aliases: vec!["jonah", "jon"] },
        32 => BibleBook { id: 33, name: "Micah", testament: Testament::Old, abbreviation: "Mic", chapters: 7, aliases: vec!["micah", "mic"] },
        33 => BibleBook { id: 34, name: "Nahum", testament: Testament::Old, abbreviation: "Nam", chapters: 3, aliases: vec!["nahum", "nam"] },
        34 => BibleBook { id: 35, name: "Habakkuk", testament: Testament::Old, abbreviation: "Hab", chapters: 3, aliases: vec!["habakkuk", "hab"] },
        35 => BibleBook { id: 36, name: "Zephaniah", testament: Testament::Old, abbreviation: "Zep", chapters: 3, aliases: vec!["zephaniah", "zeph", "zep"] },
        36 => BibleBook { id: 37, name: "Haggai", testament: Testament::Old, abbreviation: "Hag", chapters: 2, aliases: vec!["haggai", "hag"] },
        37 => BibleBook { id: 38, name: "Zechariah", testament: Testament::Old, abbreviation: "Zec", chapters: 14, aliases: vec!["zechariah", "zechar", "zec"] },
        38 => BibleBook { id: 39, name: "Malachi", testament: Testament::Old, abbreviation: "Mal", chapters: 4, aliases: vec!["malachi", "mal"] },
        39 => BibleBook { id: 40, name: "Matthew", testament: Testament::New, abbreviation: "Mat", chapters: 28, aliases: vec!["matthew", "matt", "mat", "mt"] },
        40 => BibleBook { id: 41, name: "Mark", testament: Testament::New, abbreviation: "Mar", chapters: 16, aliases: vec!["mark", "mar", "mk"] },
        41 => BibleBook { id: 42, name: "Luke", testament: Testament::New, abbreviation: "Luk", chapters: 24, aliases: vec!["luke", "luk", "lk"] },
        42 => BibleBook { id: 43, name: "John", testament: Testament::New, abbreviation: "Jhn", chapters: 21, aliases: vec!["john", "jhn", "joh", "jn"] },
        43 => BibleBook { id: 44, name: "Acts", testament: Testament::New, abbreviation: "Act", chapters: 28, aliases: vec!["acts", "act", "ac"] },
        44 => BibleBook { id: 45, name: "Romans", testament: Testament::New, abbreviation: "Rom", chapters: 16, aliases: vec!["romans", "rom", "rm"] },
        45 => BibleBook { id: 46, name: "1 Corinthians", testament: Testament::New, abbreviation: "1Co", chapters: 16, aliases: vec!["1 corinthians", "first corinthians", "i corinthians", "1st corinthians", "one corinthians", "1co", "1 cor", "i cor"] },
        46 => BibleBook { id: 47, name: "2 Corinthians", testament: Testament::New, abbreviation: "2Co", chapters: 13, aliases: vec!["2 corinthians", "second corinthians", "ii corinthians", "2nd corinthians", "2co", "2 cor"] },
        47 => BibleBook { id: 48, name: "Galatians", testament: Testament::New, abbreviation: "Gal", chapters: 6, aliases: vec!["galatians", "gal"] },
        48 => BibleBook { id: 49, name: "Ephesians", testament: Testament::New, abbreviation: "Eph", chapters: 6, aliases: vec!["ephesians", "eph"] },
        49 => BibleBook { id: 50, name: "Philippians", testament: Testament::New, abbreviation: "Php", chapters: 4, aliases: vec!["philippians", "phil", "php", "pp"] },
        50 => BibleBook { id: 51, name: "Colossians", testament: Testament::New, abbreviation: "Col", chapters: 4, aliases: vec!["colossians", "col"] },
        51 => BibleBook { id: 52, name: "1 Thessalonians", testament: Testament::New, abbreviation: "1Th", chapters: 5, aliases: vec!["1 thessalonians", "first thessalonians", "i thessalonians", "1st thessalonians", "1th", "1 thess"] },
        52 => BibleBook { id: 53, name: "2 Thessalonians", testament: Testament::New, abbreviation: "2Th", chapters: 3, aliases: vec!["2 thessalonians", "second thessalonians", "ii thessalonians", "2nd thessalonians", "2th", "2 thess"] },
        53 => BibleBook { id: 54, name: "1 Timothy", testament: Testament::New, abbreviation: "1Ti", chapters: 6, aliases: vec!["1 timothy", "first timothy", "i timothy", "1st timothy", "1ti", "1 tim"] },
        54 => BibleBook { id: 55, name: "2 Timothy", testament: Testament::New, abbreviation: "2Ti", chapters: 4, aliases: vec!["2 timothy", "second timothy", "ii timothy", "2nd timothy", "2ti", "2 tim"] },
        55 => BibleBook { id: 56, name: "Titus", testament: Testament::New, abbreviation: "Tit", chapters: 3, aliases: vec!["titus", "tit"] },
        56 => BibleBook { id: 57, name: "Philemon", testament: Testament::New, abbreviation: "Phm", chapters: 1, aliases: vec!["philemon", "philomon", "phm", "phlm"] },
        57 => BibleBook { id: 58, name: "Hebrews", testament: Testament::New, abbreviation: "Heb", chapters: 13, aliases: vec!["hebrews", "heb"] },
        58 => BibleBook { id: 59, name: "James", testament: Testament::New, abbreviation: "Jas", chapters: 5, aliases: vec!["james", "jas", "jm"] },
        59 => BibleBook { id: 60, name: "1 Peter", testament: Testament::New, abbreviation: "1Pe", chapters: 5, aliases: vec!["1 peter", "first peter", "i peter", "1st peter", "1pe", "1 pet"] },
        60 => BibleBook { id: 61, name: "2 Peter", testament: Testament::New, abbreviation: "2Pe", chapters: 3, aliases: vec!["2 peter", "second peter", "ii peter", "2nd peter", "2pe", "2 pet"] },
        61 => BibleBook { id: 62, name: "1 John", testament: Testament::New, abbreviation: "1Jn", chapters: 5, aliases: vec!["1 john", "first john", "i john", "1st john", "1jn", "1 jn"] },
        62 => BibleBook { id: 63, name: "2 John", testament: Testament::New, abbreviation: "2Jn", chapters: 1, aliases: vec!["2 john", "second john", "ii john", "2nd john", "2jn", "2 jn"] },
        63 => BibleBook { id: 64, name: "3 John", testament: Testament::New, abbreviation: "3Jn", chapters: 1, aliases: vec!["3 john", "third john", "iii john", "3rd john", "3jn", "3 jn"] },
        64 => BibleBook { id: 65, name: "Jude", testament: Testament::New, abbreviation: "Jud", chapters: 1, aliases: vec!["jude", "jud"] },
        _ => BibleBook { id: 66, name: "Revelation", testament: Testament::New, abbreviation: "Rev", chapters: 22, aliases: vec!["revelation", "revelations", "rev", "revelation of john", "apocalypse"] },
    };
    assert(b@.aliases =~= spec_book_at(i as int).aliases);
    b
}

/// The whole registry, in canonical order.
pub open spec fn spec_books() -> Seq<BookSpec> {
    Seq::new(66, |i: int| spec_book_at(i))
}

/// Entry `i` of the registry has id `i + 1`.
pub proof fn lemma_book_ids()
    ensures
        forall|i: int| 0 <= i < 66 ==> #[trigger] spec_book_at(i).id == i + 1,
{
}

/// Looking a book up by its id gives that book back: every id from 1 to 66
/// names a book, and the book carries that id.
pub proof fn lemma_book_by_id_roundtrip(id: int)
    requires
        1 <= id <= 66,
    ensures
        spec_book_by_id(id) matches Some(b) && b.id == id,
{
    lemma_book_ids();
}

/// The canonical book for a numeric id (`None` outside 1..=66).
pub open spec fn spec_book_by_id(id: int) -> Option<BookSpec> {
    if 1 <= id <= 66 {
        Some(spec_book_at(id - 1))
    } else {
        None
    }
}

/// Returns the canonical book for a numeric id.
pub fn book_by_id(id: i32) -> (r: Option<BibleBook>)
    ensures
        match r {
            Some(b) => spec_book_by_id(id as int) == Some(b@),
            None => spec_book_by_id(id as int) is None,
        },
{
    if 1 <= id && id <= 66 {
        Some(book_at((id - 1) as usize))
    } else {
        None
    }
}

/// Whether book `k` is the first whose name, lowercased, equals `key`.
pub open spec fn is_first_named(key: Seq<char>, k: int) -> bool {
    &&& 0 <= k < 66
    &&& lowercase(spec_book_at(k).name) == key
    &&& forall|m: int| 0 <= m < k ==> lowercase(#[trigger] spec_book_at(m).name) != key
}

/// Index of the first book whose name, lowercased, equals `key`.
pub open spec fn spec_name_index(key: Seq<char>) -> Option<int> {
    if exists|k: int| 0 <= k < 66 && lowercase(#[trigger] spec_book_at(k).name) == key {
        Some(choose|k: int| #[trigger] is_first_named(key, k))
    } else {
        None
    }
}

/// The book whose canonical name matches `name`, ignoring case and
/// surrounding whitespace.
pub open spec fn spec_book_by_name(name: Seq<char>) -> Option<BookSpec> {
    match spec_name_index(lowercase(trim(name))) {
        Some(k) => Some(spec_book_at(k)),
        None => None,
    }
}

/// Returns the canonical book whose canonical name matches.
pub fn book_by_name(name: &str) -> (r: Option<BibleBook>)
    ensures
        match r {
            Some(b) => spec_book_by_name(name@) == Some(b@),
            None => spec_book_by_name(name@) is None,
        },
{
    let chars = to_chars(name);
    let trimmed = trim_chars(&chars);
    let key = lower_chars(&trimmed);
    let ghost g = key@;
    let mut k: usize = 0;
    while k < BOOK_COUNT
        invariant
            k <= 66,
            g == key@,
            g == lowercase(trim(name@)),
            forall|m: int| 0 <= m < k ==> lowercase(#[trigger] spec_book_at(m).name) != g,
        decreases 66 - k,
    {
        let book = book_at(k);
        let book_name = to_chars(book.name);
        let lowered = lower_chars(&book_name);
        if chars_eq(&lowered, &key) {
            proof {
                let kk = k as int;
                assert(lowercase(spec_book_at(kk).name) == g);
                assert(is_first_named(g, kk));
                let c = choose|c: int| #[trigger] is_first_named(g, c);
                assert(is_first_named(g, c));
                if c < kk {
                    assert(lowercase(spec_book_at(c).name) != g);
                }
                if c > kk {
                    assert(lowercase(spec_book_at(kk).name) != g);
                }
                assert(g == lowercase(trim(name@)));
                assert(spec_name_index(g) == Some(kk));
            }
            return Some(book);
        }
        k = k + 1;
    }
    None
}

/// The tokens as character sequences.
pub open spec fn token_views(tokens: Seq<&str>) -> Seq<Seq<char>> {
    tokens.map_values(|t: &str| t@)
}

/// Whether `alias` matches the tokens starting at `start`: every word of the
/// alias equals the corresponding token, ignoring ASCII case.
pub open spec fn alias_matches_at(tokens: Seq<Seq<char>>, start: int, alias: Seq<char>) -> bool {
    let w = words(alias);
    &&& w.len() > 0
    &&& 0 <= start
    &&& start + w.len() <= tokens.len()
    &&& forall|i: int| 0 <= i < w.len() ==> eq_ignore_case(#[trigger] tokens[start + i], w[i])
}

/// The number of tokens alias `j` of book `k` covers at `start`, or 0 when it
/// does not match there.
pub open spec fn alias_match_len(tokens: Seq<Seq<char>>, start: int, k: int, j: int) -> int {
    if 0 <= k < 66 && 0 <= j < spec_book_at(k).aliases.len() && alias_matches_at(
        tokens,
        start,
        spec_book_at(k).aliases[j],
    ) {
        words(spec_book_at(k).aliases[j]).len() as int
    } else {
        0
    }
}

/// Whether some alias of some book matches at `start`.
pub open spec fn some_alias_matches(tokens: Seq<Seq<char>>, start: int) -> bool {
    exists|k: int, j: int| #[trigger] alias_match_len(tokens, start, k, j) > 0
}

/// Whether `len` is the length of the longest alias match at `start`.
pub open spec fn is_longest(tokens: Seq<Seq<char>>, start: int, len: int) -> bool {
    &&& len > 0
    &&& exists|k: int, j: int| #[trigger] alias_match_len(tokens, start, k, j) == len
    &&& forall|k: int, j: int| #[trigger] alias_match_len(tokens, start, k, j) <= len
}

/// The longest match length at `start` (meaningful when one exists).
pub open spec fn longest_match(tokens: Seq<Seq<char>>, start: int) -> int {
    choose|len: int| #[trigger] is_longest(tokens, start, len)
}

/// Whether book `k` is the first (in registry order) with an alias of length
/// `len` matching at `start`.
pub open spec fn is_first_with(tokens: Seq<Seq<char>>, start: int, len: int, k: int) -> bool {
    &&& exists|j: int| #[trigger] alias_match_len(tokens, start, k, j) == len
    &&& forall|m: int, j: int| 0 <= m < k ==> #[trigger] alias_match_len(tokens, start, m, j) < len
}

/// The first book (in registry order) that has an alias of the longest length
/// matching at `start`.
pub open spec fn first_longest_book(tokens: Seq<Seq<char>>, start: int) -> int {
    let len = longest_match(tokens, start);
    choose|k: int| #[trigger] is_first_with(tokens, start, len, k)
}

/// The book resolved at `start` and the number of tokens it covers: the
/// longest matching alias wins, and among equally long matches the book that
/// comes first in the registry.
pub open spec fn spec_find_book(tokens: Seq<Seq<char>>, start: int) -> Option<(int, int)> {
    if some_alias_matches(tokens, start) {
        Some((first_longest_book(tokens, start), longest_match(tokens, start)))
    } else {
        None
    }
}

/// Whether alias `words` matches the (character) tokens at `start`.
fn words_match_at(toks: &Vec<Vec<char>>, start: usize, ws: &Vec<Vec<char>>) -> (r: bool)
    ensures
        r == (ws@.len() > 0 && start + ws@.len() <= toks@.len() && forall|i: int|
            0 <= i < ws@.len() ==> eq_ignore_case(#[trigger] toks@[start + i]@, ws@[i]@)),
{
    if ws.len() == 0 || start > toks.len() || ws.len() > toks.len() - start {
        return false;
    }
    let mut i: usize = 0;
    while i < ws.len()
        invariant
            ws@.len() > 0,
            start + ws.len() <= toks.len(),
            i <= ws.len(),
            forall|m: int| 0 <= m < i ==> eq_ignore_case(#[trigger] toks@[start + m]@, ws@[m]@),
        decreases ws.len() - i,
    {
        if !eq_ignore_ascii_case(&toks[start + i], &ws[i]) {
            return false;
        }
        i = i + 1;
    }
    true
}

/// Resolves a book given a slice of tokens starting at `start`. Prefers the
/// longest alias match. Returns the book and the number of tokens consumed.
pub fn find_book(tokens: &[&str], start: usize) -> (r: Option<(BibleBook, usize)>)
    ensures
        match (r, spec_find_book(token_views(tokens@), start as int)) {
            (None, None) => true,
            (Some((b, n)), Some((k, len))) => 0 <= k < 66 && b@ == spec_book_at(k) && n == len,
            _ => false,
        },
        r matches Some((_, n)) ==> n >= 1 && start + n <= tokens@.len(),
{
    let ghost tv = token_views(tokens@);
    let mut toks: Vec<Vec<char>> = Vec::new();
    let mut t: usize = 0;
    while t < tokens.len()
        invariant
            t <= tokens@.len(),
            toks@.len() == t,
            tv == token_views(tokens@),
            forall|i: int| 0 <= i < t ==> #[trigger] toks@[i]@ == tv[i],
        decreases tokens.len() - t,
    {
        toks.push(to_chars(tokens[t]));
        t = t + 1;
    }
    let mut best_k: usize = 0;
    let mut best_len: usize = 0;
    let mut k: usize = 0;
    while k < BOOK_COUNT
        invariant
            k <= 66,
            best_k < 66,
            tv == token_views(tokens@),
            toks@.len() == tv.len(),
            forall|i: int| 0 <= i < tv.len() ==> #[trigger] toks@[i]@ == tv[i],
            best_len == 0 ==> forall|m: int, j: int|
                0 <= m < k ==> #[trigger] alias_match_len(tv, start as int, m, j) == 0,
            best_len > 0 ==> best_k < k && (exists|j: int|
                #[trigger] alias_match_len(tv, start as int, best_k as int, j) == best_len),
            best_len > 0 ==> forall|m: int, j: int|
                0 <= m < k ==> #[trigger] alias_match_len(tv, start as int, m, j) <= best_len,
            best_len > 0 ==> forall|m: int, j: int|
                0 <= m < best_k ==> #[trigger] alias_match_len(tv, start as int, m, j) < best_len,
        decreases 66 - k,
    {
        let book = book_at(k);
        let ghost bk = spec_book_at(k as int);
        let mut j: usize = 0;
        while j < book.aliases.len()
            invariant
                k < 66,
                best_k < 66,
                book@ == bk,
                bk == spec_book_at(k as int),
                j <= book.aliases@.len(),
                tv == token_views(tokens@),
                toks@.len() == tv.len(),
                forall|i: int| 0 <= i < tv.len() ==> #[trigger] toks@[i]@ == tv[i],
                best_len == 0 ==> forall|m: int, jj: int|
                    0 <= m < k ==> #[trigger] alias_match_len(tv, start as int, m, jj) == 0,
                best_len == 0 ==> forall|jj: int|
                    0 <= jj < j ==> #[trigger] alias_match_len(tv, start as int, k as int, jj)
                        == 0,
                best_len > 0 ==> best_k <= k && (exists|jj: int|
                    #[trigger] alias_match_len(tv, start as int, best_k as int, jj) == best_len),
                best_len > 0 ==> forall|m: int, jj: int|
                    0 <= m < k ==> #[trigger] alias_match_len(tv, start as int, m, jj) <= best_len,
                best_len > 0 ==> forall|jj: int|
                    0 <= jj < j ==> #[trigger] alias_match_len(tv, start as int, k as int, jj)
                        <= best_len,
                best_len > 0 ==> forall|m: int, jj: int|
                    0 <= m < best_k ==> #[trigger] alias_match_len(tv, start as int, m, jj)
                        < best_len,
            decreases book.aliases@.len() - j,
        {
            let alias_chars = to_chars(book.aliases[j]);
            let ws = split_words(&alias_chars);
            let ghost wv = ws@.map_values(|w: Vec<char>| w@);
            assert(alias_chars@ == bk.aliases[j as int]);
            let m = words_match_at(&toks, start, &ws);
            proof {
                assert(wv.len() == ws@.len());
                let aml = alias_match_len(tv, start as int, k as int, j as int);
                if m {
                    assert forall|i: int| 0 <= i < wv.len() implies eq_ignore_case(
                        #[trigger] tv[start + i],
                        wv[i],
                    ) by {
                        assert(eq_ignore_case(toks@[start + i]@, ws@[i]@));
                    }
                    assert(aml == ws@.len());
                } else {
                    if alias_matches_at(tv, start as int, bk.aliases[j as int]) {
                        assert forall|i: int| 0 <= i < ws@.len() implies eq_ignore_case(
                            #[trigger] toks@[start + i]@,
                            ws@[i]@,
                        ) by {
                            assert(eq_ignore_case(tv[start + i], wv[i]));
                        }
                    }
                    assert(aml == 0);
                }
            }
            if m && ws.len() > best_len {
                best_len = ws.len();
                best_k = k;
            }
            j = j + 1;
        }
        proof {
            assert forall|jj: int| #[trigger] alias_match_len(tv, start as int, k as int, jj) > 0 implies 0
                <= jj < j by {}
        }
        k = k + 1;
    }
    proof {
        assert forall|m: int, j: int| #[trigger] alias_match_len(tv, start as int, m, j) > 0 implies 0
            <= m < 66 by {}
    }
    if best_len == 0 {
        assert(!some_alias_matches(tv, start as int));
        None
    } else {
        proof {
            let jb = choose|jj: int|
                #[trigger] alias_match_len(tv, start as int, best_k as int, jj) == best_len;
            assert(alias_match_len(tv, start as int, best_k as int, jb) > 0);
            assert(alias_matches_at(tv, start as int, spec_book_at(best_k as int).aliases[jb]));
            assert(some_alias_matches(tv, start as int));
            assert(is_longest(tv, start as int, best_len as int));
            let len = longest_match(tv, start as int);
            assert(is_longest(tv, start as int, len));
            assert(len <= best_len);
            assert(best_len <= len) by {
                assert(alias_match_len(tv, start as int, best_k as int, jb) <= len);
            }
            assert(is_first_with(tv, start as int, len, best_k as int));
            let fb = first_longest_book(tv, start as int);
            assert(is_first_with(tv, start as int, len, fb));
            assert(fb == best_k) by {
                let jf = choose|j: int| #[trigger] alias_match_len(tv, start as int, fb, j) == len;
                if fb < best_k {
                    assert(alias_match_len(tv, start as int, fb, jf) < best_len);
                }
                if fb > best_k {
                    assert(alias_match_len(tv, start as int, best_k as int, jb) < len);
                }
            }
        }
        Some((book_at(best_k), best_len))
    }
}

} // verus!
