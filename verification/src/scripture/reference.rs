//! Typed Scripture reference model.
//!
//! A reference is never stored as an opaque string across the application —
//! they are parsed into [`ScriptureReference`] and only formatted for human
//! display at the edges.

use vstd::prelude::*;

use crate::text::{append_str, decimal, from_chars, push_decimal};

use super::books::{book_by_id, spec_book_by_id, BibleBook, BookSpec};

verus! {

/// A canonical Scripture reference.
///
/// `start_verse == None` means the whole chapter is referenced.
#[derive(Debug, Clone, Copy, PartialEq, Eq, Hash, Structural)]
pub struct ScriptureReference {
    pub book_id: i32,
    pub chapter: u16,
    pub start_verse: Option<u16>,
    pub end_verse: Option<u16>,
}

/// Structural validity: a known book, a chapter that book has, and either no
/// verses or a verse range that starts at 1 or later and does not run
/// backwards.
pub open spec fn spec_is_valid(r: ScriptureReference) -> bool {
    match spec_book_by_id(r.book_id as int) {
        None => false,
        Some(book) => {
            &&& r.chapter >= 1
            &&& r.chapter <= book.chapters
            &&& match (r.start_verse, r.end_verse) {
                (None, None) => true,
                (Some(s), Some(e)) => s >= 1 && e >= s,
                _ => false,
            }
        },
    }
}

/// The book name used in labels ("Unknown Book" for an id outside the
/// registry).
pub open spec fn display_book_name(book: Option<BookSpec>) -> Seq<char> {
    match book {
        Some(b) => b.name,
        None => "Unknown Book"@,
    }
}

/// The canonical label: "John 3:16", "Psalms 23", "1 Corinthians 13:4-7".
pub open spec fn spec_display(r: ScriptureReference) -> Seq<char> {
    let head = display_book_name(spec_book_by_id(r.book_id as int)) + " "@ + decimal(
        r.chapter as nat,
    );
    match (r.start_verse, r.end_verse) {
        (Some(s), Some(e)) => if s == e {
            head + ":"@ + decimal(s as nat)
        } else {
            head + ":"@ + decimal(s as nat) + "-"@ + decimal(e as nat)
        },
        _ => head,
    }
}

/// The English word for a number below twenty.
pub open spec fn small_word(n: int) -> Seq<char> {
    if n == 0 { "zero"@ } else if n == 1 { "one"@ } else if n == 2 { "two"@ } else if n == 3 {
        "three"@
    } else if n == 4 { "four"@ } else if n == 5 { "five"@ } else if n == 6 { "six"@ } else if n
        == 7 { "seven"@ } else if n == 8 { "eight"@ } else if n == 9 { "nine"@ } else if n == 10 {
        "ten"@
    } else if n == 11 { "eleven"@ } else if n == 12 { "twelve"@ } else if n == 13 {
        "thirteen"@
    } else if n == 14 { "fourteen"@ } else if n == 15 { "fifteen"@ } else if n == 16 {
        "sixteen"@
    } else if n == 17 { "seventeen"@ } else if n == 18 { "eighteen"@ } else { "nineteen"@ }
}

/// The English word for a multiple of ten from twenty to ninety, by its
/// tens digit.
pub open spec fn tens_word(t: int) -> Seq<char> {
    if t == 2 { "twenty"@ } else if t == 3 { "thirty"@ } else if t == 4 { "forty"@ } else if t
        == 5 { "fifty"@ } else if t == 6 { "sixty"@ } else if t == 7 { "seventy"@ } else if t == 8 {
        "eighty"@
    } else { "ninety"@ }
}

/// A number below a hundred in words: "sixteen", "forty", "twenty one".
pub open spec fn words_below_hundred(n: int) -> Seq<char> {
    if n < 20 {
        small_word(n)
    } else if n % 10 == 0 {
        tens_word(n / 10)
    } else {
        tens_word(n / 10) + " "@ + small_word(n % 10)
    }
}

/// A number below a thousand in words: "one hundred", "one hundred
/// nineteen".
pub open spec fn words_below_thousand(n: int) -> Seq<char> {
    if n < 100 {
        words_below_hundred(n)
    } else if n % 100 == 0 {
        small_word(n / 100) + " hundred"@
    } else {
        small_word(n / 100) + " hundred "@ + words_below_hundred(n % 100)
    }
}

/// A number in words, as it is said: "three", "sixteen", "one hundred
/// fifty", "two thousand three".
pub open spec fn number_words(n: int) -> Seq<char> {
    if n < 1000 {
        words_below_thousand(n)
    } else if n % 1000 == 0 {
        words_below_thousand(n / 1000) + " thousand"@
    } else {
        words_below_thousand(n / 1000) + " thousand "@ + words_below_thousand(n % 1000)
    }
}

/// The spoken label, numbers said in words: "John chapter three verse
/// sixteen", "Romans chapter eight verses twenty eight to thirty"; an
/// unknown book leaves the name empty.
pub open spec fn spec_spoken(r: ScriptureReference) -> Seq<char> {
    let name = match spec_book_by_id(r.book_id as int) {
        Some(b) => b.name,
        None => Seq::<char>::empty(),
    };
    let head = name + " chapter "@ + number_words(r.chapter as int);
    match (r.start_verse, r.end_verse) {
        (Some(s), Some(e)) => if s == e {
            head + " verse "@ + number_words(s as int)
        } else {
            head + " verses "@ + number_words(s as int) + " to "@ + number_words(e as int)
        },
        _ => head,
    }
}

fn small_word_str(n: u64) -> (w: &'static str)
    requires
        n < 20,
    ensures
        w@ == small_word(n as int),
{
    match n {
        0 => "zero",
        1 => "one",
        2 => "two",
        3 => "three",
        4 => "four",
        5 => "five",
        6 => "six",
        7 => "seven",
        8 => "eight",
        9 => "nine",
        10 => "ten",
        11 => "eleven",
        12 => "twelve",
        13 => "thirteen",
        14 => "fourteen",
        15 => "fifteen",
        16 => "sixteen",
        17 => "seventeen",
        18 => "eighteen",
        _ => "nineteen",
    }
}

fn tens_word_str(t: u64) -> (w: &'static str)
    requires
        2 <= t <= 9,
    ensures
        w@ == tens_word(t as int),
{
    match t {
        2 => "twenty",
        3 => "thirty",
        4 => "forty",
        5 => "fifty",
        6 => "sixty",
        7 => "seventy",
        8 => "eighty",
        _ => "ninety",
    }
}

fn push_below_hundred(out: &mut Vec<char>, n: u64)
    requires
        n < 100,
    ensures
        final(out)@ == old(out)@ + words_below_hundred(n as int),
{
    if n < 20 {
        append_str(out, small_word_str(n));
    } else if n % 10 == 0 {
        append_str(out, tens_word_str(n / 10));
    } else {
        append_str(out, tens_word_str(n / 10));
        append_str(out, " ");
        append_str(out, small_word_str(n % 10));
        assert(final(out)@ =~= old(out)@ + words_below_hundred(n as int));
    }
}

fn push_below_thousand(out: &mut Vec<char>, n: u64)
    requires
        n < 1000,
    ensures
        final(out)@ == old(out)@ + words_below_thousand(n as int),
{
    if n < 100 {
        push_below_hundred(out, n);
    } else if n % 100 == 0 {
        append_str(out, small_word_str(n / 100));
        append_str(out, " hundred");
        assert(final(out)@ =~= old(out)@ + words_below_thousand(n as int));
    } else {
        append_str(out, small_word_str(n / 100));
        append_str(out, " hundred ");
        push_below_hundred(out, n % 100);
        assert(final(out)@ =~= old(out)@ + words_below_thousand(n as int));
    }
}

/// Appends `n` in words.
fn push_number_words(out: &mut Vec<char>, n: u64)
    requires
        n < 1_000_000,
    ensures
        final(out)@ == old(out)@ + number_words(n as int),
{
    if n < 1000 {
        push_below_thousand(out, n);
    } else if n % 1000 == 0 {
        push_below_thousand(out, n / 1000);
        append_str(out, " thousand");
        assert(final(out)@ =~= old(out)@ + number_words(n as int));
    } else {
        push_below_thousand(out, n / 1000);
        append_str(out, " thousand ");
        push_below_thousand(out, n % 1000);
        assert(final(out)@ =~= old(out)@ + number_words(n as int));
    }
}

impl ScriptureReference {
    pub fn new(book_id: i32, chapter: u16) -> (r: Self)
        ensures
            r == (ScriptureReference { book_id, chapter, start_verse: None, end_verse: None }),
    {
        Self { book_id, chapter, start_verse: None, end_verse: None }
    }

    pub fn with_verse(self, verse: u16) -> (r: Self)
        ensures
            r == (ScriptureReference {
                start_verse: Some(verse),
                end_verse: Some(verse),
                ..self
            }),
    {
        let mut r = self;
        r.start_verse = Some(verse);
        r.end_verse = Some(verse);
        r
    }

    pub fn with_range(self, start: u16, end: u16) -> (r: Self)
        ensures
            r == (ScriptureReference { start_verse: Some(start), end_verse: Some(end), ..self }),
    {
        let mut r = self;
        r.start_verse = Some(start);
        r.end_verse = Some(end);
        r
    }

    /// The registry entry of the referenced book.
    pub fn book(&self) -> (r: Option<BibleBook>)
        ensures
            match r {
                Some(b) => spec_book_by_id(self.book_id as int) == Some(b@),
                None => spec_book_by_id(self.book_id as int) is None,
            },
    {
        book_by_id(self.book_id)
    }

    /// Human readable canonical label, e.g. "John 3:16", "Psalms 23",
    /// "1 Corinthians 13:4-7".
    pub fn display(&self) -> (s: String)
        ensures
            s@ == spec_display(*self),
    {
        let mut out: Vec<char> = Vec::new();
        match self.book() {
            Some(b) => append_str(&mut out, b.name),
            None => append_str(&mut out, "Unknown Book"),
        }
        append_str(&mut out, " ");
        push_decimal(&mut out, self.chapter as u64);
        match (self.start_verse, self.end_verse) {
            (Some(start), Some(end)) => {
                append_str(&mut out, ":");
                push_decimal(&mut out, start as u64);
                if start != end {
                    append_str(&mut out, "-");
                    push_decimal(&mut out, end as u64);
                }
            },
            _ => {},
        }
        from_chars(&out)
    }

    /// Human readable spoken label, numbers in words ("John chapter three
    /// verse sixteen"). Used for logging/diagnostics.
    pub fn to_spoken(&self) -> (s: String)
        ensures
            s@ == spec_spoken(*self),
    {
        let mut out: Vec<char> = Vec::new();
        match self.book() {
            Some(b) => append_str(&mut out, b.name),
            None => {},
        }
        append_str(&mut out, " chapter ");
        push_number_words(&mut out, self.chapter as u64);
        match (self.start_verse, self.end_verse) {
            (Some(start), Some(end)) => {
                if start == end {
                    append_str(&mut out, " verse ");
                    push_number_words(&mut out, start as u64);
                } else {
                    append_str(&mut out, " verses ");
                    push_number_words(&mut out, start as u64);
                    append_str(&mut out, " to ");
                    push_number_words(&mut out, end as u64);
                }
            },
            _ => {},
        }
        from_chars(&out)
    }

    /// Structural validation against the canonical chapter counts.
    pub fn is_valid(&self) -> (b: bool)
        ensures
            b == spec_is_valid(*self),
    {
        match self.book() {
            None => false,
            Some(book) => {
                self.chapter >= 1 && self.chapter <= book.chapters && match (
                    self.start_verse,
                    self.end_verse,
                ) {
                    (None, None) => true,
                    (Some(s), Some(e)) => s >= 1 && e >= s,
                    _ => false,
                }
            },
        }
    }
}

} // verus!
