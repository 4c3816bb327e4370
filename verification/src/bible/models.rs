//! Bible domain models: the rows Selah stores and hands to the interface.

use vstd::prelude::*;

use crate::scripture::books::{book_by_id, spec_book_by_id};
use crate::text::{append_str, from_chars, push_signed_decimal, signed_decimal};

verus! {

/// A Bible translation installed in the local database.
#[derive(Debug, Clone, PartialEq)]
pub struct Translation {
    pub id: String,
    pub name: String,
    pub language: String,
    pub abbreviation: Option<String>,
    pub is_default: bool,
    pub created_at: String,
}

/// A Bible book row mirrored from the canonical registry.
#[derive(Debug, Clone, PartialEq)]
pub struct BibleBook {
    pub id: i32,
    pub name: String,
    pub testament: String,
    pub abbreviation: Option<String>,
    /// Canonical chapter count, resolved from the deterministic Scripture
    /// registry. The `books` table intentionally does not duplicate it.
    pub chapters: u16,
}

/// The chapter count the registry gives a book id (0 for an unknown id).
pub open spec fn registry_chapters(id: int) -> nat {
    match spec_book_by_id(id) {
        Some(b) => b.chapters,
        None => 0,
    }
}

impl BibleBook {
    /// Builds a book row, filling the chapter count from the canonical
    /// registry so callers never duplicate that data.
    pub fn new(id: i32, name: String, testament: String, abbreviation: Option<String>) -> (b: Self)
        ensures
            b.id == id,
            b.name == name,
            b.testament == testament,
            b.abbreviation == abbreviation,
            b.chapters == registry_chapters(id as int),
    {
        let chapters = match book_by_id(id) {
            Some(book) => book.chapters,
            None => 0,
        };
        BibleBook { id, name, testament, abbreviation, chapters }
    }
}

/// A single verse row.
#[derive(Debug, Clone, PartialEq)]
pub struct Verse {
    pub translation_id: String,
    pub book_id: i32,
    pub chapter: i32,
    pub verse: i32,
    pub text: String,
}

/// The label of a verse: the registry's book name (or `#id` for an id the
/// registry does not know), then `chapter:verse`.
pub open spec fn verse_label(book_id: int, chapter: int, verse: int) -> Seq<char> {
    let book = match spec_book_by_id(book_id) {
        Some(b) => b.name,
        None => "#"@ + signed_decimal(book_id),
    };
    book + " "@ + signed_decimal(chapter) + ":"@ + signed_decimal(verse)
}

impl Verse {
    /// The label of the verse, e.g. "John 3:16". Book names come from the
    /// deterministic scripture registry, never from verse data itself.
    pub fn label(&self) -> (s: String)
        ensures
            s@ == verse_label(self.book_id as int, self.chapter as int, self.verse as int),
    {
        let mut out: Vec<char> = Vec::new();
        match book_by_id(self.book_id) {
            Some(b) => append_str(&mut out, b.name),
            None => {
                append_str(&mut out, "#");
                push_signed_decimal(&mut out, self.book_id as i64);
            },
        }
        append_str(&mut out, " ");
        push_signed_decimal(&mut out, self.chapter as i64);
        append_str(&mut out, ":");
        push_signed_decimal(&mut out, self.verse as i64);
        assert(out@ =~= verse_label(self.book_id as int, self.chapter as int, self.verse as int));
        from_chars(&out)
    }
}

/// A resolved passage: one verse or a contiguous range of verses.
#[derive(Debug, Clone, PartialEq)]
pub struct Passage {
    pub translation_id: String,
    /// Human readable reference label, e.g. "John 3:16" or "Psalm 23".
    pub reference: String,
    pub verses: Vec<Verse>,
    /// Verse text separated by spaces, ready for display.
    pub text: String,
}

/// Metadata describing a translation before any verses are imported.
#[derive(Debug, Clone)]
pub struct TranslationInfo {
    pub id: String,
    pub name: String,
    pub language: String,
    pub abbreviation: Option<String>,
    pub is_default: bool,
}

} // verus!
