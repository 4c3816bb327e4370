//! The shape of a translation import document.
//!
//! No Bible text ships with the application. An operator imports a
//! translation they have the right to use from a JSON file; the file is read
//! and parsed outside the library, and the parsed document is checked here.

use vstd::prelude::*;

use crate::bible::models::TranslationInfo;
use crate::error::{config_error, fails_with_config, AppError};
use crate::text::{to_chars, trim, trim_chars};

verus! {

/// The accepted envelope for a translation import.
#[derive(Debug, Clone)]
pub struct ImportDocument {
    pub translation: TranslationInfo,
    /// Flat list of verses. Book ids refer to the canonical registry.
    pub verses: Vec<ImportVerse>,
}

#[derive(Debug, Clone)]
pub struct ImportVerse {
    pub book_id: i32,
    pub chapter: u32,
    pub verse: u32,
    pub text: String,
}

/// A document is accepted when its translation has a non-blank id and name.
pub open spec fn spec_import_acceptable(id: Seq<char>, name: Seq<char>) -> bool {
    trim(id).len() > 0 && trim(name).len() > 0
}

/// Checks a parsed import document: the translation needs a non-empty id
/// and name.
pub fn check_import(doc: ImportDocument) -> (r: Result<ImportDocument, AppError>)
    ensures
        spec_import_acceptable(doc.translation.id@, doc.translation.name@) ==> r == Ok::<
            ImportDocument,
            AppError,
        >(doc),
        !spec_import_acceptable(doc.translation.id@, doc.translation.name@) ==> fails_with_config(
            r,
            "translation import requires a non-empty id and name"@,
        ),
{
    let id = to_chars(doc.translation.id.as_str());
    let name = to_chars(doc.translation.name.as_str());
    if trim_chars(&id).len() == 0 || trim_chars(&name).len() == 0 {
        return Err(config_error("translation import requires a non-empty id and name"));
    }
    Ok(doc)
}


/// The translations that ship with Selah, in the order a fresh install
/// receives them: the file they come in, then their id, name and
/// abbreviation.
pub fn bundled_translations() -> (r: Vec<(&'static str, &'static str, &'static str, &'static str)>)
    ensures
        r@.len() == 3,
        r@[0].0@ == "web.sqlite"@ && r@[0].1@ == "web"@ && r@[0].2@ == "World English Bible"@
            && r@[0].3@ == "WEB"@,
        r@[1].0@ == "kjv.sqlite"@ && r@[1].1@ == "kjv"@ && r@[1].2@ == "King James Version"@
            && r@[1].3@ == "KJV"@,
        r@[2].0@ == "asv.sqlite"@ && r@[2].1@ == "asv"@ && r@[2].2@ == "American Standard Version"@
            && r@[2].3@ == "ASV"@,
{
    let r = vec![
        ("web.sqlite", "web", "World English Bible", "WEB"),
        ("kjv.sqlite", "kjv", "King James Version", "KJV"),
        ("asv.sqlite", "asv", "American Standard Version", "ASV"),
    ];
    proof {
        reveal_strlit("web.sqlite");
        reveal_strlit("web");
        reveal_strlit("World English Bible");
        reveal_strlit("WEB");
        reveal_strlit("kjv.sqlite");
        reveal_strlit("kjv");
        reveal_strlit("King James Version");
        reveal_strlit("KJV");
        reveal_strlit("asv.sqlite");
        reveal_strlit("asv");
        reveal_strlit("American Standard Version");
        reveal_strlit("ASV");
    }
    r
}

/// What installing a bundled translation stores: its id, name and
/// abbreviation, in English, and made the default only on a store that held
/// no translation before and when no other bundled one was installed ahead
/// of it.
pub fn bundled_info(
    id: &str,
    name: &str,
    abbreviation: &str,
    already_has_translations: bool,
    installed: usize,
) -> (info: TranslationInfo)
    ensures
        info.id@ == id@,
        info.name@ == name@,
        info.language@ == "en"@,
        info.abbreviation matches Some(a) && a@ == abbreviation@,
        info.is_default == (!already_has_translations && installed == 0),
{
    TranslationInfo {
        id: id.to_owned(),
        name: name.to_owned(),
        language: "en".to_owned(),
        abbreviation: Some(abbreviation.to_owned()),
        is_default: !already_has_translations && installed == 0,
    }
}

} // verus!
