//! Scripture resolver: reference → resolved passage text.
//!
//! The resolver is the bridge between the deterministic parser and the stored
//! Bible. Detection is decoupled from resolution: a reference can be detected
//! before the translation data has been imported. Reading the stored verses
//! happens outside the library; the checks around that read, and the passage
//! built from what was read, are here.

use vstd::prelude::*;

use crate::bible::models::{Passage, Verse};
use crate::error::AppError;
use crate::text::{append_chars, append_str, from_chars, join, push_decimal, to_chars, trim, trim_chars};

use super::reference::{spec_display, spec_is_valid, ScriptureReference};

verus! {

/// Checks a reference before its passage is read: it must be structurally
/// valid, and the translation must be installed.
pub fn check_resolvable(
    reference: &ScriptureReference,
    translation_id: &str,
    installed: bool,
) -> (r: Result<(), AppError>)
    ensures
        !spec_is_valid(*reference) ==> (r matches Err(AppError::InvalidScriptureReference(m)) && m@
            == spec_display(*reference)),
        spec_is_valid(*reference) && !installed ==> (r matches Err(
            AppError::BibleTranslationNotFound(t),
        ) && t@ == translation_id@),
        spec_is_valid(*reference) && installed ==> r is Ok,
{
    if !reference.is_valid() {
        return Err(AppError::InvalidScriptureReference(reference.display()));
    }
    if !installed {
        return Err(AppError::BibleTranslationNotFound(translation_id.to_owned()));
    }
    Ok(())
}

/// The verses to read for a reference, inclusive: the range given, a single
/// verse, or the whole chapter (`1..=u16::MAX`). A range that runs
/// backwards is refused.
pub open spec fn spec_passage_range(reference: ScriptureReference) -> (u16, u16) {
    match (reference.start_verse, reference.end_verse) {
        (Some(start), Some(end)) => (start, end),
        (Some(start), None) => (start, start),
        (None, _) => (1, 65535),
    }
}

/// The message for a range that runs backwards.
pub open spec fn backwards_range(start: u16, end: u16) -> Seq<char> {
    "end verse "@ + crate::text::decimal(end as nat) + " before start verse "@ + crate::text::decimal(
        start as nat,
    )
}

/// The inclusive verse range to read for a reference.
pub fn passage_range(reference: &ScriptureReference) -> (r: Result<(u16, u16), AppError>)
    ensures
        ({
            let (s, e) = spec_passage_range(*reference);
            &&& e < s ==> (r matches Err(AppError::InvalidScriptureReference(m)) && m@
                == backwards_range(s, e))
            &&& s <= e ==> r == Ok::<(u16, u16), AppError>((s, e))
        }),
{
    let (start, end) = match (reference.start_verse, reference.end_verse) {
        (Some(s), Some(e)) => (s, e),
        (Some(s), None) => (s, s),
        (None, _) => (1u16, u16::MAX),
    };
    if end < start {
        let mut m = to_chars("end verse ");
        push_decimal(&mut m, end as u64);
        append_str(&mut m, " before start verse ");
        push_decimal(&mut m, start as u64);
        return Err(AppError::InvalidScriptureReference(from_chars(&m)));
    }
    Ok((start, end))
}

/// The texts of the verses, each trimmed.
pub open spec fn trimmed_texts(verses: Seq<Verse>) -> Seq<Seq<char>> {
    verses.map_values(|v: Verse| trim(v.text@))
}

/// Builds the passage from the verses read for a reference: their trimmed
/// words joined by single spaces, under the reference's label. No verses
/// means the passage is not in that translation.
pub fn assemble_passage(
    translation_id: &str,
    reference: &ScriptureReference,
    verses: Vec<Verse>,
) -> (r: Result<Passage, AppError>)
    ensures
        verses@.len() == 0 ==> (r matches Err(AppError::ScriptureNotFound { translation, reference: shown })
            && translation@ == translation_id@ && shown@ == spec_display(*reference)),
        verses@.len() > 0 ==> (r matches Ok(p) && p.translation_id@ == translation_id@ && p.reference@
            == spec_display(*reference) && p.verses == verses && p.text@ == join(
            trimmed_texts(verses@),
            " "@,
        )),
{
    if verses.len() == 0 {
        return Err(
            AppError::ScriptureNotFound {
                translation: translation_id.to_owned(),
                reference: reference.display(),
            },
        );
    }
    let ghost ts = trimmed_texts(verses@);
    let mut text: Vec<char> = Vec::new();
    let mut i: usize = 0;
    while i < verses.len()
        invariant
            i <= verses@.len(),
            ts == trimmed_texts(verses@),
            text@ == join(ts.take(i as int), " "@),
        decreases verses.len() - i,
    {
        if i > 0 {
            append_str(&mut text, " ");
        }
        let chars = to_chars(verses[i].text.as_str());
        let t = trim_chars(&chars);
        append_chars(&mut text, &t);
        proof {
            assert(ts.take(i + 1).drop_last() =~= ts.take(i as int));
            assert(ts[i as int] == t@);
            if i == 0 {
                assert(join(ts.take(1), " "@) == ts[0]);
                assert(text@ =~= ts[0]);
            } else {
                assert(text@ =~= join(ts.take(i as int), " "@) + " "@ + ts[i as int]);
            }
        }
        i = i + 1;
    }
    assert(ts.take(verses@.len() as int) =~= ts);
    Ok(
        Passage {
            translation_id: translation_id.to_owned(),
            reference: reference.display(),
            verses,
            text: from_chars(&text),
        },
    )
}

} // verus!
