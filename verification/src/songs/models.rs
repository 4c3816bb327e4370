//! Song domain types.
//!
//! A song is a title plus an ordered list of sections (verse, chorus, bridge…).
//! Selah presents one section at a time, exactly the way it presents one verse
//! of Scripture at a time, so a long song never has to be squeezed onto a
//! single screen.

use vstd::prelude::*;

use crate::error::{config_error, fails_with_config, AppError};
use crate::text::{
    from_chars, lemma_trim_idempotent, opt_string, to_chars, trim, trim_chars, trimmed_nonempty,
    trimmed_option,
};

verus! {

/// One section of a song.
#[derive(Debug, Clone, PartialEq)]
pub struct SongSection {
    pub id: String,
    /// Optional label drawn above the words ("Verse 1", "Chorus").
    pub label: Option<String>,
    pub text: String,
    /// 1-based order within the song.
    pub position: i64,
}

/// A song in the library, with its sections in order.
#[derive(Debug, Clone, PartialEq)]
pub struct Song {
    pub id: String,
    pub title: String,
    pub author: Option<String>,
    pub created_at: String,
    pub updated_at: String,
    pub sections: Vec<SongSection>,
}

/// What a caller supplies to create or replace a song.
#[derive(Debug, Clone, PartialEq)]
pub struct SongInput {
    pub title: String,
    pub author: Option<String>,
    pub sections: Vec<SongSectionInput>,
}

/// A section supplied by the caller (no id — the store assigns one).
#[derive(Debug, Clone, PartialEq)]
pub struct SongSectionInput {
    pub label: Option<String>,
    pub text: String,
}

/// A section as label and words.
pub open spec fn section_view(s: SongSectionInput) -> (Option<Seq<char>>, Seq<char>) {
    (opt_string(s.label), s.text@)
}

/// The sections that have words, trimmed, with blank labels dropped, in
/// order.
pub open spec fn kept_sections(ss: Seq<SongSectionInput>) -> Seq<(Option<Seq<char>>, Seq<char>)>
    decreases ss.len(),
{
    if ss.len() == 0 {
        seq![]
    } else {
        let rest = kept_sections(ss.drop_last());
        let last = ss.last();
        if trim(last.text@).len() > 0 {
            rest.push((trimmed_nonempty(opt_string(last.label)), trim(last.text@)))
        } else {
            rest
        }
    }
}

impl SongInput {
    /// Trims the input and rejects anything that would present badly.
    ///
    /// Blank sections are dropped rather than rejected: an operator who leaves
    /// an empty section row is tidying up, not making a mistake. A song with no
    /// words left, however, is a real error.
    pub fn normalized(self) -> (r: Result<Self, AppError>)
        ensures
            trim(self.title@).len() == 0 ==> fails_with_config(r, "a song needs a title"@),
            trim(self.title@).len() > 0 && kept_sections(self.sections@).len() == 0
                ==> fails_with_config(r, "a song needs at least one section with words"@),
            trim(self.title@).len() > 0 && kept_sections(self.sections@).len() > 0 ==> (
            r matches Ok(s) && s.title@ == trim(self.title@) && opt_string(s.author)
                == trimmed_nonempty(opt_string(self.author)) && s.sections@.map_values(
                |x: SongSectionInput| section_view(x),
            ) == kept_sections(self.sections@)),
    {
        let title_chars = to_chars(self.title.as_str());
        let title = trim_chars(&title_chars);
        if title.len() == 0 {
            return Err(config_error("a song needs a title"));
        }
        let author = trimmed_option(&self.author);
        let ghost input = self.sections@;
        let mut sections: Vec<SongSectionInput> = Vec::new();
        let mut i: usize = 0;
        while i < self.sections.len()
            invariant
                i <= input.len(),
                input == self.sections@,
                sections@.map_values(|x: SongSectionInput| section_view(x)) == kept_sections(
                    input.take(i as int),
                ),
            decreases input.len() - i,
        {
            let section = &self.sections[i];
            let text_chars = to_chars(section.text.as_str());
            let text = trim_chars(&text_chars);
            proof {
                assert(input.take(i + 1).drop_last() =~= input.take(i as int));
                assert(input.take(i + 1).last() == input[i as int]);
            }
            if text.len() > 0 {
                let kept = SongSectionInput {
                    label: trimmed_option(&section.label),
                    text: from_chars(&text),
                };
                let ghost before = sections@.map_values(|x: SongSectionInput| section_view(x));
                sections.push(kept);
                assert(sections@.map_values(|x: SongSectionInput| section_view(x)) =~= before.push(
                    section_view(kept),
                ));
            }
            i = i + 1;
        }
        assert(input.take(input.len() as int) =~= input);
        assert(sections@.map_values(|x: SongSectionInput| section_view(x)).len()
            == sections@.len());
        if sections.len() == 0 {
            return Err(config_error("a song needs at least one section with words"));
        }
        Ok(SongInput { title: from_chars(&title), author, sections })
    }
}

/// Trimming an optional text twice is trimming it once.
pub proof fn lemma_trimmed_nonempty_stable(a: Option<Seq<char>>)
    ensures
        trimmed_nonempty(trimmed_nonempty(a)) == trimmed_nonempty(a),
{
    if let Some(v) = a {
        lemma_trim_idempotent(v);
    }
}

proof fn lemma_kept_shape(x: Seq<SongSectionInput>)
    ensures
        forall|i: int|
            0 <= i < kept_sections(x).len() ==> {
                let k = #[trigger] kept_sections(x)[i];
                &&& trim(k.1) == k.1
                &&& k.1.len() > 0
                &&& trimmed_nonempty(k.0) == k.0
            },
    decreases x.len(),
{
    if x.len() > 0 {
        lemma_kept_shape(x.drop_last());
        let last = x.last();
        lemma_trim_idempotent(last.text@);
        lemma_trimmed_nonempty_stable(opt_string(last.label));
    }
}

proof fn lemma_kept_of_normal(ss: Seq<SongSectionInput>)
    requires
        forall|i: int|
            0 <= i < ss.len() ==> {
                let v = section_view(#[trigger] ss[i]);
                &&& trim(v.1) == v.1
                &&& v.1.len() > 0
                &&& trimmed_nonempty(v.0) == v.0
            },
    ensures
        kept_sections(ss) == ss.map_values(|x: SongSectionInput| section_view(x)),
    decreases ss.len(),
{
    if ss.len() > 0 {
        let init = ss.drop_last();
        assert forall|i: int| 0 <= i < init.len() implies {
            let v = section_view(#[trigger] init[i]);
            &&& trim(v.1) == v.1
            &&& v.1.len() > 0
            &&& trimmed_nonempty(v.0) == v.0
        } by {
            assert(init[i] == ss[i]);
        }
        lemma_kept_of_normal(init);
        let last = ss.last();
        assert(section_view(ss[ss.len() - 1]) == section_view(last));
        assert(ss.map_values(|x: SongSectionInput| section_view(x)) =~= init.map_values(
            |x: SongSectionInput| section_view(x),
        ).push(section_view(last)));
    } else {
        assert(ss.map_values(|x: SongSectionInput| section_view(x)) =~= seq![]);
    }
}

/// Normalizing is stable: a song as [`SongInput::normalized`] returns it
/// (trimmed title, author and sections, blank sections gone) is already
/// normal, so normalizing it again accepts it and gives it back unchanged.
pub proof fn lemma_normalized_is_normal(song: SongInput, normal: SongInput)
    requires
        trim(song.title@).len() > 0,
        kept_sections(song.sections@).len() > 0,
        normal.title@ == trim(song.title@),
        opt_string(normal.author) == trimmed_nonempty(opt_string(song.author)),
        normal.sections@.map_values(|x: SongSectionInput| section_view(x)) == kept_sections(
            song.sections@,
        ),
    ensures
        trim(normal.title@).len() > 0,
        trim(normal.title@) == normal.title@,
        trimmed_nonempty(opt_string(normal.author)) == opt_string(normal.author),
        kept_sections(normal.sections@).len() > 0,
        kept_sections(normal.sections@) == normal.sections@.map_values(
            |x: SongSectionInput| section_view(x),
        ),
{
    lemma_trim_idempotent(song.title@);
    lemma_trimmed_nonempty_stable(opt_string(song.author));
    let k = kept_sections(song.sections@);
    lemma_kept_shape(song.sections@);
    let ss = normal.sections@;
    assert forall|i: int| 0 <= i < ss.len() implies {
        let v = section_view(#[trigger] ss[i]);
        &&& trim(v.1) == v.1
        &&& v.1.len() > 0
        &&& trimmed_nonempty(v.0) == v.0
    } by {
        assert(ss.map_values(|x: SongSectionInput| section_view(x))[i] == section_view(ss[i]));
        assert(k[i] == section_view(ss[i]));
    }
    lemma_kept_of_normal(ss);
}

} // verus!
