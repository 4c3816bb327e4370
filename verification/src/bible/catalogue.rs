//! The published Bible translations Selah knows how to hold.
//!
//! Selah ships no Bible text, so this list is **metadata only**: it is the
//! answer to "which translations can I add, and what is each one called?".
//! Adding one of these creates the translation in the database, ready to hold
//! verses; its name and abbreviation then come from here rather than being
//! typed out again.

use vstd::prelude::*;

use crate::text::{
    ascii_lower, eq_ignore_ascii_case, eq_ignore_case, from_chars, to_chars, trim, trim_chars, trim_end,
    trim_start,
};

verus! {

/// One translation an operator can add.
pub struct Published {
    /// Short id used everywhere afterwards, e.g. `msg`.
    id: &'static str,
    /// Full name, e.g. `The Message`.
    name: &'static str,
    /// Usual abbreviation, e.g. `MSG`.
    abbreviation: &'static str,
    language: &'static str,
    /// Which family of translations this is, for grouping in the interface.
    group: &'static str,
    /// Whether the translation text is freely redistributable. Informational
    /// only: Selah never downloads or ships Bible text either way.
    public_domain: bool,
}

/// The mathematical content of a catalogue entry.
pub struct PublishedSpec {
    pub id: Seq<char>,
    pub name: Seq<char>,
    pub abbreviation: Seq<char>,
    pub language: Seq<char>,
    pub group: Seq<char>,
    pub public_domain: bool,
}

impl View for Published {
    type V = PublishedSpec;

    closed spec fn view(&self) -> PublishedSpec {
        PublishedSpec {
            id: self.id@,
            name: self.name@,
            abbreviation: self.abbreviation@,
            language: self.language@,
            group: self.group@,
            public_domain: self.public_domain,
        }
    }
}

/// One entry in the catalogue, as the interface sees it.
#[derive(Debug, Clone, PartialEq)]
pub struct CatalogueEntry {
    pub id: String,
    pub name: String,
    pub abbreviation: String,
    pub language: String,
    pub group: String,
    /// True for the translations Selah ships, which cannot be removed.
    pub builtin: bool,
    /// Whether the translation is already installed.
    pub installed: bool,
    /// How many verses are stored for it, when it is installed.
    pub verse_count: i64,
    /// Informational: whether the translation text is public domain.
    pub public_domain: bool,
}

/// Number of published translations in the catalogue.
pub const PUBLISHED_COUNT: usize = 22;

/// The catalogue entry at position `i`, ordered roughly as operators reach for them.
pub open spec fn spec_published_at(i: int) -> PublishedSpec {
    if i == 0 {
        PublishedSpec { id: "kjv"@, name: "King James Version"@, abbreviation: "KJV"@, language: "en"@, group: "Classic"@, public_domain: true }
    } else if i == 1 {
        PublishedSpec { id: "nkjv"@, name: "New King James Version"@, abbreviation: "NKJV"@, language: "en"@, group: "Classic"@, public_domain: false }
    } else if i == 2 {
        PublishedSpec { id: "asv"@, name: "American Standard Version"@, abbreviation: "ASV"@, language: "en"@, group: "Classic"@, public_domain: true }
    } else if i == 3 {
        PublishedSpec { id: "web"@, name: "World English Bible"@, abbreviation: "WEB"@, language: "en"@, group: "Classic"@, public_domain: true }
    } else if i == 4 {
        PublishedSpec { id: "rsv"@, name: "Revised Standard Version"@, abbreviation: "RSV"@, language: "en"@, group: "Classic"@, public_domain: false }
    } else if i == 5 {
        PublishedSpec { id: "nrsv"@, name: "New Revised Standard Version"@, abbreviation: "NRSV"@, language: "en"@, group: "Classic"@, public_domain: false }
    } else if i == 6 {
        PublishedSpec { id: "kj21"@, name: "21st Century King James Version"@, abbreviation: "KJ21"@, language: "en"@, group: "Classic"@, public_domain: false }
    } else if i == 7 {
        PublishedSpec { id: "niv"@, name: "New International Version"@, abbreviation: "NIV"@, language: "en"@, group: "Modern"@, public_domain: false }
    } else if i == 8 {
        PublishedSpec { id: "esv"@, name: "English Standard Version"@, abbreviation: "ESV"@, language: "en"@, group: "Modern"@, public_domain: false }
    } else if i == 9 {
        PublishedSpec { id: "nasb"@, name: "New American Standard Bible"@, abbreviation: "NASB"@, language: "en"@, group: "Modern"@, public_domain: false }
    } else if i == 10 {
        PublishedSpec { id: "msg"@, name: "The Message"@, abbreviation: "MSG"@, language: "en"@, group: "Modern"@, public_domain: false }
    } else if i == 11 {
        PublishedSpec { id: "amp"@, name: "Amplified Bible"@, abbreviation: "AMP"@, language: "en"@, group: "Modern"@, public_domain: false }
    } else if i == 12 {
        PublishedSpec { id: "nlt"@, name: "New Living Translation"@, abbreviation: "NLT"@, language: "en"@, group: "Modern"@, public_domain: false }
    } else if i == 13 {
        PublishedSpec { id: "csb"@, name: "Christian Standard Bible"@, abbreviation: "CSB"@, language: "en"@, group: "Modern"@, public_domain: false }
    } else if i == 14 {
        PublishedSpec { id: "hcsb"@, name: "Holman Christian Standard Bible"@, abbreviation: "HCSB"@, language: "en"@, group: "Modern"@, public_domain: false }
    } else if i == 15 {
        PublishedSpec { id: "net"@, name: "New English Translation"@, abbreviation: "NET"@, language: "en"@, group: "Modern"@, public_domain: false }
    } else if i == 16 {
        PublishedSpec { id: "gnt"@, name: "Good News Translation"@, abbreviation: "GNT"@, language: "en"@, group: "Everyday"@, public_domain: false }
    } else if i == 17 {
        PublishedSpec { id: "cev"@, name: "Contemporary English Version"@, abbreviation: "CEV"@, language: "en"@, group: "Everyday"@, public_domain: false }
    } else if i == 18 {
        PublishedSpec { id: "tlb"@, name: "The Living Bible"@, abbreviation: "TLB"@, language: "en"@, group: "Everyday"@, public_domain: false }
    } else if i == 19 {
        PublishedSpec { id: "ncv"@, name: "New Century Version"@, abbreviation: "NCV"@, language: "en"@, group: "Everyday"@, public_domain: false }
    } else if i == 20 {
        PublishedSpec { id: "gnb"@, name: "Good News Bible"@, abbreviation: "GNB"@, language: "en"@, group: "Everyday"@, public_domain: false }
    } else {
        PublishedSpec { id: "erv"@, name: "Easy-to-Read Version"@, abbreviation: "ERV"@, language: "en"@, group: "Everyday"@, public_domain: false }
    }
}

/// The catalogue entry at position `i`.
fn published_at(i: usize) -> (p: Published)
    requires
        i < 22,
    ensures
        p@ == spec_published_at(i as int),
{
    match i {
        0 => Published { id: "kjv", name: "King James Version", abbreviation: "KJV", language: "en", group: "Classic", public_domain: true },
        1 => Published { id: "nkjv", name: "New King James Version", abbreviation: "NKJV", language: "en", group: "Classic", public_domain: false },
        2 => Published { id: "asv", name: "American Standard Version", abbreviation: "ASV", language: "en", group: "Classic", public_domain: true },
        3 => Published { id: "web", name: "World English Bible", abbreviation: "WEB", language: "en", group: "Classic", public_domain: true },
        4 => Published { id: "rsv", name: "Revised Standard Version", abbreviation: "RSV", language: "en", group: "Classic", public_domain: false },
        5 => Published { id: "nrsv", name: "New Revised Standard Version", abbreviation: "NRSV", language: "en", group: "Classic", public_domain: false },
        6 => Published { id: "kj21", name: "21st Century King James Version", abbreviation: "KJ21", language: "en", group: "Classic", public_domain: false },
        7 => Published { id: "niv", name: "New International Version", abbreviation: "NIV", language: "en", group: "Modern", public_domain: false },
        8 => Published { id: "esv", name: "English Standard Version", abbreviation: "ESV", language: "en", group: "Modern", public_domain: false },
        9 => Published { id: "nasb", name: "New American Standard Bible", abbreviation: "NASB", language: "en", group: "Modern", public_domain: false },
        10 => Published { id: "msg", name: "The Message", abbreviation: "MSG", language: "en", group: "Modern", public_domain: false },
        11 => Published { id: "amp", name: "Amplified Bible", abbreviation: "AMP", language: "en", group: "Modern", public_domain: false },
        12 => Published { id: "nlt", name: "New Living Translation", abbreviation: "NLT", language: "en", group: "Modern", public_domain: false },
        13 => Published { id: "csb", name: "Christian Standard Bible", abbreviation: "CSB", language: "en", group: "Modern", public_domain: false },
        14 => Published { id: "hcsb", name: "Holman Christian Standard Bible", abbreviation: "HCSB", language: "en", group: "Modern", public_domain: false },
        15 => Published { id: "net", name: "New English Translation", abbreviation: "NET", language: "en", group: "Modern", public_domain: false },
        16 => Published { id: "gnt", name: "Good News Translation", abbreviation: "GNT", language: "en", group: "Everyday", public_domain: false },
        17 => Published { id: "cev", name: "Contemporary English Version", abbreviation: "CEV", language: "en", group: "Everyday", public_domain: false },
        18 => Published { id: "tlb", name: "The Living Bible", abbreviation: "TLB", language: "en", group: "Everyday", public_domain: false },
        19 => Published { id: "ncv", name: "New Century Version", abbreviation: "NCV", language: "en", group: "Everyday", public_domain: false },
        20 => Published { id: "gnb", name: "Good News Bible", abbreviation: "GNB", language: "en", group: "Everyday", public_domain: false },
        _ => Published { id: "erv", name: "Easy-to-Read Version", abbreviation: "ERV", language: "en", group: "Everyday", public_domain: false },
    }
}
/// The ids of the three translations that ship with Selah.
pub open spec fn builtin_ids() -> Seq<Seq<char>> {
    seq!["web"@, "kjv"@, "asv"@]
}

/// Whether an id names one of the bundled translations, ignoring ASCII case
/// and surrounding whitespace.
pub open spec fn spec_is_builtin(id: Seq<char>) -> bool {
    exists|i: int| 0 <= i < 3 && eq_ignore_case(#[trigger] builtin_ids()[i], trim(id))
}

/// Whether an id belongs to one of the bundled translations.
pub fn is_builtin(id: &str) -> (b: bool)
    ensures
        b == spec_is_builtin(id@),
{
    let chars = to_chars(id);
    let t = trim_chars(&chars);
    let web = to_chars("web");
    let kjv = to_chars("kjv");
    let asv = to_chars("asv");
    let r = eq_ignore_ascii_case(&web, &t) || eq_ignore_ascii_case(&kjv, &t)
        || eq_ignore_ascii_case(&asv, &t);
    proof {
        let ids = builtin_ids();
        assert(ids[0] == web@ && ids[1] == kjv@ && ids[2] == asv@);
        if !r {
            assert forall|i: int| 0 <= i < 3 implies !eq_ignore_case(
                #[trigger] builtin_ids()[i],
                trim(id@),
            ) by {
                if i == 0 {
                } else if i == 1 {
                } else {
                }
            }
        }
    }
    r
}

/// Whether catalogue entry `k` is the first whose id equals `key`, ignoring
/// ASCII case.
pub open spec fn is_first_published(key: Seq<char>, k: int) -> bool {
    &&& 0 <= k < 22
    &&& eq_ignore_case(spec_published_at(k).id, key)
    &&& forall|m: int| 0 <= m < k ==> !eq_ignore_case(#[trigger] spec_published_at(m).id, key)
}

/// The catalogue entry for an id, ignoring case and surrounding whitespace.
pub open spec fn spec_find(id: Seq<char>) -> Option<PublishedSpec> {
    let key = trim(id);
    if exists|k: int| 0 <= k < 22 && eq_ignore_case(#[trigger] spec_published_at(k).id, key) {
        Some(spec_published_at(choose|k: int| #[trigger] is_first_published(key, k)))
    } else {
        None
    }
}

/// Looks a published translation up by id, case-insensitively.
pub fn find(id: &str) -> (r: Option<Published>)
    ensures
        match r {
            Some(p) => spec_find(id@) == Some(p@),
            None => spec_find(id@) is None,
        },
{
    let chars = to_chars(id);
    let key = trim_chars(&chars);
    let mut k: usize = 0;
    while k < PUBLISHED_COUNT
        invariant
            k <= 22,
            key@ == trim(id@),
            forall|m: int| 0 <= m < k ==> !eq_ignore_case(#[trigger] spec_published_at(m).id, key@),
        decreases 22 - k,
    {
        let p = published_at(k);
        let pid = to_chars(p.id);
        if eq_ignore_ascii_case(&pid, &key) {
            proof {
                let kk = k as int;
                assert(is_first_published(key@, kk));
                let c = choose|c: int| #[trigger] is_first_published(key@, c);
                assert(is_first_published(key@, c));
                if c < kk {
                    assert(!eq_ignore_case(spec_published_at(c).id, key@));
                }
                if c > kk {
                    assert(!eq_ignore_case(spec_published_at(kk).id, key@));
                }
            }
            return Some(p);
        }
        k = k + 1;
    }
    None
}

/// The catalogue entry as it appears before anything is installed.
pub open spec fn entry_matches(e: CatalogueEntry, p: PublishedSpec) -> bool {
    &&& e.id@ == p.id
    &&& e.name@ == p.name
    &&& e.abbreviation@ == p.abbreviation
    &&& e.language@ == p.language
    &&& e.group@ == p.group
    &&& e.builtin == spec_is_builtin(p.id)
    &&& !e.installed
    &&& e.verse_count == 0
    &&& e.public_domain == p.public_domain
}

/// Every published translation, as catalogue entries.
pub fn all() -> (r: Vec<CatalogueEntry>)
    ensures
        r@.len() == 22,
        forall|k: int| 0 <= k < 22 ==> entry_matches(#[trigger] r@[k], spec_published_at(k)),
{
    let mut r: Vec<CatalogueEntry> = Vec::new();
    let mut k: usize = 0;
    while k < PUBLISHED_COUNT
        invariant
            k <= 22,
            r@.len() == k,
            forall|m: int| 0 <= m < k ==> entry_matches(#[trigger] r@[m], spec_published_at(m)),
        decreases 22 - k,
    {
        let p = published_at(k);
        r.push(CatalogueEntry::from_published(&p));
        k = k + 1;
    }
    r
}

fn owned(s: &'static str) -> (r: String)
    ensures
        r@ == s@,
{
    let v = to_chars(s);
    from_chars(&v)
}

impl Published {
    /// The id used in the database.
    pub fn id(&self) -> (s: &'static str)
        ensures
            s@ == self@.id,
    {
        self.id
    }

    /// The full name, e.g. `The Message`.
    pub fn name(&self) -> (s: &'static str)
        ensures
            s@ == self@.name,
    {
        self.name
    }

    /// The usual abbreviation, e.g. `MSG`.
    pub fn abbreviation(&self) -> (s: &'static str)
        ensures
            s@ == self@.abbreviation,
    {
        self.abbreviation
    }

    /// The language code, e.g. `en`.
    pub fn language(&self) -> (s: &'static str)
        ensures
            s@ == self@.language,
    {
        self.language
    }
}

impl CatalogueEntry {
    /// The entry as it appears before anything is installed.
    pub fn from_published(published: &Published) -> (e: Self)
        ensures
            entry_matches(e, published@),
    {
        Self {
            id: owned(published.id),
            name: owned(published.name),
            abbreviation: owned(published.abbreviation),
            language: owned(published.language),
            group: owned(published.group),
            builtin: is_builtin(published.id),
            installed: false,
            verse_count: 0,
            public_domain: published.public_domain,
        }
    }
}

/// A character an id may hold: a lowercase ASCII letter or a digit.
pub open spec fn is_id_char(c: char) -> bool {
    ('a' <= c && c <= 'z') || ('0' <= c && c <= '9')
}

/// Every catalogue id is a non-empty run of lowercase letters and digits.
pub proof fn lemma_published_id_shape(i: int)
    requires
        0 <= i < 22,
    ensures
        spec_published_at(i).id.len() > 0,
        forall|c: int| 0 <= c < spec_published_at(i).id.len() ==> is_id_char(#[trigger] spec_published_at(i).id[c]),
{
    reveal_strlit("kjv");
    reveal_strlit("nkjv");
    reveal_strlit("asv");
    reveal_strlit("web");
    reveal_strlit("rsv");
    reveal_strlit("nrsv");
    reveal_strlit("kj21");
    reveal_strlit("niv");
    reveal_strlit("esv");
    reveal_strlit("nasb");
    reveal_strlit("msg");
    reveal_strlit("amp");
    reveal_strlit("nlt");
    reveal_strlit("csb");
    reveal_strlit("hcsb");
    reveal_strlit("net");
    reveal_strlit("gnt");
    reveal_strlit("cev");
    reveal_strlit("tlb");
    reveal_strlit("ncv");
    reveal_strlit("gnb");
    reveal_strlit("erv");
}

/// No two catalogue entries share an id.
#[verifier::rlimit(50)]
pub proof fn lemma_published_ids_distinct(i: int, j: int)
    requires
        0 <= i < j < 22,
    ensures
        spec_published_at(i).id != spec_published_at(j).id,
{
    reveal_strlit("kjv");
    reveal_strlit("nkjv");
    reveal_strlit("asv");
    reveal_strlit("web");
    reveal_strlit("rsv");
    reveal_strlit("nrsv");
    reveal_strlit("kj21");
    reveal_strlit("niv");
    reveal_strlit("esv");
    reveal_strlit("nasb");
    reveal_strlit("msg");
    reveal_strlit("amp");
    reveal_strlit("nlt");
    reveal_strlit("csb");
    reveal_strlit("hcsb");
    reveal_strlit("net");
    reveal_strlit("gnt");
    reveal_strlit("cev");
    reveal_strlit("tlb");
    reveal_strlit("ncv");
    reveal_strlit("gnb");
    reveal_strlit("erv");
    let a = spec_published_at(i).id;
    let b = spec_published_at(j).id;
    if a == b {
        assert(a.len() == b.len());
        assert(a[0] == b[0] && a[1] == b[1] && a[2] == b[2]);
        if a.len() > 3 {
            assert(a[3] == b[3]);
        }
    }
}

/// Distinct catalogue entries have ids that differ even when ASCII case is
/// ignored.
proof fn lemma_ids_differ_ignoring_case(m: int, k: int)
    requires
        0 <= m < 22,
        0 <= k < 22,
        m != k,
    ensures
        !eq_ignore_case(spec_published_at(m).id, spec_published_at(k).id),
{
    let a = spec_published_at(m).id;
    let b = spec_published_at(k).id;
    lemma_published_id_shape(m);
    lemma_published_id_shape(k);
    if m < k {
        lemma_published_ids_distinct(m, k);
    } else {
        lemma_published_ids_distinct(k, m);
    }
    if eq_ignore_case(a, b) {
        assert forall|i: int| 0 <= i < a.len() implies a[i] == b[i] by {
            assert(is_id_char(a[i]));
            assert(is_id_char(b[i]));
            assert(ascii_lower(a[i]) == ascii_lower(b[i]));
        }
        assert(a =~= b);
    }
}

/// A catalogue id has no surrounding whitespace.
proof fn lemma_id_is_trimmed(k: int)
    requires
        0 <= k < 22,
    ensures
        trim(spec_published_at(k).id) == spec_published_at(k).id,
{
    let a = spec_published_at(k).id;
    lemma_published_id_shape(k);
    assert(is_id_char(a[0]));
    assert(is_id_char(a[a.len() - 1]));
    assert(trim_start(a) == a);
    assert(trim_end(a) == a);
}

/// Looking up any catalogue id finds that very entry.
pub proof fn lemma_find_each_entry(k: int)
    requires
        0 <= k < 22,
    ensures
        spec_find(spec_published_at(k).id) == Some(spec_published_at(k)),
{
    let key = spec_published_at(k).id;
    lemma_id_is_trimmed(k);
    assert forall|m: int| 0 <= m < k implies !eq_ignore_case(#[trigger] spec_published_at(m).id, key) by {
        lemma_ids_differ_ignoring_case(m, k);
    }
    assert(eq_ignore_case(key, key));
    assert(is_first_published(key, k));
    let c = choose|c: int| #[trigger] is_first_published(key, c);
    assert(is_first_published(key, c));
    if c != k {
        lemma_ids_differ_ignoring_case(c, k);
    }
}

/// Exactly the three bundled translations, KJV, ASV and WEB, are Selah's
/// own.
pub proof fn lemma_builtin_entries(k: int)
    requires
        0 <= k < 22,
    ensures
        spec_is_builtin(spec_published_at(k).id) <==> (k == 0 || k == 2 || k == 3),
{
    let key = spec_published_at(k).id;
    lemma_id_is_trimmed(k);
    assert(builtin_ids()[0] == spec_published_at(3).id);
    assert(builtin_ids()[1] == spec_published_at(0).id);
    assert(builtin_ids()[2] == spec_published_at(2).id);
    if k == 0 || k == 2 || k == 3 {
        assert(eq_ignore_case(key, key));
        let i: int = if k == 3 { 0 } else if k == 0 { 1 } else { 2 };
        assert(eq_ignore_case(builtin_ids()[i], trim(key)));
    } else {
        lemma_ids_differ_ignoring_case(3, k);
        lemma_ids_differ_ignoring_case(0, k);
        lemma_ids_differ_ignoring_case(2, k);
        assert forall|i: int| 0 <= i < 3 implies !eq_ignore_case(#[trigger] builtin_ids()[i], trim(key)) by {
            if i == 0 {
            } else if i == 1 {
            } else {
            }
        }
    }
}

} // verus!
