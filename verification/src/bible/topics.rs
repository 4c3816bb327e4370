//! Ideas for when a search finds nothing.
//!
//! An operator who types *"worried about money"* or *"feeling hopeless"* is
//! usually not looking for a phrase — they are looking for **where to look**.
//! When full-text search comes back empty this module offers passages by
//! theme instead. Only a **reference** is stored here (book, chapter, verse)
//! plus the topic words; the words still come from whatever translation the
//! operator has installed.

use vstd::prelude::*;

use crate::scripture::books::{book_by_id, spec_book_by_id};
use crate::scripture::verses::spec_chapter_verses;
use crate::text::{
    append_str, char_is_alphanumeric, contains_chars, contains_sub, decimal, from_chars,
    has_prefix, is_alphanumeric, lower_chars, lowercase, push_decimal, signed_decimal,
    push_signed_decimal, slice_chars, starts_with, to_chars, trim, trim_chars,
};

verus! {

/// One "you might be looking for…" entry.
#[derive(Debug, Clone, PartialEq)]
pub struct TopicSuggestion {
    /// Short theme name shown as the button label, e.g. `Anxiety`.
    pub topic: String,
    /// Why this passage fits, shown under the label.
    pub why: String,
    pub book_id: i32,
    pub chapter: u16,
    pub verse: u16,
    /// Human-readable reference, e.g. `Philippians 4:6`.
    pub reference: String,
}

/// The mathematical content of a suggestion.
pub struct SuggestionView {
    pub topic: Seq<char>,
    pub why: Seq<char>,
    pub book_id: i32,
    pub chapter: u16,
    pub verse: u16,
    pub reference: Seq<char>,
}

impl View for TopicSuggestion {
    type V = SuggestionView;

    open spec fn view(&self) -> SuggestionView {
        SuggestionView {
            topic: self.topic@,
            why: self.why@,
            book_id: self.book_id,
            chapter: self.chapter,
            verse: self.verse,
            reference: self.reference@,
        }
    }
}

/// The suggestions of a list, each by its view.
pub open spec fn suggestion_views(r: Seq<TopicSuggestion>) -> Seq<SuggestionView> {
    r.map_values(|s: TopicSuggestion| s@)
}

/// A theme and the passage that answers it.
pub struct Topic {
    pub topic: &'static str,
    pub why: &'static str,
    /// Words (and word stems) that make this topic relevant.
    pub keywords: Vec<&'static str>,
    pub book_id: i32,
    pub chapter: u16,
    pub verse: u16,
}

/// The mathematical content of a theme.
pub struct TopicSpec {
    pub topic: Seq<char>,
    pub why: Seq<char>,
    pub keywords: Seq<Seq<char>>,
    pub book_id: int,
    pub chapter: nat,
    pub verse: nat,
}

impl View for Topic {
    type V = TopicSpec;

    closed spec fn view(&self) -> TopicSpec {
        TopicSpec {
            topic: self.topic@,
            why: self.why@,
            keywords: self.keywords@.map_values(|k: &str| k@),
            book_id: self.book_id as int,
            chapter: self.chapter as nat,
            verse: self.verse as nat,
        }
    }
}

/// Number of themes in the table.
pub const TOPIC_COUNT: usize = 31;

/// The theme at position `i` of the table.
#[verifier::opaque]
pub open spec fn spec_topic_at(i: int) -> TopicSpec {
    if i == 0 {
        TopicSpec { topic: "Anxiety"@, why: "for a worried heart"@, keywords: seq!["anxiety"@, "anxious"@, "worry"@, "worried"@, "stress"@, "panic"@], book_id: 50, chapter: 4, verse: 6 }
    } else if i == 1 {
        TopicSpec { topic: "Fear"@, why: "when you are afraid"@, keywords: seq!["fear"@, "afraid"@, "scared"@, "terror"@, "danger"@], book_id: 23, chapter: 41, verse: 10 }
    } else if i == 2 {
        TopicSpec { topic: "Comfort"@, why: "comfort in trouble"@, keywords: seq!["comfort"@, "grief"@, "grieving"@, "sad"@, "sorrow"@, "mourning"@, "loss"@, "death"@, "died"@], book_id: 19, chapter: 23, verse: 1 }
    } else if i == 3 {
        TopicSpec { topic: "Hope"@, why: "when hope is hard to find"@, keywords: seq!["hope"@, "hopeless"@, "despair"@, "discouraged"@, "discouragement"@, "weary"@], book_id: 45, chapter: 15, verse: 13 }
    } else if i == 4 {
        TopicSpec { topic: "Forgiveness"@, why: "being forgiven, and forgiving others"@, keywords: seq!["forgive"@, "forgiveness"@, "guilt"@, "guilty"@, "shame"@, "ashamed"@, "sin"@, "sinned"@], book_id: 62, chapter: 1, verse: 9 }
    } else if i == 5 {
        TopicSpec { topic: "Salvation"@, why: "how someone is saved"@, keywords: seq!["salvation"@, "saved"@, "save"@, "eternal"@, "heaven"@, "hell"@, "gospel"@], book_id: 43, chapter: 3, verse: 16 }
    } else if i == 6 {
        TopicSpec { topic: "Grace"@, why: "grace rather than effort"@, keywords: seq!["grace"@, "mercy"@, "undeserved"@, "kindness"@], book_id: 49, chapter: 2, verse: 8 }
    } else if i == 7 {
        TopicSpec { topic: "Healing"@, why: "for the sick"@, keywords: seq!["heal"@, "healing"@, "sick"@, "sickness"@, "illness"@, "hospital"@, "pain"@, "disease"@], book_id: 59, chapter: 5, verse: 15 }
    } else if i == 8 {
        TopicSpec { topic: "Strength"@, why: "when you have nothing left"@, keywords: seq!["strength"@, "strong"@, "weak"@, "weakness"@, "exhausted"@, "burnout"@], book_id: 50, chapter: 4, verse: 13 }
    } else if i == 9 {
        TopicSpec { topic: "Guidance"@, why: "which way to go"@, keywords: seq!["guidance"@, "guide"@, "direction"@, "decision"@, "decide"@, "choice"@, "wisdom"@, "confused"@], book_id: 20, chapter: 3, verse: 5 }
    } else if i == 10 {
        TopicSpec { topic: "Prayer"@, why: "how to pray"@, keywords: seq!["pray"@, "prayer"@, "praying"@, "intercede"@, "intercession"@], book_id: 40, chapter: 6, verse: 9 }
    } else if i == 11 {
        TopicSpec { topic: "Peace"@, why: "rest for a restless mind"@, keywords: seq!["peace"@, "peaceful"@, "rest"@, "calm"@, "turmoil"@], book_id: 43, chapter: 14, verse: 27 }
    } else if i == 12 {
        TopicSpec { topic: "Joy"@, why: "joy that does not depend on circumstances"@, keywords: seq!["joy"@, "joyful"@, "happy"@, "happiness"@, "rejoice"@, "celebrate"@], book_id: 19, chapter: 16, verse: 11 }
    } else if i == 13 {
        TopicSpec { topic: "Love"@, why: "what love actually is"@, keywords: seq!["love"@, "loving"@, "charity"@, "beloved"@], book_id: 46, chapter: 13, verse: 4 }
    } else if i == 14 {
        TopicSpec { topic: "Marriage"@, why: "for husbands, wives and weddings"@, keywords: seq!["marriage"@, "married"@, "wedding"@, "husband"@, "wife"@, "spouse"@], book_id: 49, chapter: 5, verse: 25 }
    } else if i == 15 {
        TopicSpec { topic: "Family"@, why: "for parents and children"@, keywords: seq!["family"@, "children"@, "child"@, "parent"@, "parents"@, "mother"@, "father"@, "son"@, "daughter"@], book_id: 20, chapter: 22, verse: 6 }
    } else if i == 16 {
        TopicSpec { topic: "Money"@, why: "for giving, debt and worry about provision"@, keywords: seq!["money"@, "finances"@, "financial"@, "debt"@, "give"@, "giving"@, "offering"@, "tithe"@, "poor"@], book_id: 40, chapter: 6, verse: 33 }
    } else if i == 17 {
        TopicSpec { topic: "Work"@, why: "for work and effort"@, keywords: seq!["work"@, "job"@, "labour"@, "labor"@, "business"@, "study"@, "students"@], book_id: 51, chapter: 3, verse: 23 }
    } else if i == 18 {
        TopicSpec { topic: "Patience"@, why: "for waiting well"@, keywords: seq!["patience"@, "patient"@, "wait"@, "waiting"@, "delay"@], book_id: 23, chapter: 40, verse: 31 }
    } else if i == 19 {
        TopicSpec { topic: "Temptation"@, why: "when you are being pulled away"@, keywords: seq!["temptation"@, "tempted"@, "tempt"@, "trial"@, "trials"@, "addiction"@], book_id: 46, chapter: 10, verse: 13 }
    } else if i == 20 {
        TopicSpec { topic: "Baptism"@, why: "for a baptism service"@, keywords: seq!["baptism"@, "baptised"@, "baptized"@, "baptise"@, "baptize"@, "immersion"@], book_id: 44, chapter: 2, verse: 38 }
    } else if i == 21 {
        TopicSpec { topic: "Communion"@, why: "for the Lord's supper"@, keywords: seq!["communion"@, "supper"@, "bread"@, "wine"@, "covenant"@, "sacrament"@], book_id: 46, chapter: 11, verse: 23 }
    } else if i == 22 {
        TopicSpec { topic: "Christmas"@, why: "for the nativity"@, keywords: seq!["christmas"@, "nativity"@, "manger"@, "bethlehem"@, "incarnation"@], book_id: 42, chapter: 2, verse: 11 }
    } else if i == 23 {
        TopicSpec { topic: "Easter"@, why: "for the resurrection"@, keywords: seq!["easter"@, "resurrection"@, "resurrected"@, "risen"@, "tomb"@], book_id: 40, chapter: 28, verse: 6 }
    } else if i == 24 {
        TopicSpec { topic: "Praise"@, why: "for a song or a call to worship"@, keywords: seq!["praise"@, "worship"@, "hymn"@, "sing"@, "glory"@, "glorify"@], book_id: 19, chapter: 100, verse: 1 }
    } else if i == 25 {
        TopicSpec { topic: "Thanksgiving"@, why: "for gratitude and harvest"@, keywords: seq!["thanks"@, "thanksgiving"@, "grateful"@, "gratitude"@, "thankful"@, "harvest"@], book_id: 52, chapter: 5, verse: 18 }
    } else if i == 26 {
        TopicSpec { topic: "Protection"@, why: "for safety and shelter"@, keywords: seq!["protection"@, "protect"@, "safe"@, "safety"@, "shelter"@, "refuge"@, "rescue"@], book_id: 19, chapter: 91, verse: 1 }
    } else if i == 27 {
        TopicSpec { topic: "New beginnings"@, why: "for a new year or a new start"@, keywords: seq!["beginning"@, "beginnings"@, "fresh"@], book_id: 23, chapter: 43, verse: 19 }
    } else if i == 28 {
        TopicSpec { topic: "The lost"@, why: "for outreach and invitation"@, keywords: seq!["lost"@, "outreach"@, "invite"@, "invitation"@, "mission"@, "missionary"@, "seeking"@], book_id: 42, chapter: 19, verse: 10 }
    } else if i == 29 {
        TopicSpec { topic: "Doubting"@, why: "when faith feels thin"@, keywords: seq!["doubt"@, "doubts"@, "doubting"@, "faith"@, "believe"@, "belief"@, "unbelief"@], book_id: 41, chapter: 9, verse: 24 }
    } else {
        TopicSpec { topic: "Second coming"@, why: "for the return of Christ"@, keywords: seq!["revelation"@, "judgement"@, "judgment"@, "last"@], book_id: 66, chapter: 21, verse: 4 }
    }
}

/// The theme at position `i` of the table.
fn topic_at(i: usize) -> (t: Topic)
    requires
        i < 31,
    ensures
        t@ == spec_topic_at(i as int),
{
    let t = match i {
        0 => Topic { topic: "Anxiety", why: "for a worried heart", keywords: vec!["anxiety", "anxious", "worry", "worried", "stress", "panic"], book_id: 50, chapter: 4, verse: 6 },
        1 => Topic { topic: "Fear", why: "when you are afraid", keywords: vec!["fear", "afraid", "scared", "terror", "danger"], book_id: 23, chapter: 41, verse: 10 },
        2 => Topic { topic: "Comfort", why: "comfort in trouble", keywords: vec!["comfort", "grief", "grieving", "sad", "sorrow", "mourning", "loss", "death", "died"], book_id: 19, chapter: 23, verse: 1 },
        3 => Topic { topic: "Hope", why: "when hope is hard to find", keywords: vec!["hope", "hopeless", "despair", "discouraged", "discouragement", "weary"], book_id: 45, chapter: 15, verse: 13 },
        4 => Topic { topic: "Forgiveness", why: "being forgiven, and forgiving others", keywords: vec!["forgive", "forgiveness", "guilt", "guilty", "shame", "ashamed", "sin", "sinned"], book_id: 62, chapter: 1, verse: 9 },
        5 => Topic { topic: "Salvation", why: "how someone is saved", keywords: vec!["salvation", "saved", "save", "eternal", "heaven", "hell", "gospel"], book_id: 43, chapter: 3, verse: 16 },
        6 => Topic { topic: "Grace", why: "grace rather than effort", keywords: vec!["grace", "mercy", "undeserved", "kindness"], book_id: 49, chapter: 2, verse: 8 },
        7 => Topic { topic: "Healing", why: "for the sick", keywords: vec!["heal", "healing", "sick", "sickness", "illness", "hospital", "pain", "disease"], book_id: 59, chapter: 5, verse: 15 },
        8 => Topic { topic: "Strength", why: "when you have nothing left", keywords: vec!["strength", "strong", "weak", "weakness", "exhausted", "burnout"], book_id: 50, chapter: 4, verse: 13 },
        9 => Topic { topic: "Guidance", why: "which way to go", keywords: vec!["guidance", "guide", "direction", "decision", "decide", "choice", "wisdom", "confused"], book_id: 20, chapter: 3, verse: 5 },
        10 => Topic { topic: "Prayer", why: "how to pray", keywords: vec!["pray", "prayer", "praying", "intercede", "intercession"], book_id: 40, chapter: 6, verse: 9 },
        11 => Topic { topic: "Peace", why: "rest for a restless mind", keywords: vec!["peace", "peaceful", "rest", "calm", "turmoil"], book_id: 43, chapter: 14, verse: 27 },
        12 => Topic { topic: "Joy", why: "joy that does not depend on circumstances", keywords: vec!["joy", "joyful", "happy", "happiness", "rejoice", "celebrate"], book_id: 19, chapter: 16, verse: 11 },
        13 => Topic { topic: "Love", why: "what love actually is", keywords: vec!["love", "loving", "charity", "beloved"], book_id: 46, chapter: 13, verse: 4 },
        14 => Topic { topic: "Marriage", why: "for husbands, wives and weddings", keywords: vec!["marriage", "married", "wedding", "husband", "wife", "spouse"], book_id: 49, chapter: 5, verse: 25 },
        15 => Topic { topic: "Family", why: "for parents and children", keywords: vec!["family", "children", "child", "parent", "parents", "mother", "father", "son", "daughter"], book_id: 20, chapter: 22, verse: 6 },
        16 => Topic { topic: "Money", why: "for giving, debt and worry about provision", keywords: vec!["money", "finances", "financial", "debt", "give", "giving", "offering", "tithe", "poor"], book_id: 40, chapter: 6, verse: 33 },
        17 => Topic { topic: "Work", why: "for work and effort", keywords: vec!["work", "job", "labour", "labor", "business", "study", "students"], book_id: 51, chapter: 3, verse: 23 },
        18 => Topic { topic: "Patience", why: "for waiting well", keywords: vec!["patience", "patient", "wait", "waiting", "delay"], book_id: 23, chapter: 40, verse: 31 },
        19 => Topic { topic: "Temptation", why: "when you are being pulled away", keywords: vec!["temptation", "tempted", "tempt", "trial", "trials", "addiction"], book_id: 46, chapter: 10, verse: 13 },
        20 => Topic { topic: "Baptism", why: "for a baptism service", keywords: vec!["baptism", "baptised", "baptized", "baptise", "baptize", "immersion"], book_id: 44, chapter: 2, verse: 38 },
        21 => Topic { topic: "Communion", why: "for the Lord's supper", keywords: vec!["communion", "supper", "bread", "wine", "covenant", "sacrament"], book_id: 46, chapter: 11, verse: 23 },
        22 => Topic { topic: "Christmas", why: "for the nativity", keywords: vec!["christmas", "nativity", "manger", "bethlehem", "incarnation"], book_id: 42, chapter: 2, verse: 11 },
        23 => Topic { topic: "Easter", why: "for the resurrection", keywords: vec!["easter", "resurrection", "resurrected", "risen", "tomb"], book_id: 40, chapter: 28, verse: 6 },
        24 => Topic { topic: "Praise", why: "for a song or a call to worship", keywords: vec!["praise", "worship", "hymn", "sing", "glory", "glorify"], book_id: 19, chapter: 100, verse: 1 },
        25 => Topic { topic: "Thanksgiving", why: "for gratitude and harvest", keywords: vec!["thanks", "thanksgiving", "grateful", "gratitude", "thankful", "harvest"], book_id: 52, chapter: 5, verse: 18 },
        26 => Topic { topic: "Protection", why: "for safety and shelter", keywords: vec!["protection", "protect", "safe", "safety", "shelter", "refuge", "rescue"], book_id: 19, chapter: 91, verse: 1 },
        27 => Topic { topic: "New beginnings", why: "for a new year or a new start", keywords: vec!["beginning", "beginnings", "fresh"], book_id: 23, chapter: 43, verse: 19 },
        28 => Topic { topic: "The lost", why: "for outreach and invitation", keywords: vec!["lost", "outreach", "invite", "invitation", "mission", "missionary", "seeking"], book_id: 42, chapter: 19, verse: 10 },
        29 => Topic { topic: "Doubting", why: "when faith feels thin", keywords: vec!["doubt", "doubts", "doubting", "faith", "believe", "belief", "unbelief"], book_id: 41, chapter: 9, verse: 24 },
        _ => Topic { topic: "Second coming", why: "for the return of Christ", keywords: vec!["revelation", "judgement", "judgment", "last"], book_id: 66, chapter: 21, verse: 4 },
    };
    proof {
        reveal(spec_topic_at);
    }
    assert(t@.keywords =~= spec_topic_at(i as int).keywords);
    t
}
/// Every theme, in table order.
pub fn all_topics() -> (r: Vec<Topic>)
    ensures
        r@.len() == 31,
        forall|k: int| 0 <= k < 31 ==> (#[trigger] r@[k])@ == spec_topic_at(k),
{
    let mut r: Vec<Topic> = Vec::new();
    let mut k: usize = 0;
    while k < TOPIC_COUNT
        invariant
            k <= 31,
            r@.len() == k,
            forall|m: int| 0 <= m < k ==> (#[trigger] r@[m])@ == spec_topic_at(m),
        decreases 31 - k,
    {
        r.push(topic_at(k));
        k = k + 1;
    }
    r
}

// ---------------------------------------------------------------------------
// Query words and scores
// ---------------------------------------------------------------------------

/// Characters that belong to a query word: letters, digits and `'`.
pub open spec fn is_term_char(c: char) -> bool {
    char_is_alphanumeric(c) || c == '\''
}

/// End of the run of word characters starting at `i`.
pub open spec fn term_end(s: Seq<char>, i: int) -> int
    decreases s.len() - i,
{
    if i < 0 || i >= s.len() || !is_term_char(s[i]) {
        i
    } else {
        term_end(s, i + 1)
    }
}

proof fn lemma_term_end(s: Seq<char>, i: int)
    requires
        0 <= i <= s.len(),
    ensures
        i <= term_end(s, i) <= s.len(),
        i < s.len() && is_term_char(s[i]) ==> term_end(s, i) > i,
    decreases s.len() - i,
{
    if i < s.len() && is_term_char(s[i]) {
        lemma_term_end(s, i + 1);
    }
}

/// The maximal runs of word characters in `s[i..]`.
pub open spec fn terms_from(s: Seq<char>, i: int) -> Seq<Seq<char>>
    decreases s.len() - i,
{
    if i < 0 || i >= s.len() {
        seq![]
    } else if !is_term_char(s[i]) {
        terms_from(s, i + 1)
    } else {
        let j = term_end(s, i);
        if j <= i || j > s.len() {
            seq![]
        } else {
            seq![s.subrange(i, j)] + terms_from(s, j)
        }
    }
}

/// The query as it is matched: trimmed and lowercased.
pub open spec fn normalised_query(q: Seq<char>) -> Seq<char> {
    lowercase(trim(q))
}

/// The words of a query.
pub open spec fn query_terms(q: Seq<char>) -> Seq<Seq<char>> {
    terms_from(normalised_query(q), 0)
}

/// Splits `s` into its words: the maximal runs of letters, digits and `'`.
pub fn split_terms(s: &Vec<char>) -> (r: Vec<Vec<char>>)
    ensures
        r@.map_values(|w: Vec<char>| w@) == terms_from(s@, 0),
{
    let mut r: Vec<Vec<char>> = Vec::new();
    let mut i: usize = 0;
    while i < s.len()
        invariant
            i <= s.len(),
            r@.map_values(|w: Vec<char>| w@) + terms_from(s@, i as int) == terms_from(s@, 0),
        decreases s.len() - i,
    {
        if !(is_alphanumeric(s[i]) || s[i] == '\'') {
            i = i + 1;
        } else {
            let start = i;
            while i < s.len() && (is_alphanumeric(s[i]) || s[i] == '\'')
                invariant
                    start <= i <= s.len(),
                    term_end(s@, start as int) == term_end(s@, i as int),
                decreases s.len() - i,
            {
                i = i + 1;
            }
            proof {
                lemma_term_end(s@, start as int);
            }
            let w = slice_chars(s, start, i);
            let ghost before = r@.map_values(|w: Vec<char>| w@);
            r.push(w);
            assert(r@.map_values(|w: Vec<char>| w@) =~= before.push(w@));
            assert(terms_from(s@, start as int) == seq![s@.subrange(start as int, i as int)]
                + terms_from(s@, i as int));
            assert(before + terms_from(s@, start as int) =~= before.push(w@) + terms_from(
                s@,
                i as int,
            ));
        }
    }
    assert(r@.map_values(|w: Vec<char>| w@) + terms_from(s@, i as int) =~= r@.map_values(
        |w: Vec<char>| w@,
    ));
    r
}

/// Whether a query word refers to `keyword`: it is the keyword, or — for
/// keywords of four letters or more — a stem of it: a longer word starting
/// with it (`praying` → `pray`), or its `-ies` plural when it ends in `y`
/// (`worries` → `worry`). Short keywords are matched exactly so `in` does
/// not match `invite`.
pub open spec fn spec_matches_word(word: Seq<char>, keyword: Seq<char>) -> bool {
    ||| word == keyword
    ||| keyword.len() >= 4 && word.len() > keyword.len() && starts_with(word, keyword)
    ||| keyword.len() >= 4 && keyword.last() == 'y' && word == keyword.drop_last() + "ies"@
}

fn matches_word_chars(word: &Vec<char>, keyword: &Vec<char>) -> (r: bool)
    ensures
        r == spec_matches_word(word@, keyword@),
{
    if crate::text::chars_eq(word, keyword) {
        return true;
    }
    if keyword.len() >= 4 && word.len() > keyword.len() && has_prefix(word, keyword) {
        return true;
    }
    if keyword.len() >= 4 && keyword[keyword.len() - 1] == 'y' {
        let mut plural = crate::text::slice_chars(keyword, 0, keyword.len() - 1);
        crate::text::append_str(&mut plural, "ies");
        assert(keyword@.subrange(0, keyword@.len() - 1) =~= keyword@.drop_last());
        return crate::text::chars_eq(word, &plural);
    }
    false
}

/// Whether a query word refers to `keyword`.
pub fn matches_word(word: &str, keyword: &str) -> (r: bool)
    ensures
        r == spec_matches_word(word@, keyword@),
{
    let w = to_chars(word);
    let k = to_chars(keyword);
    matches_word_chars(&w, &k)
}

/// How many query words refer to `keyword`.
pub open spec fn count_matches(words: Seq<Seq<char>>, keyword: Seq<char>) -> int
    decreases words.len(),
{
    if words.len() == 0 {
        0
    } else {
        count_matches(words.drop_last(), keyword) + if spec_matches_word(words.last(), keyword) {
            1int
        } else {
            0int
        }
    }
}

/// The weight of one keyword: one per query word that refers to it, plus two
/// when a keyword with a space in it occurs in the query as typed.
pub open spec fn keyword_score(words: Seq<Seq<char>>, query: Seq<char>, keyword: Seq<char>) -> int {
    count_matches(words, keyword) + if contains_sub(keyword, seq![' ']) && contains_sub(
        query,
        keyword,
    ) {
        2int
    } else {
        0int
    }
}

/// The total weight of a list of keywords.
pub open spec fn keywords_score(words: Seq<Seq<char>>, query: Seq<char>, kws: Seq<Seq<char>>) -> int
    decreases kws.len(),
{
    if kws.len() == 0 {
        0
    } else {
        keywords_score(words, query, kws.drop_last()) + keyword_score(words, query, kws.last())
    }
}

/// How relevant theme `k` is to query `q` (0 when it is not relevant).
#[verifier::opaque]
pub open spec fn topic_score(q: Seq<char>, k: int) -> int {
    keywords_score(query_terms(q), normalised_query(q), spec_topic_at(k).keywords)
}

proof fn lemma_count_bounds(words: Seq<Seq<char>>, keyword: Seq<char>)
    ensures
        0 <= count_matches(words, keyword) <= words.len(),
    decreases words.len(),
{
    if words.len() > 0 {
        lemma_count_bounds(words.drop_last(), keyword);
    }
}

proof fn lemma_keywords_bounds(words: Seq<Seq<char>>, query: Seq<char>, kws: Seq<Seq<char>>)
    ensures
        0 <= keywords_score(words, query, kws) <= kws.len() * (words.len() + 2),
    decreases kws.len(),
{
    if kws.len() > 0 {
        lemma_keywords_bounds(words, query, kws.drop_last());
        lemma_count_bounds(words, kws.last());
        assert((kws.len() - 1) * (words.len() + 2) + (words.len() + 2) == kws.len() * (words.len()
            + 2)) by (nonlinear_arith);
    }
}

fn keyword_score_exec(words: &Vec<Vec<char>>, query: &Vec<char>, keyword: &Vec<char>) -> (r: u128)
    ensures
        r == keyword_score(words@.map_values(|w: Vec<char>| w@), query@, keyword@),
{
    let ghost ws = words@.map_values(|w: Vec<char>| w@);
    let mut count: u128 = 0;
    let mut i: usize = 0;
    while i < words.len()
        invariant
            ws == words@.map_values(|w: Vec<char>| w@),
            i <= words.len(),
            count == count_matches(ws.take(i as int), keyword@),
            count <= i,
        decreases words.len() - i,
    {
        let m = matches_word_chars(&words[i], keyword);
        proof {
            assert(ws.take(i + 1).drop_last() =~= ws.take(i as int));
            assert(ws.take(i + 1).last() == words@[i as int]@);
        }
        if m {
            count = count + 1;
        }
        i = i + 1;
    }
    assert(ws.take(words.len() as int) =~= ws);
    let mut space: Vec<char> = Vec::new();
    space.push(' ');
    assert(space@ =~= seq![' ']);
    if contains_chars(keyword, &space) && contains_chars(query, keyword) {
        count + 2
    } else {
        count
    }
}

/// The score of every theme for a query.
fn topic_scores(words: &Vec<Vec<char>>, query: &Vec<char>, topics: &Vec<Topic>) -> (r: Vec<u128>)
    requires
        topics@.len() == 31,
        forall|k: int| 0 <= k < 31 ==> (#[trigger] topics@[k])@ == spec_topic_at(k),
    ensures
        r@.len() == 31,
        forall|k: int|
            0 <= k < 31 ==> #[trigger] r@[k] == keywords_score(
                words@.map_values(|w: Vec<char>| w@),
                query@,
                spec_topic_at(k).keywords,
            ),
{
    let ghost ws = words@.map_values(|w: Vec<char>| w@);
    let mut r: Vec<u128> = Vec::new();
    let mut k: usize = 0;
    while k < TOPIC_COUNT
        invariant
            ws == words@.map_values(|w: Vec<char>| w@),
            topics@.len() == 31,
            forall|m: int| 0 <= m < 31 ==> (#[trigger] topics@[m])@ == spec_topic_at(m),
            k <= 31,
            r@.len() == k,
            forall|m: int|
                0 <= m < k ==> #[trigger] r@[m] == keywords_score(
                    ws,
                    query@,
                    spec_topic_at(m).keywords,
                ),
        decreases 31 - k,
    {
        let topic = &topics[k];
        let ghost kws = spec_topic_at(k as int).keywords;
        let mut total: u128 = 0;
        let mut j: usize = 0;
        let nw: usize = words.len();
        proof {
            lemma_keywords_bounds(ws, query@, kws);
            assert(kws.len() <= 9) by {
                reveal(spec_topic_at);
                assert(topic@.keywords.len() == topic.keywords@.len());
            }
        }
        while j < topic.keywords.len()
            invariant
                topic@ == spec_topic_at(k as int),
                kws == spec_topic_at(k as int).keywords,
                kws.len() == topic.keywords@.len(),
                ws == words@.map_values(|w: Vec<char>| w@),
                j <= topic.keywords@.len(),
                total == keywords_score(ws, query@, kws.take(j as int)),
                total <= j * (words@.len() + 2),
                words@.len() == nw,
                kws.len() <= 9,
                j <= 9,
            decreases topic.keywords@.len() - j,
        {
            let kw = to_chars(topic.keywords[j]);
            assert(kw@ == kws[j as int]);
            let s = keyword_score_exec(words, query, &kw);
            proof {
                assert(kws.take(j + 1).drop_last() =~= kws.take(j as int));
                lemma_count_bounds(ws, kw@);
                assert(s <= words@.len() + 2);
                assert(total + s <= (j + 1) * (words@.len() + 2)) by (nonlinear_arith)
                    requires
                        total <= j * (words@.len() + 2),
                        s <= words@.len() + 2,
                ;
                assert((j + 1) * (words@.len() + 2) <= 10 * (usize::MAX as int + 2)) by (
                nonlinear_arith)
                    requires
                        j + 1 <= 10,
                        words@.len() <= usize::MAX,
                ;
            }
            total = total + s;
            j = j + 1;
        }
        assert(kws.take(kws.len() as int) =~= kws);
        r.push(total);
        k = k + 1;
    }
    r
}

// ---------------------------------------------------------------------------
// Ranking
// ---------------------------------------------------------------------------

/// Theme `a` is listed before theme `b`: it scores higher, or scores the same
/// and comes first in the table.
pub open spec fn ranks_before(q: Seq<char>, a: int, b: int) -> bool {
    topic_score(q, a) > topic_score(q, b) || (topic_score(q, a) == topic_score(q, b) && a < b)
}

/// `r` lists exactly the relevant themes, most relevant first, ties in table
/// order.
pub open spec fn is_ranking(q: Seq<char>, r: Seq<int>) -> bool {
    &&& forall|i: int| 0 <= i < r.len() ==> 0 <= #[trigger] r[i] < 31 && topic_score(q, r[i]) > 0
    &&& forall|k: int| 0 <= k < 31 && topic_score(q, k) > 0 ==> #[trigger] r.contains(k)
    &&& forall|i: int, j: int| 0 <= i < j < r.len() ==> ranks_before(q, #[trigger] r[i], #[trigger] r[j])
}

/// There is only one ranking of a query: the same query always gives the
/// same list.
pub proof fn lemma_ranking_unique(q: Seq<char>, r1: Seq<int>, r2: Seq<int>)
    requires
        is_ranking(q, r1),
        is_ranking(q, r2),
    ensures
        r1 == r2,
{
    // The first place where the two lists differ leads to a contradiction.
    if exists|i: int| 0 <= i < r1.len() && 0 <= i < r2.len() && r1[i] != r2[i] {
        lemma_first_difference(r1, r2);
        let i = choose|i: int|
            0 <= i < r1.len() && 0 <= i < r2.len() && r1[i] != r2[i] && forall|m: int|
                0 <= m < i ==> r1[m] == r2[m];
        lemma_moved_later(q, r1, r2, i);
        lemma_moved_later(q, r2, r1, i);
        assert(false);
    }
    lemma_no_longer(q, r1, r2);
    lemma_no_longer(q, r2, r1);
    assert(r1 =~= r2);
}

/// Where two rankings first differ, the theme of the first list comes later
/// in the second, so the second list's theme ranks before it.
proof fn lemma_moved_later(q: Seq<char>, r1: Seq<int>, r2: Seq<int>, i: int)
    requires
        is_ranking(q, r1),
        is_ranking(q, r2),
        0 <= i < r1.len(),
        0 <= i < r2.len(),
        r1[i] != r2[i],
        forall|m: int| 0 <= m < i ==> r1[m] == r2[m],
    ensures
        ranks_before(q, r2[i], r1[i]),
{
    let a = r1[i];
    assert(0 <= a < 31 && topic_score(q, a) > 0);
    assert(r2.contains(a));
    let ja = choose|j: int| 0 <= j < r2.len() && r2[j] == a;
    if ja < i {
        assert(r1[ja] == a);
        assert(ranks_before(q, r1[ja], r1[i]));
    }
    assert(ranks_before(q, r2[i], r2[ja]));
}

/// A ranking cannot be a proper prefix of another one.
proof fn lemma_no_longer(q: Seq<char>, r1: Seq<int>, r2: Seq<int>)
    requires
        is_ranking(q, r1),
        is_ranking(q, r2),
        forall|m: int| 0 <= m < r1.len() && m < r2.len() ==> r1[m] == r2[m],
    ensures
        r2.len() <= r1.len(),
{
    if r1.len() < r2.len() {
        let n = r1.len() as int;
        let x = r2[n];
        assert(0 <= x < 31 && topic_score(q, x) > 0);
        assert(r1.contains(x));
        let j = choose|j: int| 0 <= j < r1.len() && r1[j] == x;
        assert(r2[j] == x);
        assert(ranks_before(q, r2[j], r2[n]));
    }
}

proof fn lemma_first_difference(r1: Seq<int>, r2: Seq<int>)
    requires
        exists|i: int| 0 <= i < r1.len() && 0 <= i < r2.len() && r1[i] != r2[i],
    ensures
        exists|i: int|
            0 <= i < r1.len() && 0 <= i < r2.len() && r1[i] != r2[i] && forall|m: int|
                0 <= m < i ==> r1[m] == r2[m],
{
    let i0 = choose|i: int| 0 <= i < r1.len() && 0 <= i < r2.len() && r1[i] != r2[i];
    lemma_first_difference_below(r1, r2, i0);
}

proof fn lemma_first_difference_below(r1: Seq<int>, r2: Seq<int>, n: int)
    requires
        0 <= n < r1.len() && n < r2.len() && r1[n] != r2[n],
    ensures
        exists|i: int|
            0 <= i < r1.len() && 0 <= i < r2.len() && r1[i] != r2[i] && forall|m: int|
                0 <= m < i ==> r1[m] == r2[m],
    decreases n,
{
    if exists|m: int| 0 <= m < n && r1[m] != r2[m] {
        let m = choose|m: int| 0 <= m < n && r1[m] != r2[m];
        lemma_first_difference_below(r1, r2, m);
    } else {
        assert(forall|m: int| 0 <= m < n ==> r1[m] == r2[m]);
    }
}

/// `m` is one of the indices in `r`.
spec fn lists(r: Seq<usize>, m: int) -> bool {
    exists|i: int| 0 <= i < r.len() && r[i] == m
}

/// Lists the relevant themes by descending score, ties in table order.
fn rank(scores: &Vec<u128>, Ghost(q): Ghost<Seq<char>>) -> (r: Vec<usize>)
    requires
        scores@.len() == 31,
        forall|k: int| 0 <= k < 31 ==> #[trigger] scores@[k] == topic_score(q, k),
    ensures
        is_ranking(q, r@.map_values(|k: usize| k as int)),
{
    let mut r: Vec<usize> = Vec::new();
    let mut k: usize = 0;
    while k < TOPIC_COUNT
        invariant
            scores@.len() == 31,
            forall|m: int| 0 <= m < 31 ==> #[trigger] scores@[m] == topic_score(q, m),
            k <= 31,
            forall|i: int| 0 <= i < r@.len() ==> 0 <= #[trigger] r@[i] < k && topic_score(q, r@[i] as int) > 0,
            forall|m: int| 0 <= m < k && topic_score(q, m) > 0 ==> #[trigger] lists(r@, m),
            forall|i: int, j: int|
                0 <= i < j < r@.len() ==> ranks_before(q, #[trigger] r@[i] as int, #[trigger] r@[j] as int),
        decreases 31 - k,
    {
        let s = scores[k];
        if s > 0 {
            // Position: after every listed theme that scores at least as much.
            let mut p: usize = 0;
            while p < r.len() && scores[r[p]] >= s
                invariant
                    scores@.len() == 31,
                    forall|m: int| 0 <= m < 31 ==> #[trigger] scores@[m] == topic_score(q, m),
                    forall|i: int| 0 <= i < r@.len() ==> 0 <= #[trigger] r@[i] < k,
                    k < 31,
                    p <= r@.len(),
                    forall|i: int| 0 <= i < p ==> scores@[#[trigger] r@[i] as int] >= s,
                decreases r@.len() - p,
            {
                p = p + 1;
            }
            let ghost before = r@;
            proof {
                // Everything from p on scores less than s.
                assert forall|i: int| p <= i < before.len() implies scores@[#[trigger] before[i] as int] < s by {
                    if i > p {
                        assert(ranks_before(q, before[p as int] as int, before[i] as int));
                    }
                }
            }
            r.insert(p, k);
            proof {
                let rv = r@;
                assert(rv.len() == before.len() + 1);
                assert forall|i: int| 0 <= i < rv.len() implies 0 <= #[trigger] rv[i] < k + 1
                    && topic_score(q, rv[i] as int) > 0 by {
                    if i < p {
                        assert(rv[i] == before[i]);
                    } else if i > p {
                        assert(rv[i] == before[i - 1]);
                    }
                }
                assert forall|i: int, j: int| 0 <= i < j < rv.len() implies ranks_before(
                    q,
                    #[trigger] rv[i] as int,
                    #[trigger] rv[j] as int,
                ) by {
                    if j < p {
                        assert(rv[i] == before[i] && rv[j] == before[j]);
                    } else if j == p {
                        assert(rv[i] == before[i]);
                        assert(scores@[before[i] as int] >= s);
                    } else if i == p {
                        assert(rv[j] == before[j - 1]);
                        assert(scores@[before[j - 1] as int] < s);
                    } else if i < p {
                        assert(rv[i] == before[i] && rv[j] == before[j - 1]);
                    } else {
                        assert(rv[i] == before[i - 1] && rv[j] == before[j - 1]);
                    }
                }
                assert forall|m: int| 0 <= m < k + 1 && topic_score(q, m) > 0 implies #[trigger] lists(rv, m) by {
                    if m == k {
                        assert(rv[p as int] == k);
                    } else {
                        assert(lists(before, m));
                        let i = choose|i: int| 0 <= i < before.len() && before[i] == m;
                        if i < p {
                            assert(rv[i] == m);
                        } else {
                            assert(rv[i + 1] == m);
                        }
                    }
                }
            }
        } else {
            proof {
                assert forall|m: int| 0 <= m < k + 1 && topic_score(q, m) > 0 implies #[trigger] lists(r@, m) by {
                    if m == k {
                        assert(scores@[m] == topic_score(q, m));
                    }
                }
            }
        }
        k = k + 1;
    }
    proof {
        let mv = r@.map_values(|x: usize| x as int);
        assert forall|i: int| 0 <= i < mv.len() implies 0 <= #[trigger] mv[i] < 31 && topic_score(q, mv[i]) > 0 by {
            assert(mv[i] == r@[i] as int);
        }
        assert forall|i: int, j: int| 0 <= i < j < mv.len() implies ranks_before(q, #[trigger] mv[i], #[trigger] mv[j]) by {
            assert(mv[i] == r@[i] as int && mv[j] == r@[j] as int);
        }
        assert forall|m: int| 0 <= m < 31 && topic_score(q, m) > 0 implies #[trigger] mv.contains(m) by {
            assert(lists(r@, m));
            let i = choose|i: int| 0 <= i < r@.len() && r@[i] == m;
            assert(mv[i] == m);
        }
    }
    r
}

// ---------------------------------------------------------------------------
// Suggestions
// ---------------------------------------------------------------------------

/// The human-readable reference of a theme, e.g. `Philippians 4:6`.
pub open spec fn topic_reference(t: TopicSpec) -> Seq<char> {
    let tail = " "@ + decimal(t.chapter) + ":"@ + decimal(t.verse);
    match spec_book_by_id(t.book_id) {
        Some(b) => b.name + tail,
        None => "Book "@ + signed_decimal(t.book_id) + tail,
    }
}

/// The passage a theme points to exists: a book of the registry, a chapter
/// that book has, and a verse that chapter has.
pub open spec fn names_known_passage(t: TopicSpec) -> bool {
    &&& spec_book_by_id(t.book_id) matches Some(b)
    &&& 1 <= t.chapter <= b.chapters
    &&& 1 <= t.verse <= spec_chapter_verses(t.book_id, t.chapter as int)
    &&& topic_reference(t) == b.name + (" "@ + decimal(t.chapter) + ":"@ + decimal(t.verse))
}

/// Every theme of the table points to a passage that exists: a known book,
/// a chapter that book has, a verse that chapter has, and so a reference
/// that reads "Book chapter:verse".
pub proof fn lemma_topics_name_known_passages(k: int)
    requires
        0 <= k < 31,
    ensures
        names_known_passage(spec_topic_at(k)),
{
    reveal(spec_topic_at);
}

/// `s` is the suggestion built from theme `t`.
pub open spec fn is_suggestion_of(s: TopicSuggestion, t: TopicSpec) -> bool {
    &&& s.topic@ == t.topic
    &&& s.why@ == t.why
    &&& s.book_id == t.book_id
    &&& s.chapter == t.chapter
    &&& s.verse == t.verse
    &&& s.reference@ == topic_reference(t)
}

/// Builds the suggestion for a table entry.
pub fn suggestion(topic: &Topic) -> (s: TopicSuggestion)
    ensures
        is_suggestion_of(s, topic@),
{
    let mut reference: Vec<char> = Vec::new();
    match book_by_id(topic.book_id) {
        Some(book) => append_str(&mut reference, book.name),
        None => {
            append_str(&mut reference, "Book ");
            push_signed_decimal(&mut reference, topic.book_id as i64);
        },
    }
    append_str(&mut reference, " ");
    push_decimal(&mut reference, topic.chapter as u64);
    append_str(&mut reference, ":");
    push_decimal(&mut reference, topic.verse as u64);
    let t = to_chars(topic.topic);
    let w = to_chars(topic.why);
    let s = TopicSuggestion {
        topic: from_chars(&t),
        why: from_chars(&w),
        book_id: topic.book_id,
        chapter: topic.chapter,
        verse: topic.verse,
        reference: from_chars(&reference),
    };
    assert(s.reference@ =~= topic_reference(topic@));
    s
}

/// The themes offered when a query gives no clue at all, in order:
/// Salvation, Comfort, Prayer, Hope, Love, Praise.
pub open spec fn starter_topics() -> Seq<int> {
    seq![5, 2, 10, 3, 13, 24]
}

/// The starter list, used when nothing in the query was recognised.
pub fn starters(limit: usize) -> (r: Vec<TopicSuggestion>)
    ensures
        r@.len() == if limit < 6 { limit as int } else { 6 },
        forall|i: int| 0 <= i < r@.len() ==> is_suggestion_of(#[trigger] r@[i], spec_topic_at(starter_topics()[i])),
{
    let order: [usize; 6] = [5, 2, 10, 3, 13, 24];
    let mut r: Vec<TopicSuggestion> = Vec::new();
    let mut i: usize = 0;
    while i < 6 && i < limit
        invariant
            order@ == seq![5usize, 2, 10, 3, 13, 24],
            i <= 6,
            i <= limit,
            r@.len() == i,
            forall|m: int| 0 <= m < i ==> is_suggestion_of(#[trigger] r@[m], spec_topic_at(starter_topics()[m])),
        decreases 6 - i,
    {
        let t = topic_at(order[i]);
        r.push(suggestion(&t));
        i = i + 1;
    }
    r
}

/// Whether some theme is relevant to the query.
pub open spec fn any_relevant(q: Seq<char>) -> bool {
    exists|k: int| 0 <= k < 31 && topic_score(q, k) > 0
}

/// `r` is what a search for `q` with room for `limit` suggestions gives:
/// nothing when there is no room; the starters when nothing in the query is
/// recognised; otherwise the ranking of the query, cut to the limit.
pub open spec fn answers(q: Seq<char>, limit: int, r: Seq<TopicSuggestion>) -> bool {
    &&& limit == 0 ==> r.len() == 0
    &&& limit > 0 && !any_relevant(q) ==> r.len() == (if limit < 6 { limit } else { 6 }) && forall|
        i: int,
    | 0 <= i < r.len() ==> is_suggestion_of(#[trigger] r[i], spec_topic_at(starter_topics()[i]))
    &&& limit > 0 && any_relevant(q) ==> exists|rk: Seq<int>|
        {
            &&& is_ranking(q, rk)
            &&& r.len() == if limit < rk.len() { limit } else { rk.len() as int }
            &&& forall|i: int| 0 <= i < r.len() ==> is_suggestion_of(#[trigger] r[i], spec_topic_at(rk[i]))
        }
}

/// Finds the themes closest to `query`, most relevant first.
///
/// Matching is deterministic: a keyword counts when a query word equals it or
/// starts with it (so `praying` finds `pray`). Equal scores keep the table's
/// own order, so the list does not reshuffle between identical searches. A
/// query with no clue gets the starters instead of an empty list.
pub fn suggest(query: &str, limit: usize) -> (r: Vec<TopicSuggestion>)
    ensures
        answers(query@, limit as int, r@),
{
    if limit == 0 {
        return Vec::new();
    }
    let q = to_chars(query);
    let t = trim_chars(&q);
    let normalised = lower_chars(&t);
    let words = split_terms(&normalised);
    let topics = all_topics();
    let scores = topic_scores(&words, &normalised, &topics);
    proof {
        assert forall|k: int| 0 <= k < 31 implies #[trigger] scores@[k] == topic_score(query@, k) by {
            reveal(topic_score);
        }
    }
    let ranking = rank(&scores, Ghost(query@));
    let ghost rk = ranking@.map_values(|k: usize| k as int);
    if ranking.len() == 0 {
        proof {
            if any_relevant(query@) {
                let k = choose|k: int| 0 <= k < 31 && topic_score(query@, k) > 0;
                assert(rk.contains(k));
            }
        }
        return starters(limit);
    }
    proof {
        assert(rk[0] == ranking@[0] as int);
        assert(any_relevant(query@));
    }
    let mut r: Vec<TopicSuggestion> = Vec::new();
    let mut i: usize = 0;
    while i < ranking.len() && i < limit
        invariant
            rk == ranking@.map_values(|k: usize| k as int),
            is_ranking(query@, rk),
            topics@.len() == 31,
            forall|k: int| 0 <= k < 31 ==> (#[trigger] topics@[k])@ == spec_topic_at(k),
            i <= ranking.len(),
            i <= limit,
            r@.len() == i,
            forall|m: int| 0 <= m < i ==> is_suggestion_of(#[trigger] r@[m], spec_topic_at(rk[m])),
        decreases ranking.len() - i,
    {
        let k = ranking[i];
        assert(rk[i as int] == k as int);
        r.push(suggestion(&topics[k]));
        i = i + 1;
    }
    r
}

/// A larger limit only extends the list: the answer for the smaller limit is
/// the answer for the larger one, cut to the smaller limit.
pub proof fn lemma_larger_limit_extends(
    q: Seq<char>,
    small: int,
    large: int,
    r1: Seq<TopicSuggestion>,
    r2: Seq<TopicSuggestion>,
)
    requires
        0 <= small <= large,
        answers(q, small, r1),
        answers(q, large, r2),
    ensures
        r1.len() == if small < r2.len() { small } else { r2.len() as int },
        suggestion_views(r1) == suggestion_views(r2).take(r1.len() as int),
{
    if small == 0 {
    } else if !any_relevant(q) {
        assert forall|i: int| 0 <= i < r1.len() implies #[trigger] r1[i]@ == r2[i]@ by {
            assert(is_suggestion_of(r1[i], spec_topic_at(starter_topics()[i])));
            assert(is_suggestion_of(r2[i], spec_topic_at(starter_topics()[i])));
        }
    } else {
        let rk1 = choose|rk: Seq<int>|
            {
                &&& is_ranking(q, rk)
                &&& r1.len() == if small < rk.len() { small } else { rk.len() as int }
                &&& forall|i: int| 0 <= i < r1.len() ==> is_suggestion_of(#[trigger] r1[i], spec_topic_at(rk[i]))
            };
        let rk2 = choose|rk: Seq<int>|
            {
                &&& is_ranking(q, rk)
                &&& r2.len() == if large < rk.len() { large } else { rk.len() as int }
                &&& forall|i: int| 0 <= i < r2.len() ==> is_suggestion_of(#[trigger] r2[i], spec_topic_at(rk[i]))
            };
        lemma_ranking_unique(q, rk1, rk2);
        assert forall|i: int| 0 <= i < r1.len() implies #[trigger] r1[i]@ == r2[i]@ by {
            assert(is_suggestion_of(r1[i], spec_topic_at(rk1[i])));
            assert(is_suggestion_of(r2[i], spec_topic_at(rk2[i])));
        }
    }
    assert(suggestion_views(r1) =~= suggestion_views(r2).take(r1.len() as int));
}

/// A suggestion points to a passage that exists (a registry book, a chapter
/// that book has, a verse that chapter has), and its reference reads
/// "Book chapter:verse".
pub open spec fn suggestion_names_known_passage(s: SuggestionView) -> bool {
    &&& spec_book_by_id(s.book_id as int) matches Some(b)
    &&& 1 <= s.chapter <= b.chapters
    &&& 1 <= s.verse <= spec_chapter_verses(s.book_id as int, s.chapter as int)
    &&& s.reference == b.name + (" "@ + decimal(s.chapter as nat) + ":"@ + decimal(s.verse as nat))
}

/// Whatever the query and the limit, every suggestion points to a passage
/// that exists and reads as "Book chapter:verse".
pub proof fn lemma_suggestions_name_known_passages(q: Seq<char>, limit: int, r: Seq<TopicSuggestion>)
    requires
        0 <= limit,
        answers(q, limit, r),
    ensures
        forall|i: int| 0 <= i < r.len() ==> suggestion_names_known_passage(#[trigger] r[i]@),
{
    if limit > 0 && !any_relevant(q) {
        assert forall|i: int| 0 <= i < r.len() implies suggestion_names_known_passage(#[trigger] r[i]@) by {
            let k = starter_topics()[i];
            assert(is_suggestion_of(r[i], spec_topic_at(k)));
            lemma_topics_name_known_passages(k);
        }
    } else if limit > 0 {
        let rk = choose|rk: Seq<int>|
            {
                &&& is_ranking(q, rk)
                &&& r.len() == if limit < rk.len() { limit } else { rk.len() as int }
                &&& forall|i: int| 0 <= i < r.len() ==> is_suggestion_of(#[trigger] r[i], spec_topic_at(rk[i]))
            };
        assert forall|i: int| 0 <= i < r.len() implies suggestion_names_known_passage(#[trigger] r[i]@) by {
            assert(is_suggestion_of(r[i], spec_topic_at(rk[i])));
            assert(0 <= rk[i] < 31);
            lemma_topics_name_known_passages(rk[i]);
        }
    }
}

/// A search never gives more suggestions than the limit, and gives at least
/// one whenever there is room for one.
pub proof fn lemma_suggestion_count(q: Seq<char>, limit: int, r: Seq<TopicSuggestion>)
    requires
        0 <= limit,
        answers(q, limit, r),
    ensures
        r.len() <= limit,
        limit >= 1 ==> r.len() >= 1,
{
    if limit > 0 && any_relevant(q) {
        let rk = choose|rk: Seq<int>|
            {
                &&& is_ranking(q, rk)
                &&& r.len() == if limit < rk.len() { limit } else { rk.len() as int }
                &&& forall|i: int| 0 <= i < r.len() ==> is_suggestion_of(#[trigger] r[i], spec_topic_at(rk[i]))
            };
        let k = choose|k: int| 0 <= k < 31 && topic_score(q, k) > 0;
        assert(rk.contains(k));
    }
}

} // verus!
