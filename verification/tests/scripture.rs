use selah::scripture::books::{book_by_id, find_book};
use selah::scripture::normalizer::{simple_number, words_to_number};
use selah::scripture::parser::{find_references, parse_reference};
use selah::scripture::reference::ScriptureReference;

#[test]
fn resolves_first_corinthians() {
    let tokens = ["first", "corinthians"];
    let (book, len) = find_book(&tokens, 0).expect("book resolved");
    assert_eq!(book.id, 46);
    assert_eq!(len, 2);
    assert_eq!(book.name, "1 Corinthians");
}

#[test]
fn resolves_digit_and_roman_variants() {
    for alias in [
        "1 corinthians",
        "i corinthians",
        "1st corinthians",
        "one corinthians",
    ] {
        let tokens: Vec<&str> = alias.split_whitespace().collect();
        let (book, _) = find_book(&tokens, 0).expect("book resolved");
        assert_eq!(book.id, 46, "alias {alias}");
    }
}

#[test]
fn resolves_psalm_and_psalms() {
    for alias in ["psalm", "psalms"] {
        let (book, _) = find_book(&[alias], 0).expect("book resolved");
        assert_eq!(book.id, 19);
    }
}

#[test]
fn resolves_revelations_plural() {
    let (book, _) = find_book(&["revelations"], 0).expect("book resolved");
    assert_eq!(book.id, 66);
}

#[test]
fn prefers_longest_alias() {
    let tokens = ["song", "of", "solomon", "1"];
    let (book, len) = find_book(&tokens, 0).expect("book resolved");
    assert_eq!(book.id, 22);
    assert_eq!(len, 3);
}

#[test]
fn no_match_without_book() {
    assert!(find_book(&["chapter", "three"], 0).is_none());
    assert!(find_book(&["the"], 0).is_none());
}

#[test]
fn book_by_id_roundtrip() {
    assert_eq!(book_by_id(1).map(|b| b.name), Some("Genesis"));
    assert_eq!(book_by_id(66).map(|b| b.name), Some("Revelation"));
    assert!(book_by_id(0).is_none());
}

fn t(s: &str) -> Vec<&str> {
    s.split_whitespace().collect()
}

#[test]
fn word_lookup() {
    assert_eq!(simple_number("twenty"), Some(20));
    assert_eq!(simple_number("eight"), Some(8));
    assert_eq!(simple_number("twenty-eight"), None);
}

#[test]
fn compounds() {
    assert_eq!(words_to_number(&t("twenty eight 16"), 0), Some((28, 2)));
    assert_eq!(words_to_number(&t("one hundred five"), 0), Some((105, 3)));
    assert_eq!(words_to_number(&t("one hundred"), 0), Some((100, 2)));
    assert_eq!(words_to_number(&t("ninety nine"), 0), Some((99, 2)));
}

#[test]
fn single_word() {
    assert_eq!(words_to_number(&t("four"), 0), Some((4, 1)));
    assert_eq!(words_to_number(&t("sixteen"), 0), Some((16, 1)));
}

#[test]
fn non_number_stops() {
    assert_eq!(words_to_number(&t("twenty people"), 0), Some((20, 1)));
    assert_eq!(words_to_number(&t("people"), 0), None);
}

fn assert_ref(text: &str, expected: ScriptureReference) {
    let parsed =
        parse_reference(text).unwrap_or_else(|| panic!("expected reference for {text:?}"));
    assert_eq!(parsed, expected, "for input {text:?}");
    assert_eq!(parsed.display(), expected.display(), "display for {text:?}");
}

fn assert_none(text: &str) {
    assert!(
        parse_reference(text).is_none(),
        "unexpected match for {text:?}"
    );
}

#[test]
fn typed_colon_forms() {
    assert_ref("John 3:16", ScriptureReference::new(43, 3).with_verse(16));
    assert_ref(
        "John 3:16-18",
        ScriptureReference::new(43, 3).with_range(16, 18),
    );
    assert_ref("Psalm 23:1", ScriptureReference::new(19, 23).with_verse(1));
    assert_ref(
        "1 Corinthians 13:4-7",
        ScriptureReference::new(46, 13).with_range(4, 7),
    );
    assert_ref("Romans 8:28", ScriptureReference::new(45, 8).with_verse(28));
    assert_ref(
        "Romans 8:28-30",
        ScriptureReference::new(45, 8).with_range(28, 30),
    );
}

#[test]
fn space_separated_typed_form() {
    assert_ref("John 3 16", ScriptureReference::new(43, 3).with_verse(16));
}

#[test]
fn chapter_only() {
    assert_ref("Psalm 23", ScriptureReference::new(19, 23));
    assert_ref("John chapter 3", ScriptureReference::new(43, 3));
}

#[test]
fn spoken_forms_with_markers() {
    assert_ref(
        "John chapter three verse sixteen",
        ScriptureReference::new(43, 3).with_verse(16),
    );
    assert_ref(
        "Romans chapter eight verse twenty eight",
        ScriptureReference::new(45, 8).with_verse(28),
    );
    assert_ref(
        "first Corinthians chapter thirteen verses four to seven",
        ScriptureReference::new(46, 13).with_range(4, 7),
    );
    assert_ref("Psalm twenty three", ScriptureReference::new(19, 23));
    assert_ref(
        "Psalm chapter ninety one verse one",
        ScriptureReference::new(19, 91).with_verse(1),
    );
}

#[test]
fn spoken_number_word_forms() {
    assert_ref(
        "John three sixteen",
        ScriptureReference::new(43, 3).with_verse(16),
    );
    assert_ref(
        "First Corinthians thirteen verse four",
        ScriptureReference::new(46, 13).with_verse(4),
    );
}

#[test]
fn spoken_range_with_dash_words() {
    assert_ref(
        "John chapter three verse sixteen through eighteen",
        ScriptureReference::new(43, 3).with_range(16, 18),
    );
}

#[test]
fn book_of_and_possessive_forms() {
    assert_ref(
        "the book of John chapter three verse sixteen",
        ScriptureReference::new(43, 3).with_verse(16),
    );
    assert_ref(
        "let's open John's gospel chapter one verse one",
        ScriptureReference::new(43, 1).with_verse(1),
    );
}

#[test]
fn second_corinthians_form() {
    assert_ref(
        "second Corinthians chapter five verse seven",
        ScriptureReference::new(47, 5).with_verse(7),
    );
}

#[test]
fn embedded_in_conversation() {
    assert_ref(
        "and today we are going to read John chapter three verse sixteen",
        ScriptureReference::new(43, 3).with_verse(16),
    );
    assert_ref(
        "please turn to first Corinthians chapter thirteen verses four to seven",
        ScriptureReference::new(46, 13).with_range(4, 7),
    );
}

#[test]
fn negative_cases() {
    assert_none("I arrived at 3pm");
    assert_none("we have twenty people");
    assert_none("chapter three was difficult");
    assert_none("there are 4 cats and 2 dogs");
    assert_none("the verse was interesting");
    assert_none("John and Mary came to church");
    assert_none("I love my job");
}

#[test]
fn invalid_chapter_rejected() {
    assert_none("John 45:1");
    assert_none("Psalm 151");
}

#[test]
fn multiple_references() {
    let refs = find_references("read John 3:16 and then Psalm 23");
    assert_eq!(refs.len(), 2);
    assert_eq!(refs[0], ScriptureReference::new(43, 3).with_verse(16));
    assert_eq!(refs[1], ScriptureReference::new(19, 23));
}

#[test]
fn display_forms() {
    assert_eq!(
        ScriptureReference::new(43, 3).with_verse(16).display(),
        "John 3:16"
    );
    assert_eq!(ScriptureReference::new(19, 23).display(), "Psalms 23");
    assert_eq!(
        ScriptureReference::new(46, 13).with_range(4, 7).display(),
        "1 Corinthians 13:4-7"
    );
    assert_eq!(
        ScriptureReference::new(45, 8).with_range(28, 30).display(),
        "Romans 8:28-30"
    );
}

#[test]
fn validation() {
    assert!(ScriptureReference::new(43, 21).is_valid());
    assert!(!ScriptureReference::new(43, 22).is_valid());
    assert!(!ScriptureReference::new(43, 0).is_valid());
    assert!(!ScriptureReference::new(43, 3).with_range(9, 4).is_valid());
    assert!(!ScriptureReference::new(9999, 1).is_valid());
}

use selah::bible::models::Verse;
use selah::error::AppError;
use selah::scripture::resolver::{assemble_passage, check_resolvable, passage_range};

fn stored(verse: i32, text: &str) -> Verse {
    Verse {
        translation_id: "web".to_string(),
        book_id: 43,
        chapter: 3,
        verse,
        text: text.to_string(),
    }
}

#[test]
fn resolution_roundtrip() {
    let reference = ScriptureReference::new(43, 3).with_verse(16);
    check_resolvable(&reference, "web", true).unwrap();
    assert_eq!(passage_range(&reference).unwrap(), (16, 16));
    let passage = assemble_passage(
        "web",
        &reference,
        vec![stored(16, " For God so loved the world... ")],
    )
    .unwrap();
    assert_eq!(passage.reference, "John 3:16");
    assert_eq!(passage.verses.len(), 1);
    assert!(passage.text.contains("God"));
    assert_eq!(passage.text, "For God so loved the world...");
}

#[test]
fn unknown_translation_errors() {
    let reference = ScriptureReference::new(43, 3);
    let err = check_resolvable(&reference, "kjv", false).unwrap_err();
    assert!(matches!(err, AppError::BibleTranslationNotFound(_)));
}

#[test]
fn passages_are_read_verse_range_by_verse_range() {
    let chapter = ScriptureReference::new(19, 23);
    assert_eq!(passage_range(&chapter).unwrap(), (1, u16::MAX));
    assert_eq!(
        passage_range(&ScriptureReference::new(43, 3).with_range(16, 18)).unwrap(),
        (16, 18)
    );
    let backwards = ScriptureReference {
        book_id: 43,
        chapter: 3,
        start_verse: Some(18),
        end_verse: Some(16),
    };
    assert_eq!(
        passage_range(&backwards).unwrap_err().message(),
        "invalid scripture reference: end verse 16 before start verse 18"
    );
    assert!(matches!(
        check_resolvable(&backwards, "web", true).unwrap_err(),
        AppError::InvalidScriptureReference(_)
    ));
    let two = assemble_passage(
        "web",
        &ScriptureReference::new(43, 3).with_range(16, 17),
        vec![stored(16, "For God"), stored(17, " For God sent ")],
    )
    .unwrap();
    assert_eq!(two.text, "For God For God sent");
    assert_eq!(two.reference, "John 3:16-17");
    let missing = assemble_passage("web", &ScriptureReference::new(43, 3), Vec::new()).unwrap_err();
    assert_eq!(missing.kind(), "scriptureNotFound");
    assert_eq!(
        missing.message(),
        "scripture not found in translation 'web': John 3"
    );
}

#[test]
fn references_are_spoken_in_words() {
    assert_eq!(ScriptureReference::new(43, 3).with_verse(16).to_spoken(), "John chapter three verse sixteen");
    assert_eq!(
        ScriptureReference::new(45, 8).with_range(28, 30).to_spoken(),
        "Romans chapter eight verses twenty eight to thirty"
    );
    assert_eq!(ScriptureReference::new(19, 119).to_spoken(), "Psalms chapter one hundred nineteen");
    assert_eq!(ScriptureReference::new(19, 100).with_verse(1).to_spoken(), "Psalms chapter one hundred verse one");
    assert_eq!(ScriptureReference::new(1, 2003).to_spoken(), "Genesis chapter two thousand three");
}

#[test]
fn chapters_know_how_many_verses_they_have() {
    assert_eq!(selah::scripture::verses::chapter_verses(43, 3), 36);
    assert_eq!(selah::scripture::verses::chapter_verses(19, 119), 176);
    assert_eq!(selah::scripture::verses::chapter_verses(1, 50), 26);
    assert_eq!(selah::scripture::verses::chapter_verses(66, 22), 21);
    assert_eq!(selah::scripture::verses::chapter_verses(64, 1), 14);
    assert_eq!(selah::scripture::verses::chapter_verses(1, 51), 0);
    assert_eq!(selah::scripture::verses::chapter_verses(67, 1), 0);
    let total: u32 = (1..=66).map(|b| {
        let chapters = book_by_id(b).unwrap().chapters;
        (1..=chapters).map(|c| selah::scripture::verses::chapter_verses(b, c) as u32).sum::<u32>()
    }).sum();
    assert_eq!(total, 31_102);
}

#[test]
fn normalized_text_has_single_spaces_between_words() {
    let n = selah::scripture::normalizer::normalize_text("  \u{201C}John\u{201D}\t three \n\n sixteen  ");
    assert_eq!(n, "\"john\" three sixteen");
    assert_eq!(n, n.trim());
    assert!(!n.contains("  "));
    assert!(n.chars().all(|c| !c.is_whitespace() || c == ' '));
}

#[test]
fn verse_counts_follow_the_king_james_numbering() {
    let pins: [(i32, u16, u16); 9] = [
        (39, 4, 6),
        (39, 5, 0),
        (29, 2, 32),
        (29, 3, 21),
        (19, 3, 8),
        (27, 4, 37),
        (45, 16, 27),
        (64, 1, 14),
        (66, 12, 17),
    ];
    for (book, chapter, verses) in pins {
        assert_eq!(selah::scripture::verses::chapter_verses(book, chapter), verses, "book {book} chapter {chapter}");
    }
}
