use selah::bible::catalogue::{all, find, is_builtin, Published};
use selah::bible::import::{bundled_info, bundled_translations};
use selah::bible::listing::{list_with_installed, InstalledTranslation};
use selah::bible::models::{BibleBook, Translation, Verse};
use selah::bible::topics::{all_topics, suggest};
use selah::commands::bible::{
    check_not_bundled, search_limit,
    check_verse_text, gaps_between, looks_like_metadata, normalise_custom_id,
    normalise_translation_id, plan_add_translation, plan_custom_verses, plan_update_translation,
    prefix_terms, search_scope, search_terms, short_query_result, sqlite_translation_info,
    suggest_bible_topics, validate_custom_verses, widened_result, AddTranslationRequest,
    CustomVerseInput, SaveCustomVersesRequest, SqliteImportRequest, UpdateTranslationRequest,
    MAX_CUSTOM_ID_CHARS,
};
use selah::error::AppError;
use selah::scripture::books::book_by_id;

fn verse(book: &str, chapter: u16, verse: u16, text: &str) -> CustomVerseInput {
    CustomVerseInput {
        book: book.to_string(),
        chapter,
        verse,
        text: text.to_string(),
    }
}

fn request(verses: Vec<CustomVerseInput>) -> SaveCustomVersesRequest {
    SaveCustomVersesRequest {
        translation_id: None,
        name: None,
        abbreviation: None,
        verses,
    }
}

// ---------------------------------------------------------------------------
// The catalogue
// ---------------------------------------------------------------------------

#[test]
fn the_published_list_covers_the_translations_operators_ask_for() {
    let entries = all();
    let ids: Vec<&str> = entries.iter().map(|p| p.id.as_str()).collect();
    for expected in [
        "msg", "niv", "esv", "kjv", "nkjv", "nasb", "amp", "nlt", "csb", "hcsb", "net", "rsv",
        "nrsv", "gnt", "cev", "tlb",
    ] {
        assert!(ids.contains(&expected), "{expected} should be published");
    }
}

#[test]
fn every_entry_is_unique_and_well_formed() {
    let mut seen: Vec<String> = Vec::new();
    for published in all() {
        assert!(!seen.contains(&published.id), "{} twice", published.id);
        seen.push(published.id.clone());
        assert!(!published.name.trim().is_empty(), "{} name", published.id);
        assert!(
            !published.abbreviation.trim().is_empty(),
            "{} abbreviation",
            published.id
        );
        assert!(!published.group.trim().is_empty(), "{} group", published.id);
        assert!(
            published
                .id
                .chars()
                .all(|c| c.is_ascii_lowercase() || c.is_ascii_digit()),
            "{} is not a slug",
            published.id
        );
    }
}

#[test]
fn the_bundled_three_are_marked_as_selahs_own() {
    for id in ["web", "kjv", "asv"] {
        assert!(is_builtin(id), "{id} should be built in");
        let entry = all()
            .into_iter()
            .find(|entry| entry.id == id)
            .unwrap_or_else(|| panic!("{id} should be in the catalogue"));
        assert!(entry.builtin, "{id} should be flagged built in");
    }

    // …and nothing else is.
    assert!(!is_builtin("msg"));
    assert!(!is_builtin(""));
    assert!(!is_builtin("  "));
}

#[test]
fn lookup_ignores_case_and_surrounding_space() {
    assert_eq!(find("MSG").map(|p| Published::name(&p)), Some("The Message"));
    assert_eq!(
        find("  niv  ").map(|p| Published::name(&p)),
        Some("New International Version")
    );
    assert!(find("nope").is_none());
}

#[test]
fn a_fresh_entry_starts_uninstalled() {
    let entry = all().into_iter().find(|e| e.id == "msg").expect("msg");
    assert!(!entry.installed);
    assert_eq!(entry.verse_count, 0);
    assert_eq!(entry.abbreviation, "MSG");
    assert_eq!(entry.language, "en");
}

// ---------------------------------------------------------------------------
// Topics
// ---------------------------------------------------------------------------

#[test]
fn a_theme_word_finds_its_passage() {
    let found = suggest("anxiety", 3);
    assert_eq!(found[0].topic, "Anxiety");
    assert_eq!(found[0].reference, "Philippians 4:6");
}

#[test]
fn stems_and_sentences_both_match() {
    let found = suggest("I am worried about money", 3);
    let topics: Vec<&str> = found.iter().map(|t| t.topic.as_str()).collect();
    assert!(topics.contains(&"Money"), "got: {topics:?}");
    assert!(topics.contains(&"Anxiety"), "got: {topics:?}");

    // `praying` is not a keyword; `pray` is.
    assert_eq!(suggest("praying", 1)[0].topic, "Prayer");
}

#[test]
fn a_hopeless_query_returns_starters_rather_than_nothing() {
    for query in ["", "   ", "qwertyuiop", "???"] {
        let found = suggest(query, 4);
        assert_eq!(found.len(), 4, "query: {query:?}");
        assert_eq!(found[0].topic, "Salvation");
    }
}

#[test]
fn results_are_ordered_and_repeatable() {
    let first = suggest("fear", 5);
    let second = suggest("fear", 5);
    assert_eq!(first, second, "same query must give the same list");
    assert!(first.len() <= 5);
    assert_eq!(first[0].topic, "Fear");
}

#[test]
fn every_suggestion_points_at_a_real_book() {
    for topic in all_topics() {
        let book = book_by_id(topic.book_id).expect("book id must exist");
        assert!(
            topic.chapter <= book.chapters,
            "{} chapter {} is beyond {}",
            topic.topic,
            topic.chapter,
            book.name
        );
        assert!(topic.verse >= 1, "{} has no verse", topic.topic);
    }
}

#[test]
fn the_limit_is_respected() {
    assert_eq!(suggest("fear", 1).len(), 1);
    assert!(suggest("fear", 0).is_empty());
    let all = suggest("fear", 100);
    assert!(!all.is_empty());
    assert_eq!(all.len(), suggest("fear", 1000).len());
}

#[test]
fn the_starters_come_in_their_fixed_order() {
    let found = suggest("zzz", 100);
    let topics: Vec<&str> = found.iter().map(|t| t.topic.as_str()).collect();
    assert_eq!(
        topics,
        vec!["Salvation", "Comfort", "Prayer", "Hope", "Love", "Praise"]
    );
    assert_eq!(found[0].reference, "John 3:16");
}

#[test]
fn equal_scores_keep_the_table_order() {
    // `fear` and `anxious` each score one: Anxiety comes first in the table.
    let found = suggest("fear anxious", 10);
    let topics: Vec<&str> = found.iter().map(|t| t.topic.as_str()).collect();
    assert_eq!(topics, vec!["Anxiety", "Fear"]);
}

#[test]
fn topic_requests_are_clamped() {
    assert_eq!(suggest_bible_topics("zzz".to_string(), None).unwrap().len(), 6);
    assert_eq!(suggest_bible_topics("zzz".to_string(), Some(0)).unwrap().len(), 1);
    assert_eq!(suggest_bible_topics("zzz".to_string(), Some(3)).unwrap().len(), 3);
    assert_eq!(
        suggest_bible_topics("fear".to_string(), Some(50)).unwrap(),
        suggest("fear", 12)
    );
}

// ---------------------------------------------------------------------------
// Pasted verses
// ---------------------------------------------------------------------------

#[test]
fn a_pasted_chapter_is_checked_and_ordered() {
    let checked = validate_custom_verses(&request(vec![
        verse("Genesis", 1, 2, "And the earth was without form"),
        verse("Genesis", 1, 1, "In the beginning God created"),
    ]))
    .expect("should be accepted");

    assert_eq!(checked.book_id, 1);
    assert_eq!(checked.chapter, 1);
    assert_eq!(checked.verses.len(), 2);
    assert_eq!(checked.verses[0].verse, 1);
    assert_eq!(checked.reference, "Genesis 1 (2 verses)");
    assert!(checked.missing_verses.is_empty());
}

#[test]
fn abbreviations_and_book_numbers_both_resolve() {
    for name in ["Jn", "John", "43", "jhn"] {
        let checked =
            validate_custom_verses(&request(vec![verse(name, 3, 16, "For God so loved")]))
                .unwrap_or_else(|e| panic!("{name} should resolve: {}", e.message()));
        assert_eq!(checked.book_id, 43, "book given as {name}");
    }
}

#[test]
fn a_book_selah_does_not_know_is_reported_by_name() {
    let error = validate_custom_verses(&request(vec![verse("Hezekiah", 1, 1, "words")]))
        .expect_err("should be refused");
    assert!(error.message().contains("Hezekiah"));
}

#[test]
fn a_paste_that_mixes_books_or_chapters_is_refused() {
    let mixed_books = validate_custom_verses(&request(vec![
        verse("John", 3, 16, "one"),
        verse("Luke", 3, 17, "two"),
    ]))
    .expect_err("should be refused");
    assert!(mixed_books.message().contains("one chapter at a time"));

    let mixed_chapters = validate_custom_verses(&request(vec![
        verse("John", 3, 16, "one"),
        verse("John", 4, 1, "two"),
    ]))
    .expect_err("should be refused");
    assert!(mixed_chapters.message().contains("one chapter at a time"));
}

#[test]
fn a_chapter_that_does_not_exist_is_refused() {
    let error = validate_custom_verses(&request(vec![verse("Jude", 2, 1, "words")]))
        .expect_err("should be refused");
    assert!(error.message().contains("Jude has 1 chapters"));
}

#[test]
fn repeated_verse_numbers_are_refused() {
    let error = validate_custom_verses(&request(vec![
        verse("John", 3, 16, "one"),
        verse("John", 3, 16, "again"),
    ]))
    .expect_err("should be refused");
    assert!(error.message().contains("appears more than once"));
}

#[test]
fn gaps_are_reported_but_not_treated_as_a_failure() {
    let checked = validate_custom_verses(&request(vec![
        verse("John", 3, 16, "one"),
        verse("John", 3, 19, "four"),
    ]))
    .expect("gaps are fine");
    assert_eq!(checked.missing_verses, vec![17, 18]);
}

#[test]
fn an_empty_paste_is_refused() {
    let error = validate_custom_verses(&request(vec![])).expect_err("should be refused");
    assert!(error.message().contains("no verses"));
}

#[test]
fn markup_and_labels_are_refused_as_verse_text() {
    let code = validate_custom_verses(&request(vec![CustomVerseInput {
        book: "John".to_string(),
        chapter: 3,
        verse: 16,
        text: "{\"book\":\"John\"}".to_string(),
    }]))
    .expect_err("should be refused");
    assert!(code.message().contains("looks like code"));

    let labelled =
        check_verse_text("John 3:16 — For God so loved", 16).expect_err("should be refused");
    assert!(labelled.message().contains("remove the book, chapter"));

    let empty = check_verse_text("   ", 16).expect_err("should be refused");
    assert!(empty.message().contains("no words"));
}

#[test]
fn words_are_tidied_before_they_are_stored() {
    assert_eq!(
        check_verse_text("  For   God\nso loved  ", 16).unwrap(),
        "For God so loved"
    );
}

#[test]
fn a_custom_translation_id_cannot_break_the_database() {
    assert_eq!(normalise_custom_id(None), "custom");
    assert_eq!(normalise_custom_id(Some("   ")), "custom");
    assert_eq!(normalise_custom_id(Some("My Notes!")), "my-notes");
    assert_eq!(normalise_custom_id(Some("--weird--")), "weird");
    let long = "a".repeat(200);
    assert_eq!(
        normalise_custom_id(Some(&long)).chars().count(),
        MAX_CUSTOM_ID_CHARS
    );
}

#[test]
fn search_words_are_quoted_so_punctuation_cannot_break_the_query() {
    assert_eq!(
        search_terms("God so loved").as_deref(),
        Some("\"god\" AND \"so\" AND \"loved\"")
    );
    assert_eq!(
        search_terms("shep*herd").as_deref(),
        Some("\"shep\" AND \"herd\"")
    );
    assert_eq!(search_terms("!!! ???"), None);
    assert_eq!(prefix_terms("!!"), None);
    assert_eq!(prefix_terms("shepherd").as_deref(), Some("\"shepherd\"*"));
    assert_eq!(prefix_terms("he is good").as_deref(), Some("\"good\"*"));
}

#[test]
fn each_refusal_of_a_paste_names_its_reason() {
    let too_many: Vec<CustomVerseInput> = (1..=401).map(|_| verse("John", 3, 1, "w")).collect();
    let error = validate_custom_verses(&request(too_many)).expect_err("too many");
    assert_eq!(
        error.message(),
        "invalid configuration: 401 verses is more than one chapter; paste a single chapter (up to 400 verses)"
    );

    let error = validate_custom_verses(&request(vec![verse("  ", 1, 1, "w")])).unwrap_err();
    assert_eq!(error.message(), "invalid configuration: every verse needs a book name");

    let error = validate_custom_verses(&request(vec![verse("99", 1, 1, "w")])).unwrap_err();
    assert_eq!(error.message(), "invalid configuration: there is no book number 99");

    let error = validate_custom_verses(&request(vec![verse("John", 3, 0, "w")])).unwrap_err();
    assert_eq!(
        error.message(),
        "invalid configuration: verse number 0 is not a verse number"
    );

    let error = validate_custom_verses(&request(vec![
        verse("John", 3, 16, "one"),
        verse("Luke", 3, 17, "two"),
    ]))
    .unwrap_err();
    assert_eq!(
        error.message(),
        "invalid configuration: this paste mixes John with Luke; save one chapter at a time"
    );

    let error = validate_custom_verses(&request(vec![verse("Jude", 2, 1, "w")])).unwrap_err();
    assert_eq!(
        error.message(),
        "invalid configuration: Jude has 1 chapters, so there is no chapter 2"
    );

    let error = check_verse_text("1, 2; 3", 4).unwrap_err();
    assert_eq!(
        error.message(),
        "invalid configuration: verse 4 has no words, only numbers or punctuation"
    );

    let error = check_verse_text(&"a".repeat(2001), 5).unwrap_err();
    assert_eq!(
        error.message(),
        "invalid configuration: verse 5 has 2001 characters, which is longer than a verse"
    );
    assert!(matches!(error, AppError::InvalidConfiguration(_)));
}

#[test]
fn multi_word_aliases_resolve_a_pasted_book() {
    let checked =
        validate_custom_verses(&request(vec![verse("first corinthians", 13, 4, "Love is patient")]))
            .expect("alias");
    assert_eq!(checked.book_id, 46);
    assert_eq!(checked.verses[0].text, "Love is patient");
    assert_eq!(checked.verses[0].translation_id, "custom");
    assert_eq!(checked.verses[0].chapter, 13);
}

#[test]
fn labels_are_recognised_at_the_start_of_a_line() {
    assert!(looks_like_metadata("John 3:16 — For God"));
    assert!(looks_like_metadata("Verse: For God"));
    assert!(looks_like_metadata("TEXT: For God"));
    assert!(!looks_like_metadata("For God so loved the world"));
    assert!(!looks_like_metadata("Watch: the hour is near"));
    assert!(!looks_like_metadata("at 3 o'clock: the hour"));
}

#[test]
fn gaps_fill_the_range_between_the_supplied_numbers() {
    assert_eq!(gaps_between(&[5, 1, 3]), vec![2, 4]);
    assert_eq!(gaps_between(&[]), Vec::<u16>::new());
    assert_eq!(gaps_between(&[7]), Vec::<u16>::new());
    assert_eq!(gaps_between(&[2, 2, 4]), vec![3]);
}

#[test]
fn translation_ids_are_slugged() {
    assert_eq!(normalise_translation_id("  My Readings  ").unwrap(), "my-readings");
    let error = normalise_translation_id("!!!").unwrap_err();
    assert_eq!(
        error.message(),
        "invalid configuration: give the translation a short id, such as msg or my-readings"
    );
}

#[test]
fn adding_a_published_translation_takes_its_names_from_the_catalogue() {
    let (info, published) = plan_add_translation(&AddTranslationRequest {
        id: " MSG ".to_string(),
        name: Some("ignored".to_string()),
        abbreviation: None,
        language: None,
    })
    .expect("published");
    assert!(published);
    assert_eq!(info.id, "msg");
    assert_eq!(info.name, "The Message");
    assert_eq!(info.abbreviation.as_deref(), Some("MSG"));
    assert_eq!(info.language, "en");
    assert!(!info.is_default);

    let (info, published) = plan_add_translation(&AddTranslationRequest {
        id: "My Readings".to_string(),
        name: Some("  My readings ".to_string()),
        abbreviation: Some("  ".to_string()),
        language: Some(" fr ".to_string()),
    })
    .expect("custom");
    assert!(!published);
    assert_eq!(info.id, "my-readings");
    assert_eq!(info.name, "My readings");
    assert_eq!(info.abbreviation, None);
    assert_eq!(info.language, "fr");

    let error = plan_add_translation(&AddTranslationRequest {
        id: "kjv".to_string(),
        name: None,
        abbreviation: None,
        language: None,
    })
    .unwrap_err();
    assert_eq!(
        error.message(),
        "invalid configuration: kjv is one of the Bibles that come with Selah, so it is already here"
    );

    let error = plan_add_translation(&AddTranslationRequest {
        id: "mine".to_string(),
        name: Some("   ".to_string()),
        abbreviation: None,
        language: None,
    })
    .unwrap_err();
    assert!(error.message().contains("give the translation a name"));
}

#[test]
fn renaming_needs_a_name() {
    let (name, abbreviation, language) = plan_update_translation(&UpdateTranslationRequest {
        id: "mine".to_string(),
        name: " Mine ".to_string(),
        abbreviation: Some(" MN ".to_string()),
        language: None,
    })
    .unwrap();
    assert_eq!(name, "Mine");
    assert_eq!(abbreviation.as_deref(), Some("MN"));
    assert_eq!(language, "en");
    let error = plan_update_translation(&UpdateTranslationRequest {
        id: "mine".to_string(),
        name: "  ".to_string(),
        abbreviation: None,
        language: None,
    })
    .unwrap_err();
    assert_eq!(error.message(), "invalid configuration: a translation needs a name");
}

#[test]
fn a_sqlite_import_needs_an_id_and_a_name() {
    let info = sqlite_translation_info(&SqliteImportRequest {
        path: "/tmp/kjv.sqlite".to_string(),
        translation_id: " KJV2 ".to_string(),
        name: " King James ".to_string(),
        abbreviation: Some(" KJV ".to_string()),
        make_default: true,
    })
    .unwrap();
    assert_eq!(info.id, "kjv2");
    assert_eq!(info.name, "King James");
    assert_eq!(info.abbreviation.as_deref(), Some(" KJV "));
    assert!(info.is_default);
    let error = sqlite_translation_info(&SqliteImportRequest {
        path: "/tmp/kjv.sqlite".to_string(),
        translation_id: "  ".to_string(),
        name: "x".to_string(),
        abbreviation: None,
        make_default: false,
    })
    .unwrap_err();
    assert_eq!(
        error.message(),
        "invalid configuration: a short id and a name are both required"
    );
}

#[test]
fn the_bundled_translations_cannot_take_pasted_verses() {
    let req = request(vec![verse("John", 3, 16, "one")]);
    let error = plan_custom_verses(&req, Some((true, "King James Version".to_string()))).unwrap_err();
    assert!(error.message().contains("King James Version is one of the Bibles"));
    let (info, checked) = plan_custom_verses(&req, Some((false, "Mine".to_string()))).unwrap();
    assert_eq!(info.id, "custom");
    assert_eq!(info.name, "My verses");
    assert_eq!(checked.verses.len(), 1);
}

#[test]
fn search_scope_and_short_queries() {
    assert_eq!(search_scope(&None), None);
    assert_eq!(search_scope(&Some(" * ".to_string())), None);
    assert_eq!(search_scope(&Some("@all".to_string())), None);
    assert_eq!(search_scope(&Some(" kjv ".to_string())), Some("kjv".to_string()));
    let short = short_query_result(" a ").expect("too short");
    assert!(short.verses.is_empty());
    assert_eq!(short.suggestions.len(), 6);
    assert!(short_query_result("ab").is_none());
    let widened = widened_result("zzz", Vec::new());
    assert!(widened.related);
    assert_eq!(widened.suggestions.len(), 6);
}

#[test]
fn verse_labels_and_book_rows() {
    let v = Verse {
        translation_id: "kjv".to_string(),
        book_id: 43,
        chapter: 3,
        verse: 16,
        text: "For God".to_string(),
    };
    assert_eq!(v.label(), "John 3:16");
    let unknown = Verse { book_id: 99, ..v.clone() };
    assert_eq!(unknown.label(), "#99 3:16");
    let row = BibleBook::new(19, "Psalms".to_string(), "OT".to_string(), None);
    assert_eq!(row.chapters, 150);
    assert_eq!(BibleBook::new(0, "x".to_string(), "OT".to_string(), None).chapters, 0);
}

#[test]
fn the_bundled_bibles_cannot_be_renamed_or_removed() {
    match check_not_bundled(true, "King James Version", "renamed") {
        Err(AppError::InvalidConfiguration(m)) => assert_eq!(
            m,
            "King James Version is one of the Bibles that come with Selah, so it cannot be renamed"
        ),
        other => panic!("unexpected {other:?}"),
    }
    match check_not_bundled(true, "WEB", "removed") {
        Err(AppError::InvalidConfiguration(m)) => {
            assert!(m.ends_with("so it cannot be removed"))
        }
        other => panic!("unexpected {other:?}"),
    }
    assert!(check_not_bundled(false, "My notes", "removed").is_ok());
}

fn installed(id: &str, name: &str, abbreviation: Option<&str>, builtin: bool, origin: &str, verse_count: i64) -> InstalledTranslation {
    InstalledTranslation {
        translation: Translation {
            id: id.to_string(),
            name: name.to_string(),
            language: "en".to_string(),
            abbreviation: abbreviation.map(str::to_string),
            is_default: false,
            created_at: "2024-01-01T00:00:00Z".to_string(),
        },
        builtin,
        origin: origin.to_string(),
        verse_count,
    }
}

#[test]
fn the_catalogue_list_marks_what_is_installed_and_adds_the_rest() {
    let inst = vec![
        installed("kjv", "King James Version", Some("KJV"), true, "bundled", 31102),
        installed("my-notes", "My notes", None, false, "operator", 3),
        installed("sermons", "Sermon texts", Some("SRM"), false, "bundled", 0),
    ];
    let listed = list_with_installed(&inst);
    assert_eq!(listed.len(), all().len() + 2);
    let kjv = listed.iter().find(|e| e.id == "kjv").expect("kjv is published");
    assert!(kjv.installed && kjv.builtin);
    assert_eq!(kjv.verse_count, 31102);
    let msg = listed.iter().find(|e| e.id == "msg").expect("msg is published");
    assert!(!msg.installed);
    assert_eq!(msg.verse_count, 0);
    let notes = &listed[all().len()];
    assert_eq!(notes.id, "my-notes");
    assert_eq!(notes.abbreviation, "My notes");
    assert_eq!(notes.group, "Added by you");
    assert!(notes.installed && !notes.builtin && !notes.public_domain);
    let sermons = &listed[all().len() + 1];
    assert_eq!(sermons.group, "Selah's own");
    assert_eq!(sermons.abbreviation, "SRM");
}

#[test]
fn an_installed_translation_is_listed_once() {
    let inst = vec![
        installed("mine", "Mine", None, false, "operator", 1),
        installed("mine", "Mine again", None, false, "operator", 2),
    ];
    let listed = list_with_installed(&inst);
    assert_eq!(listed.len(), all().len() + 1);
    assert_eq!(listed[all().len()].verse_count, 1);
}

#[test]
fn bundled_translations_install_in_order_and_only_the_first_becomes_default() {
    let list = bundled_translations();
    let ids: Vec<&str> = list.iter().map(|b| b.1).collect();
    assert_eq!(ids, vec!["web", "kjv", "asv"]);
    assert_eq!(list[1].0, "kjv.sqlite");
    let first = bundled_info("web", "World English Bible", "WEB", false, 0);
    assert!(first.is_default);
    assert_eq!(first.abbreviation.as_deref(), Some("WEB"));
    assert_eq!(first.language, "en");
    assert!(!bundled_info("kjv", "King James Version", "KJV", false, 1).is_default);
    assert!(!bundled_info("web", "World English Bible", "WEB", true, 0).is_default);
}

#[test]
fn search_limits_default_to_twenty_five_within_bounds() {
    assert_eq!(search_limit(None), 25);
    assert_eq!(search_limit(Some(0)), 1);
    assert_eq!(search_limit(Some(7)), 7);
    assert_eq!(search_limit(Some(5000)), 200);
}

#[test]
fn a_verse_the_chapter_does_not_have_is_refused() {
    match validate_custom_verses(&request(vec![verse("John", 3, 100, "words")])) {
        Err(AppError::InvalidConfiguration(m)) => {
            assert_eq!(m, "John 3 has 36 verses, so there is no verse 100")
        }
        other => panic!("unexpected {other:?}"),
    }
    assert!(validate_custom_verses(&request(vec![verse("John", 3, 36, "He that believeth on the Son")])).is_ok());
}

#[test]
fn stems_match_their_keywords() {
    assert!(selah::bible::topics::matches_word("worries", "worry"));
    assert!(selah::bible::topics::matches_word("praying", "pray"));
    assert!(selah::bible::topics::matches_word("worry", "worry"));
    assert!(!selah::bible::topics::matches_word("invite", "in"));
    assert!(!selah::bible::topics::matches_word("flies", "fly"));
    assert!(!selah::bible::topics::matches_word("worried", "worry"));
}

#[test]
fn catalogue_ids_are_distinct_lowercase_words() {
    let entries = all();
    for (i, a) in entries.iter().enumerate() {
        assert!(!a.id.is_empty());
        assert!(a.id.chars().all(|c| c.is_ascii_lowercase() || c.is_ascii_digit()));
        for b in entries.iter().skip(i + 1) {
            assert_ne!(a.id, b.id);
        }
    }
}

#[test]
fn a_larger_limit_only_extends_the_suggestions() {
    for query in ["I am worried about money", "praying", "zzz", "grief and loss"] {
        let long = suggest(query, 10);
        for limit in 0..10 {
            let short = suggest(query, limit);
            assert_eq!(short.len(), limit.min(long.len()));
            for (s, l) in short.iter().zip(long.iter()) {
                assert_eq!(s.topic, l.topic);
                assert_eq!(s.reference, l.reference);
            }
        }
    }
}

#[test]
fn every_catalogue_entry_is_found_by_its_id() {
    for e in all() {
        assert_eq!(find(&e.id).map(|p| p.name()), Some(e.name.as_str()));
        assert!(!e.installed);
        assert_eq!(e.verse_count, 0);
        assert_eq!(e.builtin, ["kjv", "asv", "web"].contains(&e.id.as_str()));
        assert_eq!(e.builtin, is_builtin(&e.id));
    }
}

#[test]
fn a_search_tries_the_exact_words_then_widens_them() {
    use_search_steps();
}

fn use_search_steps() {
    match selah::commands::bible::search_begin("a") {
        selah::commands::bible::SearchAction::Answer(r) => {
            assert!(r.verses.is_empty());
            assert!(!r.related);
            assert!(!r.suggestions.is_empty());
        }
        other => panic!("unexpected {other:?}"),
    }
    match selah::commands::bible::search_begin("shepherd") {
        selah::commands::bible::SearchAction::Search { stage, terms } => {
            assert_eq!(stage, selah::commands::bible::SearchStage::Exact);
            assert_eq!(Some(terms), search_terms("shepherd"));
        }
        other => panic!("unexpected {other:?}"),
    }
    match selah::commands::bible::search_after_exact("shepherd", Vec::new()) {
        selah::commands::bible::SearchAction::Search { stage, terms } => {
            assert_eq!(stage, selah::commands::bible::SearchStage::Widened);
            assert_eq!(terms, "\"shepherd\"*");
        }
        other => panic!("unexpected {other:?}"),
    }
    let found = vec![Verse {
        translation_id: "kjv".to_string(),
        book_id: 19,
        chapter: 23,
        verse: 1,
        text: "The LORD is my shepherd".to_string(),
    }];
    match selah::commands::bible::search_after_exact("shepherd", found) {
        selah::commands::bible::SearchAction::Answer(r) => {
            assert_eq!(r.verses.len(), 1);
            assert!(!r.related);
            assert!(r.suggestions.is_empty());
        }
        other => panic!("unexpected {other:?}"),
    }
    match selah::commands::bible::search_begin("!!! ???") {
        selah::commands::bible::SearchAction::Answer(r) => {
            assert!(r.verses.is_empty());
            assert!(r.related);
        }
        other => panic!("unexpected {other:?}"),
    }
}

#[test]
fn every_theme_points_to_a_verse_that_exists() {
    for query in ["anxiety", "zzz", "praise and thanksgiving", "christmas easter baptism"] {
        for s in suggest(query, 31) {
            let book = book_by_id(s.book_id).expect("a known book");
            assert!(1 <= s.chapter && s.chapter <= book.chapters);
            assert!(1 <= s.verse && s.verse <= selah::scripture::verses::chapter_verses(s.book_id, s.chapter));
            assert_eq!(s.reference, format!("{} {}:{}", book.name, s.chapter, s.verse));
        }
    }
    for t in all_topics() {
        let book = book_by_id(t.book_id).expect("a known book");
        assert!(t.verse >= 1 && t.verse <= selah::scripture::verses::chapter_verses(t.book_id, t.chapter));
        assert!(t.chapter >= 1 && t.chapter <= book.chapters);
    }
}
