use selah::models::content::{ContentDetector, DetectedContent};
use selah::models::presentation::{
    ContentPayload, ContentType, PresentationItem, PresentationItemRecord, PresentationState,
};
use selah::models::settings::{
    default_branding_size_percent, AppSettings, BrandingPosition, BrandingSettings,
    PresentationSettings, RecognizerKind, MAX_BRANDING_TEXT,
};
use selah::presentation::engine::PresentationEngine;
use selah::scripture::reference::ScriptureReference;

// ---------------------------------------------------------------------------
// Settings
// ---------------------------------------------------------------------------

#[test]
fn default_settings_are_sane() {
    let s = AppSettings::defaults(4);
    assert_eq!(s.speech.speech_sample_rate, 16_000);
    assert_eq!(s.speech.recognizer, RecognizerKind::Mock);
    assert!(s.speech.vad_enabled);
    assert!(s.speech.threads >= 1);
}

#[test]
fn sanitize_repairs_malformed_projector_settings() {
    let broken = PresentationSettings {
        display_index: None,
        fullscreen: false,
        background: "#06666".to_string(),
        font_size: 10,
        font_family: "   ".to_string(),
        follow_live: true,
        branding: BrandingSettings::default(),
    };
    let (fixed, changed) = broken.sanitized();
    assert!(changed);
    assert_eq!(fixed.background, "#000000");
    assert_eq!(fixed.font_size, 64);
    assert_eq!(fixed.font_family, "Creato Display");
    assert!(!fixed.fullscreen);
    assert!(fixed.follow_live);
}

#[test]
fn sanitize_leaves_valid_settings_untouched() {
    let settings = PresentationSettings::default();
    let (fixed, changed) = settings.sanitized();
    assert!(!changed);
    assert_eq!(fixed, settings);
}

#[test]
fn branding_without_text_or_logo_draws_nothing() {
    let branding = BrandingSettings::default();
    assert!(branding.is_empty());
    assert_eq!(branding.position, BrandingPosition::Bottom);
    assert_eq!(branding.size_percent, default_branding_size_percent());
}

#[test]
fn branding_text_is_trimmed_and_capped() {
    let crowded = BrandingSettings {
        text: Some(format!("  Grace   Chapel\n{}", "x".repeat(400))),
        ..BrandingSettings::default()
    };
    let (fixed, changed) = crowded.sanitized();
    assert!(changed);
    let text = fixed.text.expect("text kept");
    assert!(text.starts_with("Grace Chapel x"));
    assert_eq!(text.chars().count(), MAX_BRANDING_TEXT);
}

#[test]
fn a_relative_logo_path_is_dropped_but_a_real_one_is_kept() {
    let wrong = BrandingSettings {
        logo: Some("logo.png".to_string()),
        ..BrandingSettings::default()
    };
    let (fixed, changed) = wrong.sanitized();
    assert!(changed);
    assert_eq!(fixed.logo, None);

    let right = BrandingSettings {
        logo: Some("/Users/someone/logo.png".to_string()),
        size_percent: 40,
        ..BrandingSettings::default()
    };
    let (fixed, changed) = right.sanitized();
    assert!(!changed);
    assert_eq!(fixed.logo.as_deref(), Some("/Users/someone/logo.png"));
}

#[test]
fn an_out_of_range_branding_size_falls_back() {
    let silly = BrandingSettings {
        size_percent: 5000,
        ..BrandingSettings::default()
    };
    let (fixed, changed) = silly.sanitized();
    assert!(changed);
    assert_eq!(fixed.size_percent, default_branding_size_percent());
}

#[test]
fn sanitizing_twice_changes_nothing_more() {
    let broken = PresentationSettings {
        display_index: Some(1),
        fullscreen: true,
        background: "blue".to_string(),
        font_size: 900,
        font_family: "  Inter  ".to_string(),
        follow_live: false,
        branding: BrandingSettings {
            position: BrandingPosition::Top,
            text: Some("  St   Mark's  ".to_string()),
            logo: Some("  /logo.png ".to_string()),
            size_percent: 3,
        },
    };
    let (once, changed) = broken.sanitized();
    assert!(changed);
    assert_eq!(once.font_size, 64);
    assert_eq!(once.background, "#000000");
    assert_eq!(once.branding.text.as_deref(), Some("St Mark's"));
    assert_eq!(once.branding.logo.as_deref(), Some("/logo.png"));
    let (twice, changed_again) = once.sanitized();
    assert!(!changed_again);
    assert_eq!(twice, once);
}

#[test]
fn branding_positions_have_css_names() {
    assert_eq!(BrandingPosition::Top.as_str(), "top");
    assert_eq!(BrandingPosition::Bottom.as_str(), "bottom");
    assert_eq!(BrandingPosition::Left.as_str(), "left");
    assert_eq!(BrandingPosition::Right.as_str(), "right");
}

// ---------------------------------------------------------------------------
// Presentation state
// ---------------------------------------------------------------------------

fn item(title: &str) -> PresentationItem {
    PresentationItem {
        id: title.to_string(),
        content_type: ContentType::Text,
        title: title.to_string(),
        payload: ContentPayload::Text {
            heading: Some(title.to_string()),
            text: title.to_string(),
        },
    }
}

#[test]
fn set_current_keeps_history() {
    let mut state = PresentationState::empty();
    state.set_current(item("first"));
    state.set_current(item("second"));
    assert_eq!(state.current().unwrap().title, "second");
    assert_eq!(state.history.len(), 1);
}

#[test]
fn next_and_previous_roundtrip() {
    let mut state = PresentationState::empty();
    state.set_current(item("a"));
    state.set_current(item("b"));
    state.queue.push(item("c"));

    assert!(state.show_next());
    assert_eq!(state.current().unwrap().title, "c");
    assert!(state.show_previous());
    assert_eq!(state.current().unwrap().title, "b");
}

#[test]
fn clear_moves_to_history() {
    let mut state = PresentationState::empty();
    state.set_current(item("a"));
    state.clear();
    assert!(state.current().is_none());
    assert_eq!(state.history.len(), 1);
}

#[test]
fn navigation_at_the_ends_changes_nothing() {
    let mut state = PresentationState::empty();
    assert!(!state.show_next());
    assert!(!state.show_previous());
    assert_eq!(state, PresentationState::empty());
    state.set_current(item("only"));
    assert!(!state.show_next());
    assert_eq!(state.current().unwrap().title, "only");
}

#[test]
fn the_engine_projects_queues_and_walks() {
    let mut engine = PresentationEngine::new();
    engine.project(item("one"));
    engine.queue(item("two")).unwrap();
    assert!(engine.show_next());
    assert_eq!(engine.state().current.as_ref().unwrap().title, "two");
    assert!(engine.show_previous());
    assert_eq!(engine.state().current.as_ref().unwrap().title, "one");
    engine.clear();
    assert!(engine.state().current.is_none());
}

#[test]
fn clearing_the_queue_keeps_the_screen_and_the_history() {
    let mut engine = PresentationEngine::new();
    engine.project(item("one"));
    engine.project(item("two"));
    engine.queue(item("three")).unwrap();
    engine.queue(item("four")).unwrap();
    engine.clear_queue().unwrap();
    assert!(engine.state().queue.is_empty());
    assert_eq!(engine.state().current.as_ref().unwrap().title, "two");
    assert_eq!(engine.state().history.len(), 1);
    assert!(!engine.show_next());
}

// ---------------------------------------------------------------------------
// Presentation items and stored rows
// ---------------------------------------------------------------------------

fn record(stored_type: &str) -> PresentationItemRecord {
    PresentationItemRecord {
        id: "item-1".to_string(),
        presentation_id: "deck-1".to_string(),
        item_type: stored_type.to_string(),
        position: 1,
        payload: String::new(),
    }
}

fn scripture_payload(reference: &str, translation: &str, text: &str) -> ContentPayload {
    ContentPayload::Scripture {
        reference: reference.to_string(),
        translation: translation.to_string(),
        text: text.to_string(),
        heading: None,
        heading_size: None,
        text_size: None,
    }
}

#[test]
fn stored_scripture_becomes_a_projectable_item() {
    let row = record("scripture");
    let item = row
        .to_item(Ok(scripture_payload("John 3:16", "WEB", "For God so loved")))
        .expect("should convert");
    assert_eq!(item.content_type, ContentType::Scripture);
    assert_eq!(item.title, "WEB John 3:16");
    assert!(matches!(
        item.payload,
        ContentPayload::Scripture { ref text, .. } if text == "For God so loved"
    ));
}

#[test]
fn stored_text_uses_its_first_line_as_a_title() {
    let row = record("text");
    let item = row
        .to_item(Ok(ContentPayload::Text {
            heading: None,
            text: "\n  Welcome everyone\n".to_string(),
        }))
        .expect("should convert");
    assert_eq!(item.title, "Welcome everyone");
}

#[test]
fn an_unreadable_payload_is_reported_not_ignored() {
    let err = record("text")
        .to_item(Err("expected value at line 1 column 1".to_string()))
        .unwrap_err();
    let message = err.message();
    assert!(message.contains("item-1"), "got: {message}");
}

#[test]
fn an_unknown_kind_falls_back_to_the_payload() {
    let row = record("mystery");
    let item = row
        .to_item(Ok(ContentPayload::Text {
            heading: None,
            text: "Hello".to_string(),
        }))
        .expect("should convert");
    assert_eq!(item.content_type, ContentType::Text);
}

#[test]
fn a_stored_heading_is_kept_and_becomes_the_title() {
    let row = record("text");
    let item = row
        .to_item(Ok(ContentPayload::Text {
            heading: Some("Welcome".to_string()),
            text: "Good morning everyone".to_string(),
        }))
        .expect("should convert");
    assert_eq!(item.title, "Welcome");
    assert!(matches!(
        item.payload,
        ContentPayload::Text { ref heading, .. } if heading.as_deref() == Some("Welcome")
    ));
}

#[test]
fn stored_media_keeps_its_kind_and_caption() {
    let legacy = record("image");
    let item = legacy
        .to_item(Ok(ContentPayload::Media {
            path: "/tmp/slide.png".to_string(),
            media_kind: None,
            heading: None,
        }))
        .expect("should convert");
    assert_eq!(item.title, "slide.png");
    assert!(matches!(
        item.payload,
        ContentPayload::Media { media_kind: None, .. }
    ));

    let row = record("video");
    let item = row
        .to_item(Ok(ContentPayload::Media {
            path: "/tmp/clip.mp4".to_string(),
            media_kind: Some("video".to_string()),
            heading: Some("Baptism".to_string()),
        }))
        .expect("should convert");
    assert_eq!(item.content_type, ContentType::Video);
    assert_eq!(item.title, "Baptism");
}

#[test]
fn a_picture_is_projected_without_a_caption_unless_one_is_given() {
    let plain = PresentationItem::media(
        "baptism.jpg".to_string(),
        "/tmp/baptism.jpg".to_string(),
        Some("image".to_string()),
        None,
    );
    assert_eq!(plain.title, "baptism.jpg");
    assert!(matches!(
        plain.payload,
        ContentPayload::Media { heading: None, .. }
    ));

    let captioned = PresentationItem::media(
        "Baptism".to_string(),
        "/tmp/baptism.jpg".to_string(),
        Some("image".to_string()),
        Some("Baptism".to_string()),
    );
    assert!(matches!(
        captioned.payload,
        ContentPayload::Media { ref heading, .. } if heading.as_deref() == Some("Baptism")
    ));
}

#[test]
fn a_song_section_becomes_its_own_projectable_item() {
    let item = PresentationItem::song_section(
        "Amazing Grace",
        Some("Verse 1".to_string()),
        "Amazing grace, how sweet the sound".to_string(),
        1,
        3,
    );
    assert_eq!(item.content_type, ContentType::Song);
    assert_eq!(item.title, "Amazing Grace — Verse 1");
    assert!(matches!(
        item.payload,
        ContentPayload::Song { index: 1, total: 3, ref text, .. }
            if text == "Amazing grace, how sweet the sound"
    ));
}

#[test]
fn sizes_chosen_on_the_bible_screen_reach_the_projector() {
    let item = PresentationItem::scripture_sized(
        "John 3:16",
        "KJV",
        "For God so loved the world".to_string(),
        Some(120),
        Some(72),
    );
    assert!(matches!(
        item.payload,
        ContentPayload::Scripture {
            heading_size: Some(120),
            text_size: Some(72),
            ..
        }
    ));

    let plain = PresentationItem::scripture("John 3:16", "KJV", "…".to_string());
    assert!(matches!(
        plain.payload,
        ContentPayload::Scripture {
            heading_size: None,
            text_size: None,
            ..
        }
    ));
}

#[test]
fn a_passage_saved_before_sizes_existed_still_loads() {
    let row = record("scripture");
    let item = row
        .to_item(Ok(scripture_payload(
            "Psalm 23",
            "WEB",
            "The Lord is my shepherd",
        )))
        .expect("should convert");
    assert!(matches!(
        item.payload,
        ContentPayload::Scripture {
            heading_size: None,
            text_size: None,
            ..
        }
    ));
}

#[test]
fn new_items_get_distinct_uuid_shaped_ids() {
    let a = PresentationItem::plain_text("Notice".to_string(), "Tea after".to_string());
    let b = PresentationItem::plain_text("  ".to_string(), "Tea after".to_string());
    assert_ne!(a.id, b.id);
    assert_eq!(a.id.len(), 36);
    assert_eq!(&a.id[8..9], "-");
    assert!(matches!(b.payload, ContentPayload::Text { heading: None, .. }));
}

#[test]
fn content_types_round_trip_through_their_names() {
    for t in [
        ContentType::Scripture,
        ContentType::Text,
        ContentType::Song,
        ContentType::Image,
        ContentType::Video,
    ] {
        assert_eq!(ContentType::parse(t.as_str()), Some(t));
    }
    assert_eq!(ContentType::parse("mystery"), None);
}

// ---------------------------------------------------------------------------
// Content detection
// ---------------------------------------------------------------------------

#[test]
fn detected_scripture_and_plain_text() {
    let detector = ContentDetector;
    let results =
        detector.detect_contents("and today we are going to read John chapter three verse sixteen");
    assert_eq!(results.len(), 1);
    assert!(results[0].is_scripture());
    assert_eq!(results[0].label(), "John 3:16");

    assert!(detector.detect_contents("   ").is_empty());

    let results = detector.detect_contents("  remember to bring the offering plates ");
    assert_eq!(results.len(), 1);
    assert_eq!(
        results[0],
        DetectedContent::Text {
            text: "remember to bring the offering plates".to_string()
        }
    );
    assert_eq!(results[0].label(), "Text");
    let unknown = DetectedContent::Unknown {
        text: "?".to_string(),
    };
    assert_eq!(unknown.label(), "Unknown");
    assert!(!unknown.is_scripture());
    let s = DetectedContent::Scripture {
        reference: ScriptureReference::new(43, 3).with_verse(16),
    };
    assert!(s.is_scripture());
}

#[test]
fn detects_scripture_in_speech() {
    let detector = ContentDetector;
    let results = detector.detect_contents("and today we are going to read John chapter three verse sixteen");
    assert_eq!(results.len(), 1);
    assert!(results[0].is_scripture());
}

#[test]
fn empty_input_has_no_results() {
    let detector = ContentDetector;
    assert!(detector.detect_contents("   ").is_empty());
}

#[test]
fn plain_text_returns_text_result() {
    let detector = ContentDetector;
    let results = detector.detect_contents("remember to bring the offering plates");
    assert_eq!(results.len(), 1);
    assert!(matches!(results[0], DetectedContent::Text { .. }));
}

#[test]
fn a_cut_branding_line_loses_its_trailing_space() {
    let b = BrandingSettings {
        text: Some(format!("{} yz", "x".repeat(119))),
        ..BrandingSettings::default()
    };
    let (fixed, changed) = b.sanitized();
    assert!(changed);
    assert_eq!(fixed.text.as_deref(), Some("x".repeat(119).as_str()));
    let (again, changed_again) = fixed.sanitized();
    assert!(!changed_again);
    assert_eq!(again.text, fixed.text);
}

#[test]
fn a_media_item_without_a_heading_is_named_after_its_file() {
    let payload = ContentPayload::Media { path: "/tmp/slide.png".to_string(), media_kind: None, heading: None };
    assert_eq!(selah::models::presentation::item_title(&payload), "slide.png");
    let captioned = ContentPayload::Media {
        path: "/tmp/slide.png".to_string(),
        media_kind: None,
        heading: Some(" Baptism ".to_string()),
    };
    assert_eq!(selah::models::presentation::item_title(&captioned), "Baptism");
}

#[test]
fn the_interface_never_sees_technical_detail() {
    let p = selah::error::AppError::SpeechModelNotFound("/opt/selah/models/moonshine/tokenizer.json".to_string()).to_frontend();
    assert_eq!(p.kind, "speechModelNotFound");
    assert_eq!(p.message, "speech model not found");
    let p = selah::error::AppError::Database("disk I/O error at /var/db".to_string()).to_frontend();
    assert_eq!(p.message, "database error");
    let p = selah::error::AppError::InvalidConfiguration("a translation needs a name".to_string()).to_frontend();
    assert_eq!(p.message, "invalid configuration: a translation needs a name");
    assert_eq!(p.kind, "invalidConfiguration");
}

#[test]
fn a_cut_branding_line_settles_after_one_sanitize() {
    let messy = PresentationSettings {
        display_index: None,
        fullscreen: true,
        background: "blue".to_string(),
        font_size: 500,
        font_family: "".to_string(),
        follow_live: false,
        branding: BrandingSettings {
            text: Some(format!("{} yz", "x".repeat(119))),
            logo: Some("logo.png".to_string()),
            size_percent: 99,
            ..BrandingSettings::default()
        },
    };
    let (once, changed) = messy.sanitized();
    assert!(changed);
    let (twice, changed_again) = once.sanitized();
    assert!(!changed_again);
    assert_eq!(twice, once);
    let (b_once, _) = messy.branding.sanitized();
    let (b_twice, b_changed) = b_once.sanitized();
    assert!(!b_changed);
    assert_eq!(b_twice, b_once);
}
