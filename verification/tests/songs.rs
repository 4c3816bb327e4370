use selah::commands::songs::song_items;
use selah::models::presentation::ContentPayload;
use selah::songs::models::{Song, SongInput, SongSection, SongSectionInput};

fn section(label: &str, text: &str) -> SongSectionInput {
    SongSectionInput {
        label: Some(label.to_string()),
        text: text.to_string(),
    }
}

#[test]
fn normalizing_trims_and_drops_blank_sections() {
    let input = SongInput {
        title: "  Amazing Grace  ".to_string(),
        author: Some("  John Newton ".to_string()),
        sections: vec![
            section("Verse 1", "  Amazing grace  "),
            section("", "   "),
            SongSectionInput {
                label: Some("   ".to_string()),
                text: "  My chains are gone  ".to_string(),
            },
        ],
    }
    .normalized()
    .expect("should normalise");

    assert_eq!(input.title, "Amazing Grace");
    assert_eq!(input.author.as_deref(), Some("John Newton"));
    assert_eq!(input.sections.len(), 2);
    assert_eq!(input.sections[0].text, "Amazing grace");
    assert_eq!(input.sections[1].label, None);
    assert_eq!(input.sections[1].text, "My chains are gone");
}

#[test]
fn a_song_without_a_title_is_rejected() {
    let err = SongInput {
        title: "   ".to_string(),
        author: None,
        sections: vec![section("Verse 1", "words")],
    }
    .normalized()
    .unwrap_err();
    assert!(err.message().contains("title"));
}

#[test]
fn a_song_without_words_is_rejected() {
    let err = SongInput {
        title: "Untitled".to_string(),
        author: None,
        sections: vec![section("Verse 1", "  ")],
    }
    .normalized()
    .unwrap_err();
    assert!(err.message().contains("section"));
}

#[test]
fn normalizing_an_already_normal_song_changes_nothing() {
    let once = SongInput {
        title: " Be Thou My Vision ".to_string(),
        author: Some("  ".to_string()),
        sections: vec![section(" Verse 1 ", " Be thou my vision "), section("", "  ")],
    }
    .normalized()
    .unwrap();
    assert_eq!(once.author, None);
    assert_eq!(once.sections[0].label.as_deref(), Some("Verse 1"));
    let twice = once.clone().normalized().unwrap();
    assert_eq!(twice, once);
}

fn song(count: usize) -> Song {
    Song {
        id: "s1".to_string(),
        title: "Amazing Grace".to_string(),
        author: None,
        created_at: String::new(),
        updated_at: String::new(),
        sections: (0..count)
            .map(|i| SongSection {
                id: format!("sec{i}"),
                label: if i == 0 { Some("Verse 1".to_string()) } else { None },
                text: format!("words {}", i + 1),
                position: i as i64 + 1,
            })
            .collect(),
    }
}

#[test]
fn a_song_is_projected_section_by_section() {
    let (first, rest) = song_items(&song(3), Some(2)).unwrap();
    assert_eq!(first.title, "Amazing Grace — 2/3");
    assert!(matches!(first.payload, ContentPayload::Song { index: 2, total: 3, .. }));
    assert_eq!(rest.len(), 1);
    assert!(matches!(rest[0].payload, ContentPayload::Song { index: 3, .. }));

    let (first, rest) = song_items(&song(3), None).unwrap();
    assert_eq!(first.title, "Amazing Grace — Verse 1");
    assert_eq!(rest.len(), 2);

    // Out-of-range starting sections are kept within the song.
    let (first, rest) = song_items(&song(3), Some(99)).unwrap();
    assert!(matches!(first.payload, ContentPayload::Song { index: 3, .. }));
    assert!(rest.is_empty());
    let (first, _) = song_items(&song(3), Some(0)).unwrap();
    assert!(matches!(first.payload, ContentPayload::Song { index: 1, .. }));

    let err = song_items(&song(0), None).unwrap_err();
    assert!(err.message().contains("no sections yet"));
}
