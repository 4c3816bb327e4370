use selah::presentation::display::{check_display_index, current_display, opening_display};
use selah::commands::presentation::{saved_presentation_order, window_choice};
use selah::commands::settings::{settings_to_store, setup_state, UpdateSettingsRequest};
use selah::db::{pending_migrations, Migration};
use selah::models::presentation::{ContentPayload, ContentType, PresentationItem};
use selah::models::settings::{AppSettings, PresentationSettings};

fn item(title: &str) -> PresentationItem {
    PresentationItem {
        id: title.to_string(),
        content_type: ContentType::Text,
        title: title.to_string(),
        payload: ContentPayload::Text {
            heading: None,
            text: title.to_string(),
        },
    }
}

#[test]
fn a_saved_presentation_starts_at_its_first_item() {
    let (first, rest) = saved_presentation_order(vec![item("a"), item("b"), item("c")]).unwrap();
    assert_eq!(first.title, "a");
    assert_eq!(rest.len(), 2);
    assert_eq!(rest[1].title, "c");
    let err = saved_presentation_order(vec![]).unwrap_err();
    assert!(err.message().contains("this presentation is empty"));
}

#[test]
fn explicit_window_choices_win_over_saved_ones() {
    let saved = PresentationSettings {
        display_index: Some(2),
        fullscreen: false,
        ..PresentationSettings::default()
    };
    assert_eq!(window_choice(None, None, &saved), (Some(2), false));
    assert_eq!(window_choice(Some(0), Some(true), &saved), (Some(0), true));
}

#[test]
fn setup_progress_is_read_from_what_is_stored() {
    let s = setup_state(&Some("1".to_string()), 2, &Some("/models/moonshine".to_string()));
    assert!(s.completed && s.has_translations && s.has_model);
    let s = setup_state(&Some("0".to_string()), 0, &Some(String::new()));
    assert!(!s.completed && !s.has_translations && !s.has_model);
}

#[test]
fn stored_settings_are_repaired_first() {
    let mut settings = AppSettings::defaults(2);
    settings.presentation.font_size = 3;
    let (stored, repaired) = settings_to_store(UpdateSettingsRequest { settings: settings.clone() });
    assert!(repaired);
    assert_eq!(stored.presentation.font_size, 64);
    assert_eq!(stored.speech, settings.speech);
    let (_, repaired) = settings_to_store(UpdateSettingsRequest {
        settings: AppSettings::defaults(2),
    });
    assert!(!repaired);
}

#[test]
fn only_unapplied_migrations_run() {
    let all = [
        Migration { version: 1, name: "initial_schema", sql: "" },
        Migration { version: 2, name: "songs", sql: "" },
    ];
    let pending = pending_migrations(&all, &[1]);
    assert_eq!(pending.len(), 1);
    assert_eq!(pending[0].version, 2);
    assert_eq!(pending_migrations(&all, &[1, 2]).len(), 0);
}

use selah::commands::settings::settings_at_startup;
use selah::models::settings::RecognizerKind;

#[test]
fn startup_repairs_and_points_speech_at_a_model_folder() {
    let (fresh, persist) = settings_at_startup(None, 8, false, "/app/models");
    assert!(!persist);
    assert_eq!(fresh.speech.threads, 8);
    assert_eq!(fresh.speech.model_path, None);

    let mut stored = AppSettings::defaults(4);
    stored.speech.recognizer = RecognizerKind::Moonshine;
    stored.speech.model_path = Some("/old/ggml.bin".to_string());
    stored.presentation.background = "red".to_string();
    let (fixed, persist) = settings_at_startup(Some(stored.clone()), 8, false, "/app/models");
    assert!(persist);
    assert_eq!(fixed.speech.model_path.as_deref(), Some("/app/models"));
    assert_eq!(fixed.presentation.background, "#000000");
    assert_eq!(fixed.speech.threads, 4);

    stored.presentation.background = "#101010".to_string();
    stored.speech.model_path = Some("/models/moonshine".to_string());
    let (kept, persist) = settings_at_startup(Some(stored), 8, true, "/app/models");
    assert!(!persist);
    assert_eq!(kept.speech.model_path.as_deref(), Some("/models/moonshine"));
}

#[test]
fn a_screen_index_must_exist_to_be_chosen() {
    assert!(check_display_index(&vec![0, 1, 2], 1).is_ok());
    match check_display_index(&vec![0, 1], 7) {
        Err(selah::error::AppError::DisplayNotFound(m)) => assert_eq!(m, "no display with index 7"),
        other => panic!("unexpected {other:?}"),
    }
}

#[test]
fn the_window_opens_on_the_target_or_the_first_screen() {
    assert_eq!(opening_display(&vec![3, 5, 9], Some(9)).unwrap(), 2);
    assert_eq!(opening_display(&vec![3, 5, 9], None).unwrap(), 0);
    assert_eq!(opening_display(&vec![3, 5, 9], Some(4)).unwrap(), 0);
    match opening_display(&Vec::new(), Some(0)) {
        Err(selah::error::AppError::DisplayNotFound(m)) => assert_eq!(m, "no displays available"),
        other => panic!("unexpected {other:?}"),
    }
}

#[test]
fn the_open_window_is_on_the_target_or_screen_zero() {
    assert_eq!(current_display(&vec![1, 0], None).unwrap(), 1);
    assert_eq!(current_display(&vec![1, 0], Some(1)).unwrap(), 0);
    assert!(current_display(&vec![1, 2], None).is_err());
}

#[test]
fn applied_migrations_are_never_applied_again() {
    let all = [
        Migration { version: 1, name: "initial_schema", sql: "" },
        Migration { version: 2, name: "songs", sql: "" },
        Migration { version: 3, name: "media", sql: "" },
    ];
    let applied = vec![2i64];
    let first = pending_migrations(&all, &applied);
    let mut recorded = applied.clone();
    recorded.extend(first.iter().map(|m| m.version));
    assert_eq!(recorded, vec![2, 1, 3]);
    assert!(pending_migrations(&all, &recorded).is_empty());
}
