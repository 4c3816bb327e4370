use selah::commands::media::{
    apply_playback_action, apply_playback_report, media_caption, media_title, playback_command,
    playback_snapshot, PlaybackReport, PlaybackRequest,
};
use selah::events::{MediaPlaybackState, PlaybackAction};
use selah::media::library::{
    files_to_register, is_hidden, kind_for_extension, kind_for_path, DirectoryEntry, MAX_SCAN_FILES,
};
use selah::media::order::{listing_order, order_entries};
use selah::models::presentation::{ContentPayload, ContentType, PresentationItem};

#[test]
fn knows_which_files_it_can_present() {
    assert_eq!(kind_for_path("/tmp/slide.PNG"), Some("image"));
    assert_eq!(kind_for_path("/tmp/clip.mp4"), Some("video"));
    assert_eq!(kind_for_path("/tmp/hymn.wav"), Some("audio"));
    assert_eq!(kind_for_path("/tmp/notes.txt"), None);
    assert_eq!(kind_for_path("/tmp/no-extension"), None);
}

#[test]
fn extensions_are_matched_without_case() {
    assert_eq!(kind_for_extension("JPEG"), Some("image"));
    assert_eq!(kind_for_extension("WebM"), Some("video"));
    assert_eq!(kind_for_extension("m4a"), Some("audio"));
    assert_eq!(kind_for_extension(""), None);
}

#[test]
fn playback_actions_parse_without_case() {
    assert_eq!(PlaybackAction::parse(" PLAY "), Some(PlaybackAction::Play));
    assert_eq!(PlaybackAction::parse("pause"), Some(PlaybackAction::Pause));
    assert_eq!(PlaybackAction::parse("Restart"), Some(PlaybackAction::Restart));
    assert_eq!(PlaybackAction::parse("stop"), Some(PlaybackAction::Stop));
    assert_eq!(PlaybackAction::parse("rewind"), None);
}

fn video(id: &str) -> PresentationItem {
    PresentationItem {
        id: id.to_string(),
        content_type: ContentType::Video,
        title: "clip".to_string(),
        payload: ContentPayload::Media {
            path: "/tmp/clip.mp4".to_string(),
            media_kind: Some("video".to_string()),
            heading: None,
        },
    }
}

#[test]
fn playback_commands_need_a_known_action_and_something_on_screen() {
    let on = Some("v1".to_string());
    let ok = playback_command(&PlaybackRequest { action: "play".to_string() }, &on).unwrap();
    assert_eq!(ok, PlaybackAction::Play);
    let err = playback_command(&PlaybackRequest { action: "dance".to_string() }, &on).unwrap_err();
    assert_eq!(
        err.message(),
        "invalid configuration: dance is not something a player can do (try play, pause, restart or stop)"
    );
    let err = playback_command(&PlaybackRequest { action: "play".to_string() }, &None).unwrap_err();
    assert_eq!(err.kind(), "presentationError");
}

#[test]
fn a_stale_report_cannot_change_what_is_shown() {
    let mut playback = MediaPlaybackState::for_item(Some("v1".to_string()));
    let report = PlaybackReport {
        playing: true,
        position_ms: 500,
        duration_ms: 9000,
        ended: false,
    };
    // The screen now shows something else: the report is ignored.
    apply_playback_report(&mut playback, &Some(video("v2")), &report);
    assert_eq!(playback, MediaPlaybackState::for_item(Some("v1".to_string())));
    // About the item on screen it is believed.
    apply_playback_report(&mut playback, &Some(video("v1")), &report);
    assert!(playback.playing);
    assert_eq!(playback.position_ms, 500);
    let snap = playback_snapshot(&Some(video("v1")), &playback);
    assert!(snap.playing);
    assert_eq!(snap.duration_ms, 9000);
    assert_eq!(snap.media_kind.as_deref(), Some("video"));
    let other = playback_snapshot(&Some(video("v2")), &playback);
    assert!(!other.playing);
    assert_eq!(other.position_ms, 0);
    assert_eq!(other.item_id.as_deref(), Some("v2"));
}

#[test]
fn the_operator_sees_the_action_at_once() {
    let mut playback = MediaPlaybackState::for_item(Some("v1".to_string()));
    playback.position_ms = 1200;
    playback.ended = true;
    apply_playback_action(&mut playback, &Some("v1".to_string()), PlaybackAction::Restart);
    assert!(playback.playing);
    assert_eq!(playback.position_ms, 0);
    assert!(!playback.ended);
    apply_playback_action(&mut playback, &Some("v2".to_string()), PlaybackAction::Pause);
    assert!(playback.playing);
    assert!(playback.describes("v1"));
    assert!(!playback.describes("v2"));
}

#[test]
fn media_is_titled_by_caption_then_file_name() {
    assert_eq!(media_title(&Some("  Baptism ".to_string()), Some("b.jpg".to_string())), "Baptism");
    assert_eq!(media_title(&Some("  ".to_string()), Some("b.jpg".to_string())), "b.jpg");
    assert_eq!(media_title(&None, None), "Media");
    assert_eq!(media_caption(&Some(" x ".to_string())).as_deref(), Some("x"));
    assert_eq!(media_caption(&Some("   ".to_string())), None);
}

fn entry(name: &str, is_dir: bool) -> DirectoryEntry {
    DirectoryEntry {
        name: name.to_string(),
        path: format!("/media/{name}"),
        is_dir,
        media_kind: if is_dir { None } else { kind_for_path(name).map(str::to_string) },
    }
}

#[test]
fn listing_puts_folders_first_then_names_without_case() {
    let rows = vec![
        entry("slide.jpg", false),
        entry("Zebra", true),
        entry("anthem.mp3", false),
        entry("archive", true),
        entry("Banner.png", false),
    ];
    let ordered = order_entries(rows);
    let names: Vec<&str> = ordered.iter().map(|e| e.name.as_str()).collect();
    assert_eq!(names, vec!["archive", "Zebra", "anthem.mp3", "Banner.png", "slide.jpg"]);
    assert!(ordered[0].is_dir && ordered[1].is_dir);
    assert_eq!(ordered[3].media_kind.as_deref(), Some("image"));
}

#[test]
fn listing_order_names_every_row_once() {
    let keys = vec![
        (false, "b".to_string()),
        (true, "z".to_string()),
        (false, "A".to_string()),
    ];
    assert_eq!(listing_order(&keys), vec![1, 2, 0]);
    assert_eq!(listing_order(&Vec::new()), Vec::<usize>::new());
}

#[test]
fn hidden_entries_start_with_a_dot() {
    assert!(is_hidden(".git"));
    assert!(is_hidden(".hidden.jpg"));
    assert!(!is_hidden("slide.jpg"));
    assert!(!is_hidden(""));
}

#[test]
fn a_scan_registers_new_files_once() {
    let found = vec![
        "/m/a.png".to_string(),
        "/m/b.png".to_string(),
        "/m/a.png".to_string(),
        "/m/c.mp4".to_string(),
    ];
    let known = vec!["/m/b.png".to_string()];
    assert_eq!(files_to_register(&found, &known), vec!["/m/a.png".to_string(), "/m/c.mp4".to_string()]);
    assert!(files_to_register(&found, &found).is_empty());
}

#[test]
fn a_scan_registers_at_most_the_cap() {
    let found: Vec<String> = (0..MAX_SCAN_FILES + 5).map(|i| format!("/m/{i}.png")).collect();
    let added = files_to_register(&found, &Vec::new());
    assert_eq!(added.len(), MAX_SCAN_FILES);
    assert_eq!(added[0], "/m/0.png");
}

#[test]
fn an_ordered_listing_is_left_as_it_is() {
    let rows = vec![entry("docs", true), entry("a.png", false), entry("b.png", false)];
    assert_eq!(order_entries(rows.clone()), rows);
}

#[test]
fn rows_that_rank_alike_keep_their_order() {
    let keys = vec![(false, "A.jpg".to_string()), (true, "z".to_string()), (false, "a.jpg".to_string())];
    assert_eq!(listing_order(&keys), vec![1, 0, 2]);
    let keys = vec![(false, "a.jpg".to_string()), (false, "A.jpg".to_string())];
    assert_eq!(listing_order(&keys), vec![0, 1]);
}

#[test]
fn a_second_scan_registers_nothing_new() {
    let found = vec!["/m/a.png".to_string(), "/m/b.mp4".to_string(), "/m/c.mp3".to_string()];
    let known = vec!["/m/b.mp4".to_string()];
    let first = files_to_register(&found, &known);
    assert_eq!(first.len(), 2);
    let mut now_known = known.clone();
    now_known.extend(first);
    assert!(files_to_register(&found, &now_known).is_empty());
}

#[test]
fn a_plain_path_is_read_alike_on_every_platform() {
    assert_eq!(kind_for_path("C:\\media\\a.JPG"), Some("image"));
    assert_eq!(kind_for_path("songs/hymn.mp3"), Some("audio"));
    assert_eq!(kind_for_path("/media/.hidden"), None);
    assert_eq!(kind_for_path("archive.tar.gz"), None);
}

#[test]
fn a_folder_lists_visible_entries_folders_first_with_their_kinds() {
    let read = vec![
        selah::media::order::FolderEntry { name: "song.MP3".into(), path: "/m/song.MP3".into(), is_dir: false },
        selah::media::order::FolderEntry { name: ".cache".into(), path: "/m/.cache".into(), is_dir: true },
        selah::media::order::FolderEntry { name: "Zebra".into(), path: "/m/Zebra".into(), is_dir: true },
        selah::media::order::FolderEntry { name: "notes.txt".into(), path: "/m/notes.txt".into(), is_dir: false },
        selah::media::order::FolderEntry { name: "alpha.png".into(), path: "/m/alpha.png".into(), is_dir: false },
        selah::media::order::FolderEntry { name: "photos.jpg".into(), path: "/m/photos.jpg".into(), is_dir: true },
    ];
    let rows = selah::media::order::browse_entries(read);
    let names: Vec<&str> = rows.iter().map(|r| r.name.as_str()).collect();
    assert_eq!(names, vec!["photos.jpg", "Zebra", "alpha.png", "notes.txt", "song.MP3"]);
    let kinds: Vec<Option<&str>> = rows.iter().map(|r| r.media_kind.as_deref()).collect();
    assert_eq!(kinds, vec![None, None, Some("image"), None, Some("audio")]);
}
