use std::collections::HashMap;

use selah::speech::manager::SpeechManagerState;
use selah::speech::mock::MockSpeechRecognizer;
use selah::speech::moonshine::engine::{max_new_tokens, MAX_NEW_TOKENS};
use selah::speech::moonshine::tokenizer::{parse_byte_piece, MoonshineTokenizer};
use selah::speech::transcript::TranscriptSource;

fn tokenizer(vocab: &[(u32, &str)], specials: &[u32]) -> MoonshineTokenizer {
    MoonshineTokenizer::new(
        vocab
            .iter()
            .map(|(id, token)| (*id, (*token).to_string()))
            .collect::<HashMap<u32, String>>(),
        specials.to_vec(),
    )
}

#[test]
fn decodes_word_boundaries_as_spaces() {
    let t = tokenizer(&[(10, "\u{2581}the"), (11, "\u{2581}lord")], &[1, 2]);
    assert_eq!(t.decode(&[10, 11]), "the lord");
}

#[test]
fn drops_special_tokens() {
    let t = tokenizer(&[(1, "<s>"), (10, "hello"), (2, "</s>")], &[1, 2]);
    assert_eq!(t.decode(&[1, 10, 2]), "hello");
}

#[test]
fn reassembles_byte_fallback_pieces() {
    let t = tokenizer(&[(10, "\u{2581}caf"), (11, "<0xC3>"), (12, "<0xA9>")], &[]);
    assert_eq!(t.decode(&[10, 11, 12]), "café");
}

#[test]
fn ignores_unknown_ids() {
    let t = tokenizer(&[(10, "ok")], &[]);
    assert_eq!(t.decode(&[9999, 10]), "ok");
}

#[test]
fn parses_byte_pieces() {
    assert_eq!(parse_byte_piece("<0x41>"), Some(0x41));
    assert_eq!(parse_byte_piece("<0xff>"), Some(0xff));
    assert_eq!(parse_byte_piece("\u{2581}word"), None);
    assert_eq!(parse_byte_piece("<0xZZ>"), None);
}

#[test]
fn byte_pieces_outside_a_byte_are_not_bytes() {
    assert_eq!(parse_byte_piece("<0x100>"), None);
    assert_eq!(parse_byte_piece("<0x>"), None);
    assert_eq!(parse_byte_piece("<0x+7>"), Some(7));
    assert_eq!(parse_byte_piece("<0x0a"), None);
}

#[test]
fn broken_utf8_is_replaced_not_lost() {
    let t = tokenizer(&[(10, "\u{2581}ok"), (11, "<0xFF>")], &[]);
    assert_eq!(t.decode(&[10, 11]), "ok\u{FFFD}");
    assert_eq!(t.len(), 2);
    assert!(!t.is_empty());
    assert!(tokenizer(&[], &[]).is_empty());
}

#[test]
fn token_budget_scales_with_audio_length() {
    assert_eq!(max_new_tokens(16_000), 14);
    assert_eq!(max_new_tokens(1_600), 9);
    assert_eq!(max_new_tokens(16_000 * 600), MAX_NEW_TOKENS);
}

#[test]
fn token_budget_at_the_edges() {
    assert_eq!(max_new_tokens(0), 8);
    assert_eq!(max_new_tokens(1), 9);
    assert_eq!(max_new_tokens(8_000), 11);
    assert_eq!(max_new_tokens(8_001), 12);
    assert_eq!(max_new_tokens(usize::MAX), MAX_NEW_TOKENS);
}

#[test]
fn a_fresh_speech_state_listens_to_nothing() {
    let s = SpeechManagerState::default();
    assert!(!s.listening);
    assert_eq!(s.recognizer_id, "mock");
    assert!(s.vad_enabled);
    assert_eq!(s.segments_seen, 0);
    assert_eq!(s.last_error, None);
    let mock = MockSpeechRecognizer;
    assert_eq!(mock.id(), "mock");
    assert!(mock.is_loaded());
    assert_ne!(TranscriptSource::Mock, TranscriptSource::Whisper);
}

use selah::models::settings::SpeechSettings;
use selah::speech::manager::model_to_load;
use selah::speech::segmenter::{segment_event, FrameStep, Segmenter};
use selah::speech::vad::{speech_segments, VadParams};

#[test]
fn speech_is_cut_at_pauses() {
    // 20 ms frames of 320 samples at 16 kHz; a pause of 400 ms ends a segment.
    let mut s = Segmenter::new();
    assert_eq!(s.step(false, 320, 20, 400, 16_000), FrameStep::Ignore);
    assert_eq!(s.step(true, 320, 20, 400, 16_000), FrameStep::Begin);
    assert_eq!(s.start_ms, 20);
    for _ in 0..24 {
        assert_eq!(s.step(true, 320, 20, 400, 16_000), FrameStep::Extend);
    }
    for _ in 0..19 {
        assert_eq!(s.step(false, 320, 20, 400, 16_000), FrameStep::Hold);
    }
    assert_eq!(
        s.step(false, 320, 20, 400, 16_000),
        FrameStep::Finish { start_ms: 20, samples: 25 * 320 }
    );
    assert!(!s.open);
    assert_eq!(s.elapsed_ms, 20 * 46);
    assert_eq!(s.flush(), None);
}

#[test]
fn a_long_monologue_is_cut_at_the_cap() {
    let mut s = Segmenter::new();
    s.step(true, 16_000 * 30, 20, 400, 16_000);
    // One silent frame is enough once the segment holds 30 s.
    assert_eq!(
        s.step(false, 320, 20, 400, 16_000),
        FrameStep::Finish { start_ms: 0, samples: 16_000 * 30 }
    );
    let mut open = Segmenter::new();
    open.step(true, 320, 20, 400, 16_000);
    assert_eq!(open.flush(), Some((0, 320)));
}

#[test]
fn short_noises_are_not_reported() {
    assert!(segment_event(0, 1_600, 16_000, 250).is_none());
    let e = segment_event(1_000, 8_000, 16_000, 250).expect("half a second");
    assert_eq!(e.duration_ms, 500);
    assert_eq!(e.end_ms, 1_500);
    assert_eq!(segment_event(u64::MAX, 16_000, 16_000, 0).unwrap().end_ms, u64::MAX);
}

#[test]
fn the_pipeline_counts_what_it_saw() {
    let mut s = SpeechManagerState::default();
    s.note_started();
    s.note_segment();
    s.note_error("model missing".to_string());
    assert_eq!(s.last_error.as_deref(), Some("model missing"));
    s.note_transcript();
    assert!(s.listening);
    assert_eq!(s.segments_seen, 1);
    assert_eq!(s.transcripts_generated, 1);
    assert_eq!(s.last_error, None);
    s.note_stopped();
    assert!(!s.listening);
}

#[test]
fn only_a_configured_model_is_loaded() {
    let mut settings = SpeechSettings::defaults(2);
    assert_eq!(model_to_load(&settings), None);
    settings.model_path = Some(String::new());
    assert_eq!(model_to_load(&settings), None);
    settings.model_path = Some("/models/moonshine".to_string());
    assert_eq!(model_to_load(&settings).as_deref(), Some("/models/moonshine"));
}

// The default detector: 20 ms frames at 16 kHz, 250 ms of speech at least,
// a 400 ms pause ends a stretch.
fn default_params() -> VadParams {
    VadParams { frame_size: 320, frame_ms: 20, min_speech_ms: 250, min_silence_ms: 400 }
}

/// Frames of `ms` milliseconds of tone (`true`) or silence at 16 kHz.
fn frames(parts: &[(bool, u64)]) -> (Vec<bool>, usize) {
    let mut samples: Vec<f32> = Vec::new();
    for &(tone, ms) in parts {
        let n = (16_000 * ms / 1000) as usize;
        samples.extend(std::iter::repeat(if tone { 0.5f32 } else { 0.0 }).take(n));
    }
    let flags = samples.chunks(320).map(|f| f.iter().any(|s| *s > 0.0)).collect();
    (flags, samples.len())
}

#[test]
fn finds_isolated_speech() {
    let (flags, len) = frames(&[(false, 500), (true, 800), (false, 800)]);
    let segs = speech_segments(&flags, len, 16_000, &default_params());
    assert_eq!(segs.len(), 1);
    assert!(segs[0].end_ms - segs[0].start_ms >= 700);
    assert_eq!(segs[0].start_ms, 500);
    assert_eq!(segs[0].end_ms, 1300);
    assert_eq!(segs[0].start_sample, 8_000);
    assert_eq!(segs[0].end_sample, 20_800);
}

#[test]
fn ignores_brief_noise() {
    let (flags, len) = frames(&[(false, 200), (true, 50), (false, 500)]);
    let segs = speech_segments(&flags, len, 16_000, &default_params());
    assert!(segs.is_empty());
}

#[test]
fn splits_on_long_silence() {
    let (flags, len) = frames(&[(true, 500), (false, 600), (true, 500)]);
    let segs = speech_segments(&flags, len, 16_000, &default_params());
    assert_eq!(segs.len(), 2);
    assert_eq!(segs[1].end_sample, len);
}

#[test]
fn a_short_pause_does_not_split_speech() {
    let (flags, len) = frames(&[(true, 300), (false, 200), (true, 300)]);
    let segs = speech_segments(&flags, len, 16_000, &default_params());
    assert_eq!(segs.len(), 1);
    assert_eq!((segs[0].start_ms, segs[0].end_ms), (0, 800));
}

#[test]
fn a_final_short_frame_ends_the_last_stretch() {
    // 330 samples: one full frame and a 10-sample tail, both speech.
    let segs = speech_segments(
        &vec![true, true],
        330,
        16_000,
        &VadParams { frame_size: 320, frame_ms: 20, min_speech_ms: 0, min_silence_ms: 400 },
    );
    assert_eq!(segs.len(), 1);
    assert_eq!(segs[0].end_sample, 330);
    assert_eq!(segs[0].end_ms, 20);
}

fn tokenizer_error(raw: &str) -> String {
    match selah::speech::moonshine::tokenizer::tokenizer_from_json(raw.as_bytes()) {
        Err(selah::error::AppError::InvalidConfiguration(m)) => m,
        Err(other) => panic!("unexpected {other:?}"),
        Ok(_) => panic!("accepted"),
    }
}

#[test]
fn a_tokenizer_is_read_from_its_json() {
    let raw = r#"{"model":{"vocab":{"<s>":1,"\u2581the":5,"\u2581lord":6,"odd":"x"}},
                 "added_tokens":[{"id":1,"special":true},{"id":5,"special":false},{"id":7}]}"#;
    let t = selah::speech::moonshine::tokenizer::tokenizer_from_json(raw.as_bytes()).expect("reads");
    assert_eq!(t.len(), 3);
    assert_eq!(t.decode(&[1, 5, 6]), "the lord");
}

#[test]
fn a_broken_tokenizer_json_is_refused_with_its_reason() {
    assert!(tokenizer_error("not json").starts_with("invalid tokenizer.json: "));
    assert_eq!(tokenizer_error(r#"{"added_tokens":[]}"#), "tokenizer.json is missing model.vocab");
    assert_eq!(tokenizer_error(r#"{"model":{"vocab":{}}}"#), "tokenizer.json contains no vocabulary");
    assert_eq!(tokenizer_error(r#"{"model":{"vocab":{"a":"one"}}}"#), "tokenizer.json contains no vocabulary");
}

#[test]
fn a_parsed_tokenizer_keeps_the_last_piece_for_an_id() {
    let entries = vec![
        ("\u{2581}old".to_string(), Some(5u64)),
        ("\u{2581}grace".to_string(), Some(5u64)),
        ("\u{2581}wrapped".to_string(), Some((1u64 << 32) + 6)),
        ("ignored".to_string(), None),
    ];
    let added = vec![(Some(6u64), Some(true)), (Some(5u64), Some(false))];
    let t = selah::speech::moonshine::tokenizer::tokenizer_from_parsed(Ok((Some(entries), Some(added)))).expect("builds");
    assert_eq!(t.len(), 2);
    assert_eq!(t.decode(&[5, 6]), "grace");
    match selah::speech::moonshine::tokenizer::tokenizer_from_parsed(Err("eof".to_string())) {
        Err(selah::error::AppError::InvalidConfiguration(m)) => assert_eq!(m, "invalid tokenizer.json: eof"),
        _ => panic!("expected an error"),
    }
}

#[test]
fn model_files_are_tried_quantized_first() {
    assert_eq!(
        selah::speech::moonshine::engine::model_file_names("encoder_model"),
        vec![
            "encoder_model_quantized.onnx",
            "encoder_model.quantized.onnx",
            "encoder_model_int8.onnx",
            "encoder_model.int8.onnx",
            "encoder_model.onnx",
        ]
    );
}
