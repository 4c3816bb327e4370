//! Cutting live audio into speech segments.
//!
//! The live worker reads audio in frames; the voice activity detector says
//! of each frame whether it is speech. This module makes every decision that
//! follows from those answers: when a segment begins, when it grows, when a
//! pause (or the length cap) ends it, and whether a finished segment is long
//! enough to transcribe. The samples themselves stay with the caller.

use vstd::prelude::*;

use crate::events::VadSegmentEvent;

use super::manager::SpeechManagerState;
use super::vad::trailing_quiet;

verus! {

/// Hard cap for a single speech segment (30 s).
pub const MAX_SEGMENT_MS: u64 = 30_000;

/// The segment being collected, if any, and the time read so far.
#[derive(Debug, Clone, Copy, PartialEq, Eq, Structural)]
pub struct Segmenter {
    /// Whether a segment is being collected.
    pub open: bool,
    /// Where the open segment began, in ms from the start of listening.
    pub start_ms: u64,
    /// Samples in the open segment (speech frames only).
    pub samples: u64,
    /// Silence since the last speech frame of the open segment, in ms.
    pub silence_ms: u64,
    /// Time read so far, in ms.
    pub elapsed_ms: u64,
}

/// What the caller does with a frame.
#[derive(Debug, Clone, Copy, PartialEq, Eq, Structural)]
pub enum FrameStep {
    /// Silence with no segment open: nothing to keep.
    Ignore,
    /// Speech starts a segment: keep this frame as its first samples.
    Begin,
    /// Speech continues the segment: append this frame.
    Extend,
    /// A pause inside the segment, not yet long enough to end it.
    Hold,
    /// The segment is over (a long enough pause, or the length cap): its
    /// samples are complete and ready to finish.
    Finish { start_ms: u64, samples: u64 },
}

/// `a + b`, saturating at `u64::MAX`.
pub open spec fn sat_add(a: int, b: int) -> int {
    if a + b > u64::MAX {
        u64::MAX as int
    } else {
        a + b
    }
}

/// Milliseconds of audio in `samples` samples at `rate` samples a second,
/// saturating at `u64::MAX`.
pub open spec fn duration_of(samples: int, rate: int) -> int {
    if samples * 1000 / rate > u64::MAX {
        u64::MAX as int
    } else {
        samples * 1000 / rate
    }
}

/// The state after one frame of `frame_len` samples lasting `frame_ms`, and
/// what to do with the frame.
pub open spec fn spec_step(
    s: Segmenter,
    is_speech: bool,
    frame_len: u64,
    frame_ms: u64,
    min_silence_ms: u64,
    sample_rate: u32,
) -> (Segmenter, FrameStep) {
    let elapsed = sat_add(s.elapsed_ms as int, frame_ms as int) as u64;
    if !s.open && is_speech {
        (
            Segmenter { open: true, start_ms: s.elapsed_ms, samples: frame_len, silence_ms: 0, elapsed_ms: elapsed },
            FrameStep::Begin,
        )
    } else if s.open && is_speech {
        (
            Segmenter {
                samples: sat_add(s.samples as int, frame_len as int) as u64,
                silence_ms: 0,
                elapsed_ms: elapsed,
                ..s
            },
            FrameStep::Extend,
        )
    } else if s.open {
        let silence = sat_add(s.silence_ms as int, frame_ms as int);
        if silence >= min_silence_ms || duration_of(s.samples as int, sample_rate as int)
            >= MAX_SEGMENT_MS {
            (
                Segmenter { open: false, start_ms: 0, samples: 0, silence_ms: 0, elapsed_ms: elapsed },
                FrameStep::Finish { start_ms: s.start_ms, samples: s.samples },
            )
        } else {
            (Segmenter { silence_ms: silence as u64, elapsed_ms: elapsed, ..s }, FrameStep::Hold)
        }
    } else {
        (Segmenter { elapsed_ms: elapsed, ..s }, FrameStep::Ignore)
    }
}

/// A consistent segmenter: an open segment began no later than the time
/// read so far; a closed one holds nothing.
pub open spec fn segmenter_wf(s: Segmenter) -> bool {
    &&& s.open ==> s.start_ms <= s.elapsed_ms
    &&& !s.open ==> s.samples == 0 && s.silence_ms == 0
}

/// Time only moves forward, every step keeps the segmenter consistent, and a
/// finished segment began no later than the moment it was finished.
pub proof fn lemma_step_keeps_time(
    s: Segmenter,
    is_speech: bool,
    frame_len: u64,
    frame_ms: u64,
    min_silence_ms: u64,
    sample_rate: u32,
)
    requires
        segmenter_wf(s),
    ensures
        ({
            let (t, step) = spec_step(s, is_speech, frame_len, frame_ms, min_silence_ms, sample_rate);
            &&& segmenter_wf(t)
            &&& s.elapsed_ms <= t.elapsed_ms
            &&& step matches FrameStep::Finish { start_ms, .. } ==> start_ms <= t.elapsed_ms
            &&& (step is Begin || step is Extend || step is Hold) <==> t.open
        }),
{
}

/// The segmenter after taking in frames that are speech as `flags` says,
/// one after another, from `s`.
pub open spec fn run_frames(
    s: Segmenter,
    flags: Seq<bool>,
    frame_len: u64,
    frame_ms: u64,
    min_silence_ms: u64,
    sample_rate: u32,
) -> Segmenter
    decreases flags.len(),
{
    if flags.len() == 0 {
        s
    } else {
        spec_step(
            run_frames(s, flags.drop_last(), frame_len, frame_ms, min_silence_ms, sample_rate),
            flags.last(),
            frame_len,
            frame_ms,
            min_silence_ms,
            sample_rate,
        ).0
    }
}

/// A speech frame always ends the pause: whatever came before, the segment
/// is open afterwards with no silence counted.
pub proof fn lemma_speech_resets_pause(
    s: Segmenter,
    frame_len: u64,
    frame_ms: u64,
    min_silence_ms: u64,
    sample_rate: u32,
)
    ensures
        spec_step(s, true, frame_len, frame_ms, min_silence_ms, sample_rate).0.open,
        spec_step(s, true, frame_len, frame_ms, min_silence_ms, sample_rate).0.silence_ms == 0,
{
}

/// From a segmenter with no segment open, the pause counted while a segment
/// is open is exactly the quiet frames since its last speech frame: separate
/// short pauses never add up.
pub proof fn lemma_pause_since_last_speech(
    s: Segmenter,
    flags: Seq<bool>,
    frame_len: u64,
    frame_ms: u64,
    min_silence_ms: u64,
    sample_rate: u32,
)
    requires
        !s.open,
        frame_ms * flags.len() <= u64::MAX,
    ensures
        run_frames(s, flags, frame_len, frame_ms, min_silence_ms, sample_rate).open ==> run_frames(
            s,
            flags,
            frame_len,
            frame_ms,
            min_silence_ms,
            sample_rate,
        ).silence_ms == frame_ms * trailing_quiet(flags),
    decreases flags.len(),
{
    if flags.len() > 0 {
        let front = flags.drop_last();
        assert(frame_ms * front.len() <= frame_ms * flags.len()) by (nonlinear_arith)
            requires
                front.len() <= flags.len(),
        ;
        lemma_pause_since_last_speech(s, front, frame_len, frame_ms, min_silence_ms, sample_rate);
        let q = trailing_quiet(front);
        lemma_trailing_quiet_bounded(front);
        assert(frame_ms * q + frame_ms == frame_ms * (q + 1)) by (nonlinear_arith);
        assert(frame_ms * (q + 1) <= frame_ms * flags.len()) by (nonlinear_arith)
            requires
                q + 1 <= flags.len(),
        ;
        let prev = run_frames(s, front, frame_len, frame_ms, min_silence_ms, sample_rate);
        let next = spec_step(prev, flags.last(), frame_len, frame_ms, min_silence_ms, sample_rate).0;
        assert(run_frames(s, flags, frame_len, frame_ms, min_silence_ms, sample_rate) == next);
        if flags.last() {
            assert(trailing_quiet(flags) == 0);
            assert(frame_ms * trailing_quiet(flags) == 0) by (nonlinear_arith)
                requires
                    trailing_quiet(flags) == 0,
            ;
        } else {
            assert(trailing_quiet(flags) == q + 1);
            assert(frame_ms * trailing_quiet(flags) == frame_ms * (q + 1));
            if prev.open {
                assert(prev.silence_ms + frame_ms <= u64::MAX);
                if next.open {
                    assert(next.silence_ms == prev.silence_ms + frame_ms);
                }
            }
        }
    }
}

proof fn lemma_trailing_quiet_bounded(flags: Seq<bool>)
    ensures
        trailing_quiet(flags) <= flags.len(),
    decreases flags.len(),
{
    if flags.len() > 0 {
        lemma_trailing_quiet_bounded(flags.drop_last());
    }
}

/// An open segment is finished on a quiet frame only when the quiet frames
/// since its last speech frame add up to `min_silence_ms`, or when it has
/// reached the length cap; a shorter pause holds it open.
pub proof fn lemma_segment_ends_only_after_pause(
    s: Segmenter,
    flags: Seq<bool>,
    frame_len: u64,
    frame_ms: u64,
    min_silence_ms: u64,
    sample_rate: u32,
)
    requires
        !s.open,
        flags.len() > 0,
        !flags.last(),
        frame_ms * flags.len() <= u64::MAX,
    ensures
        ({
            let before = run_frames(s, flags.drop_last(), frame_len, frame_ms, min_silence_ms, sample_rate);
            let r = spec_step(before, false, frame_len, frame_ms, min_silence_ms, sample_rate).1;
            before.open ==> (r is Finish <==> (frame_ms * trailing_quiet(flags) >= min_silence_ms
                || duration_of(before.samples as int, sample_rate as int) >= MAX_SEGMENT_MS))
        }),
{
    let front = flags.drop_last();
    assert(frame_ms * front.len() <= frame_ms * flags.len()) by (nonlinear_arith)
        requires
            front.len() <= flags.len(),
    ;
    lemma_pause_since_last_speech(s, front, frame_len, frame_ms, min_silence_ms, sample_rate);
    let q = trailing_quiet(front);
    lemma_trailing_quiet_bounded(front);
    assert(frame_ms * q + frame_ms == frame_ms * (q + 1)) by (nonlinear_arith);
    assert(frame_ms * (q + 1) <= frame_ms * flags.len()) by (nonlinear_arith)
        requires
            q + 1 <= flags.len(),
    ;
    assert(trailing_quiet(flags) == q + 1);
}

/// Milliseconds of audio in `samples` samples at `rate` samples a second.
pub fn duration_ms(samples: u64, rate: u32) -> (d: u64)
    requires
        rate > 0,
    ensures
        d == duration_of(samples as int, rate as int),
{
    let wide: u128 = (samples as u128) * 1000 / (rate as u128);
    if wide > u64::MAX as u128 {
        u64::MAX
    } else {
        wide as u64
    }
}

impl Segmenter {
    /// Nothing read yet and no segment open.
    pub fn new() -> (s: Self)
        ensures
            segmenter_wf(s),
            !s.open,
            s.samples == 0,
            s.silence_ms == 0,
            s.elapsed_ms == 0,
    {
        Segmenter { open: false, start_ms: 0, samples: 0, silence_ms: 0, elapsed_ms: 0 }
    }

    /// Takes in one frame and says what to do with it.
    pub fn step(
        &mut self,
        is_speech: bool,
        frame_len: u64,
        frame_ms: u64,
        min_silence_ms: u64,
        sample_rate: u32,
    ) -> (r: FrameStep)
        requires
            sample_rate > 0,
        ensures
            (*final(self), r) == spec_step(
                *old(self),
                is_speech,
                frame_len,
                frame_ms,
                min_silence_ms,
                sample_rate,
            ),
    {
        let elapsed = self.elapsed_ms.saturating_add(frame_ms);
        if !self.open && is_speech {
            self.open = true;
            self.start_ms = self.elapsed_ms;
            self.samples = frame_len;
            self.silence_ms = 0;
            self.elapsed_ms = elapsed;
            FrameStep::Begin
        } else if self.open && is_speech {
            self.samples = self.samples.saturating_add(frame_len);
            self.silence_ms = 0;
            self.elapsed_ms = elapsed;
            FrameStep::Extend
        } else if self.open {
            let silence = self.silence_ms.saturating_add(frame_ms);
            if silence >= min_silence_ms || duration_ms(self.samples, sample_rate) >= MAX_SEGMENT_MS {
                let done = FrameStep::Finish { start_ms: self.start_ms, samples: self.samples };
                self.open = false;
                self.start_ms = 0;
                self.samples = 0;
                self.silence_ms = 0;
                self.elapsed_ms = elapsed;
                done
            } else {
                self.silence_ms = silence;
                self.elapsed_ms = elapsed;
                FrameStep::Hold
            }
        } else {
            self.elapsed_ms = elapsed;
            FrameStep::Ignore
        }
    }

    /// The segment still open when listening stops, to be finished.
    pub fn flush(&self) -> (r: Option<(u64, u64)>)
        ensures
            self.open ==> r == Some((self.start_ms, self.samples)),
            !self.open ==> r is None,
    {
        if self.open {
            Some((self.start_ms, self.samples))
        } else {
            None
        }
    }
}

/// What a finished segment is reported as: nothing when it is shorter than
/// `min_speech_ms` (noise), else where it starts and ends.
pub fn segment_event(start_ms: u64, samples: u64, sample_rate: u32, min_speech_ms: u64) -> (r: Option<
    VadSegmentEvent,
>)
    requires
        sample_rate > 0,
    ensures
        duration_of(samples as int, sample_rate as int) < min_speech_ms ==> r is None,
        duration_of(samples as int, sample_rate as int) >= min_speech_ms ==> (r matches Some(e)
            && e.start_ms == start_ms && e.duration_ms == duration_of(
            samples as int,
            sample_rate as int,
        ) && e.end_ms == sat_add(start_ms as int, e.duration_ms as int)),
{
    let duration = duration_ms(samples, sample_rate);
    if duration < min_speech_ms {
        return None;
    }
    Some(
        VadSegmentEvent {
            start_ms,
            end_ms: start_ms.saturating_add(duration),
            duration_ms: duration,
        },
    )
}

impl SpeechManagerState {
    /// Counts a segment that was long enough to transcribe.
    pub fn note_segment(&mut self)
        requires
            old(self).segments_seen < u64::MAX,
        ensures
            *final(self) == (SpeechManagerState {
                segments_seen: (old(self).segments_seen + 1) as u64,
                ..*old(self)
            }),
    {
        self.segments_seen = self.segments_seen + 1;
    }

    /// Counts a transcript and clears the last error.
    pub fn note_transcript(&mut self)
        requires
            old(self).transcripts_generated < u64::MAX,
        ensures
            *final(self) == (SpeechManagerState {
                transcripts_generated: (old(self).transcripts_generated + 1) as u64,
                last_error: None,
                ..*old(self)
            }),
    {
        self.transcripts_generated = self.transcripts_generated + 1;
        self.last_error = None;
    }

    /// Records why the pipeline failed.
    pub fn note_error(&mut self, message: String)
        ensures
            *final(self) == (SpeechManagerState { last_error: Some(message), ..*old(self) }),
    {
        self.last_error = Some(message);
    }

    /// Marks the pipeline as listening, with no error.
    pub fn note_started(&mut self)
        ensures
            *final(self) == (SpeechManagerState { listening: true, last_error: None, ..*old(self) }),
    {
        self.listening = true;
        self.last_error = None;
    }

    /// Marks the pipeline as stopped.
    pub fn note_stopped(&mut self)
        ensures
            *final(self) == (SpeechManagerState { listening: false, ..*old(self) }),
    {
        self.listening = false;
    }
}

} // verus!
