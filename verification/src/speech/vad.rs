//! Cutting recorded audio into stretches of speech, given which of its
//! frames are speech. Whether a frame is speech is decided outside the
//! library, from the frame's loudness.

use vstd::prelude::*;

verus! {

/// How a recording is read: frame length in samples and in ms, the
/// shortest stretch kept, and the pause that ends a stretch.
#[derive(Debug, Clone, Copy)]
pub struct VadParams {
    pub frame_size: usize,
    pub frame_ms: u32,
    pub min_speech_ms: u64,
    pub min_silence_ms: u64,
}

/// A stretch of speech: the samples `start_sample..end_sample` of the
/// recording, and where it starts and ends in ms.
#[derive(Debug, Clone, Copy, PartialEq, Eq, Structural)]
pub struct SegmentBounds {
    pub start_sample: usize,
    pub end_sample: usize,
    pub start_ms: u64,
    pub end_ms: u64,
}

/// A stretch as numbers.
pub open spec fn bounds_view(b: SegmentBounds) -> (int, int, int, int) {
    (b.start_sample as int, b.end_sample as int, b.start_ms as int, b.end_ms as int)
}

/// Where frame `i` starts when `len` samples are cut into frames of `fs`
/// (the last frame may be shorter).
pub open spec fn chunk_start(i: nat, fs: int, len: int) -> int
    decreases i,
{
    if i == 0 {
        0
    } else {
        let p = chunk_start((i - 1) as nat, fs, len);
        if len - p < fs {
            len
        } else {
            p + fs
        }
    }
}

/// The scan so far: the stretch being collected (its first sample), where
/// its speech last ended, the pause since then, and the stretches found.
pub struct ScanView {
    pub open: Option<int>,
    pub last_end: int,
    pub silence_ms: int,
    pub found: Seq<(int, int, int, int)>,
}

/// Closes a stretch from `start` to `end`: it is kept when it lasts at
/// least `min_speech` ms.
pub open spec fn emit(
    found: Seq<(int, int, int, int)>,
    start: int,
    end: int,
    rate: int,
    min_speech: int,
) -> Seq<(int, int, int, int)> {
    let sm = start * 1000 / rate;
    let em = end * 1000 / rate;
    if (if em >= sm {
        em - sm
    } else {
        0
    }) >= min_speech {
        found.push((start, end, sm, em))
    } else {
        found
    }
}

/// One frame, `start..end`: speech opens or extends the stretch; a quiet
/// frame lengthens the pause, and a long enough pause closes the stretch.
pub open spec fn scan_step(
    s: ScanView,
    is_speech: bool,
    start: int,
    end: int,
    p: VadParams,
    rate: int,
) -> ScanView {
    if is_speech {
        ScanView {
            open: Some(
                match s.open {
                    Some(x) => x,
                    None => start,
                },
            ),
            last_end: end,
            silence_ms: 0,
            found: s.found,
        }
    } else {
        match s.open {
            None => s,
            Some(st) => {
                let sil = s.silence_ms + p.frame_ms;
                if sil >= p.min_silence_ms {
                    ScanView {
                        open: None,
                        last_end: s.last_end,
                        silence_ms: 0,
                        found: emit(s.found, st, s.last_end, rate, p.min_speech_ms as int),
                    }
                } else {
                    ScanView { silence_ms: sil, ..s }
                }
            },
        }
    }
}

/// The scan after the first `i` frames.
pub open spec fn scan(speech: Seq<bool>, i: nat, len: int, rate: int, p: VadParams) -> ScanView
    decreases i,
{
    if i == 0 {
        ScanView { open: None, last_end: 0, silence_ms: 0, found: seq![] }
    } else {
        scan_step(
            scan(speech, (i - 1) as nat, len, rate, p),
            speech[i - 1],
            chunk_start((i - 1) as nat, p.frame_size as int, len),
            chunk_start(i, p.frame_size as int, len),
            p,
            rate,
        )
    }
}

/// The stretches of speech in a recording of `len` samples whose frames
/// are speech as `speech` says: a stretch still open at the end is closed
/// there.
pub open spec fn spec_speech_segments(speech: Seq<bool>, len: int, rate: int, p: VadParams) -> Seq<
    (int, int, int, int),
> {
    let s = scan(speech, speech.len(), len, rate, p);
    match s.open {
        Some(st) => emit(s.found, st, s.last_end, rate, p.min_speech_ms as int),
        None => s.found,
    }
}

proof fn lemma_chunk_start_bounded(i: nat, fs: int, len: int)
    requires
        fs > 0,
        len >= 0,
    ensures
        0 <= chunk_start(i, fs, len) <= len,
    decreases i,
{
    if i > 0 {
        lemma_chunk_start_bounded((i - 1) as nat, fs, len);
    }
}

proof fn lemma_scan_bounded(speech: Seq<bool>, i: nat, len: int, rate: int, p: VadParams)
    requires
        i <= speech.len(),
        p.frame_size > 0,
        len >= 0,
    ensures
        scan(speech, i, len, rate, p).last_end <= len,
        0 <= scan(speech, i, len, rate, p).last_end,
        scan(speech, i, len, rate, p).open matches Some(x) ==> 0 <= x <= len,
        0 <= scan(speech, i, len, rate, p).silence_ms <= i * p.frame_ms,
    decreases i,
{
    if i > 0 {
        lemma_scan_bounded(speech, (i - 1) as nat, len, rate, p);
        lemma_chunk_start_bounded((i - 1) as nat, p.frame_size as int, len);
        lemma_chunk_start_bounded(i, p.frame_size as int, len);
        assert((i - 1) * p.frame_ms + p.frame_ms == i * p.frame_ms) by (nonlinear_arith);
    }
}

/// A stretch that lies in a recording of `len` samples and lasts at least
/// `min_speech` ms.
pub open spec fn sound_stretch(b: (int, int, int, int), len: int, min_speech: int) -> bool {
    &&& 0 <= b.0 <= b.1 <= len
    &&& (if b.3 >= b.2 {
        b.3 - b.2
    } else {
        0
    }) >= min_speech
}

proof fn lemma_emit_sound(
    found: Seq<(int, int, int, int)>,
    start: int,
    end: int,
    rate: int,
    min_speech: int,
    len: int,
)
    requires
        0 <= start <= end <= len,
        forall|k: int| 0 <= k < found.len() ==> sound_stretch(#[trigger] found[k], len, min_speech),
    ensures
        forall|k: int|
            0 <= k < emit(found, start, end, rate, min_speech).len() ==> sound_stretch(
                #[trigger] emit(found, start, end, rate, min_speech)[k],
                len,
                min_speech,
            ),
{
}

proof fn lemma_scan_sound(speech: Seq<bool>, i: nat, len: int, rate: int, p: VadParams)
    requires
        i <= speech.len(),
        p.frame_size > 0,
        len >= 0,
    ensures
        ({
            let s = scan(speech, i, len, rate, p);
            &&& 0 <= s.last_end <= chunk_start(i, p.frame_size as int, len)
            &&& s.open matches Some(x) ==> 0 <= x <= s.last_end
            &&& forall|k: int|
                0 <= k < s.found.len() ==> sound_stretch(#[trigger] s.found[k], len, p.min_speech_ms as int)
        }),
    decreases i,
{
    if i > 0 {
        let j = (i - 1) as nat;
        lemma_scan_sound(speech, j, len, rate, p);
        lemma_chunk_start_bounded(j, p.frame_size as int, len);
        lemma_chunk_start_bounded(i, p.frame_size as int, len);
        let s = scan(speech, j, len, rate, p);
        assert(chunk_start(j, p.frame_size as int, len) <= chunk_start(i, p.frame_size as int, len));
        match s.open {
            Some(st) => {
                lemma_emit_sound(s.found, st, s.last_end, rate, p.min_speech_ms as int, len);
            },
            None => {},
        }
    }
}

/// Every stretch found lies inside the recording, ends no earlier than it
/// starts, and lasts at least `min_speech_ms`: brief noise is never
/// reported as speech.
pub proof fn lemma_segments_sound(speech: Seq<bool>, len: int, rate: int, p: VadParams)
    requires
        p.frame_size > 0,
        len >= 0,
    ensures
        forall|k: int|
            0 <= k < spec_speech_segments(speech, len, rate, p).len() ==> sound_stretch(
                #[trigger] spec_speech_segments(speech, len, rate, p)[k],
                len,
                p.min_speech_ms as int,
            ),
{
    lemma_scan_sound(speech, speech.len(), len, rate, p);
    lemma_chunk_start_bounded(speech.len(), p.frame_size as int, len);
    let s = scan(speech, speech.len(), len, rate, p);
    match s.open {
        Some(st) => {
            lemma_emit_sound(s.found, st, s.last_end, rate, p.min_speech_ms as int, len);
        },
        None => {},
    }
}

/// How many frames at the end of `flags` are quiet: the frames since the
/// last speech frame (all of them when there was none).
pub open spec fn trailing_quiet(flags: Seq<bool>) -> nat
    decreases flags.len(),
{
    if flags.len() == 0 || flags.last() {
        0
    } else {
        trailing_quiet(flags.drop_last()) + 1
    }
}

/// While a stretch is open, the pause the scan has counted is exactly the
/// quiet frames since the last speech frame: a speech frame always starts
/// the count again, so separate short pauses never add up.
pub proof fn lemma_pause_counts_from_last_speech(speech: Seq<bool>, i: nat, len: int, rate: int, p: VadParams)
    requires
        i <= speech.len(),
    ensures
        scan(speech, i, len, rate, p).open is Some ==> scan(speech, i, len, rate, p).silence_ms
            == p.frame_ms * trailing_quiet(speech.take(i as int)),
    decreases i,
{
    if i > 0 {
        let j = (i - 1) as nat;
        lemma_pause_counts_from_last_speech(speech, j, len, rate, p);
        let t = speech.take(i as int);
        assert(t.drop_last() =~= speech.take(j as int));
        assert(t.last() == speech[j as int]);
        let q = trailing_quiet(speech.take(j as int));
        assert(p.frame_ms * q + p.frame_ms == p.frame_ms * (q + 1)) by (nonlinear_arith);
        let prev = scan(speech, j, len, rate, p);
        assert(scan(speech, i, len, rate, p) == scan_step(
            prev,
            speech[j as int],
            chunk_start(j, p.frame_size as int, len),
            chunk_start(i, p.frame_size as int, len),
            p,
            rate,
        ));
        if speech[j as int] {
            assert(trailing_quiet(t) == 0);
        } else {
            assert(trailing_quiet(t) == q + 1);
        }
    } else {
        assert(speech.take(0) =~= Seq::<bool>::empty());
    }
}

/// A stretch is only ever closed by a quiet frame that completes a run of
/// quiet frames, since the last speech frame, lasting `min_silence_ms` at
/// least.
pub proof fn lemma_stretch_closes_only_after_long_pause(
    speech: Seq<bool>,
    i: nat,
    len: int,
    rate: int,
    p: VadParams,
)
    requires
        0 < i <= speech.len(),
        scan(speech, (i - 1) as nat, len, rate, p).open is Some,
        scan(speech, i, len, rate, p).open is None,
    ensures
        !speech[i - 1],
        p.frame_ms * trailing_quiet(speech.take(i as int)) >= p.min_silence_ms,
{
    let j = (i - 1) as nat;
    lemma_pause_counts_from_last_speech(speech, j, len, rate, p);
    let t = speech.take(i as int);
    assert(t.drop_last() =~= speech.take(j as int));
    assert(t.last() == speech[j as int]);
    let q = trailing_quiet(speech.take(j as int));
    assert(p.frame_ms * q + p.frame_ms == p.frame_ms * (q + 1)) by (nonlinear_arith);
}

/// An open stretch closes at a frame exactly when that frame is quiet and
/// completes a pause, counted from the last speech frame, of at least
/// `min_silence_ms`; a speech frame always leaves a stretch open.
pub proof fn lemma_stretch_closes_exactly_at_long_pause(
    speech: Seq<bool>,
    i: nat,
    len: int,
    rate: int,
    p: VadParams,
)
    requires
        0 < i <= speech.len(),
        scan(speech, (i - 1) as nat, len, rate, p).open is Some,
    ensures
        scan(speech, i, len, rate, p).open is None <==> (!speech[i - 1] && p.frame_ms
            * trailing_quiet(speech.take(i as int)) >= p.min_silence_ms),
{
    let j = (i - 1) as nat;
    lemma_pause_counts_from_last_speech(speech, j, len, rate, p);
    let t = speech.take(i as int);
    assert(t.drop_last() =~= speech.take(j as int));
    assert(t.last() == speech[j as int]);
    let q = trailing_quiet(speech.take(j as int));
    assert(p.frame_ms * q + p.frame_ms == p.frame_ms * (q + 1)) by (nonlinear_arith);
    if !speech[j as int] {
        assert(trailing_quiet(t) == q + 1);
    }
}

/// Keeps a stretch `start..end` when it lasts long enough.
fn close_stretch(found: &mut Vec<SegmentBounds>, start: usize, end: usize, rate: u32, min_speech_ms: u64)
    requires
        rate > 0,
        start as int * 1000 <= u64::MAX,
        end as int * 1000 <= u64::MAX,
    ensures
        final(found)@.map_values(|b: SegmentBounds| bounds_view(b)) == emit(
            old(found)@.map_values(|b: SegmentBounds| bounds_view(b)),
            start as int,
            end as int,
            rate as int,
            min_speech_ms as int,
        ),
{
    let sm: u64 = (start as u64) * 1000 / (rate as u64);
    let em: u64 = (end as u64) * 1000 / (rate as u64);
    let ghost before = found@;
    if em.saturating_sub(sm) >= min_speech_ms {
        found.push(SegmentBounds { start_sample: start, end_sample: end, start_ms: sm, end_ms: em });
        assert(found@.map_values(|b: SegmentBounds| bounds_view(b)) =~= before.map_values(
            |b: SegmentBounds| bounds_view(b),
        ).push((start as int, end as int, sm as int, em as int)));
    }
}

/// The stretches of speech in a recording of `audio_len` samples at
/// `sample_rate`, cut into frames of `params.frame_size` samples of which
/// `speech` tells which are speech: a stretch starts at its first speech
/// frame, ends where its last speech frame ends, closes after a pause of
/// `min_silence_ms` (or at the end of the recording), and is kept when it
/// lasts `min_speech_ms` at least.
pub fn speech_segments(speech: &Vec<bool>, audio_len: usize, sample_rate: u32, params: &VadParams) -> (r: Vec<
    SegmentBounds,
>)
    requires
        sample_rate > 0,
        params.frame_size > 0,
        audio_len as int * 1000 <= u64::MAX,
        speech@.len() * params.frame_ms <= u64::MAX,
    ensures
        r@.map_values(|b: SegmentBounds| bounds_view(b)) == spec_speech_segments(
            speech@,
            audio_len as int,
            sample_rate as int,
            *params,
        ),
{
    let ghost p = *params;
    let ghost len = audio_len as int;
    let ghost rate = sample_rate as int;
    let fs = params.frame_size;
    let mut found: Vec<SegmentBounds> = Vec::new();
    let mut open: Option<usize> = None;
    let mut last_end: usize = 0;
    let mut silence_ms: u64 = 0;
    let mut pos: usize = 0;
    let mut i: usize = 0;
    while i < speech.len()
        invariant
            p == *params,
            len == audio_len,
            rate == sample_rate,
            fs == params.frame_size,
            sample_rate > 0,
            fs > 0,
            audio_len as int * 1000 <= u64::MAX,
            speech@.len() * params.frame_ms <= u64::MAX,
            i <= speech@.len(),
            pos == chunk_start(i as nat, fs as int, len),
            ({
                let s = scan(speech@, i as nat, len, rate, p);
                &&& s.open == (match open {
                    Some(x) => Some(x as int),
                    None => None,
                })
                &&& s.last_end == last_end
                &&& s.silence_ms == silence_ms
                &&& s.found == found@.map_values(|b: SegmentBounds| bounds_view(b))
            }),
        decreases speech.len() - i,
    {
        proof {
            lemma_scan_bounded(speech@, i as nat, len, rate, p);
            lemma_chunk_start_bounded(i as nat, fs as int, len);
            assert((i + 1) * params.frame_ms <= speech@.len() * params.frame_ms) by (nonlinear_arith)
                requires
                    i + 1 <= speech@.len(),
            ;
            assert(i * params.frame_ms + params.frame_ms == (i + 1) * params.frame_ms) by (nonlinear_arith);
        }
        let next: usize = if audio_len - pos < fs {
            audio_len
        } else {
            pos + fs
        };
        if speech[i] {
            if open.is_none() {
                open = Some(pos);
            }
            last_end = next;
            silence_ms = 0;
        } else {
            match open {
                None => {},
                Some(st) => {
                    let sil: u64 = silence_ms + params.frame_ms as u64;
                    if sil >= params.min_silence_ms {
                        close_stretch(&mut found, st, last_end, sample_rate, params.min_speech_ms);
                        open = None;
                        silence_ms = 0;
                    } else {
                        silence_ms = sil;
                    }
                },
            }
        }
        pos = next;
        i = i + 1;
    }
    proof {
        lemma_scan_bounded(speech@, speech@.len(), len, rate, p);
    }
    match open {
        Some(st) => {
            close_stretch(&mut found, st, last_end, sample_rate, params.min_speech_ms);
        },
        None => {},
    }
    found
}

} // verus!
