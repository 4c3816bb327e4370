//! Generation limits and model file names for the Moonshine model.

use vstd::prelude::*;

verus! {

/// Upper bound on generated tokens for one segment.
pub const MAX_NEW_TOKENS: usize = 448;

/// The token budget for `audio_len` samples of 16 kHz audio: six tokens per
/// second of audio, rounded up (`⌈audio_len · 6 / 16000⌉ = ⌈3 · audio_len /
/// 8000⌉`), plus eight tokens of headroom, never more than
/// [`MAX_NEW_TOKENS`].
pub open spec fn spec_max_new_tokens(audio_len: nat) -> nat {
    let expected = (3 * audio_len + 7999) / 8000;
    if expected + 8 > 448 {
        448
    } else {
        expected + 8
    }
}

/// How many tokens to allow for `audio_len` samples of 16 kHz audio.
///
/// Moonshine occasionally emits a few extra tokens; the budget pads a little
/// rather than truncating a sentence, while still bounding runaway
/// generation.
pub fn max_new_tokens(audio_len: usize) -> (r: usize)
    ensures
        r == spec_max_new_tokens(audio_len as nat),
        8 <= r <= MAX_NEW_TOKENS,
{
    if audio_len >= 1_200_000 {
        assert((3 * audio_len + 7999) / 8000 + 8 > 448) by (nonlinear_arith)
            requires
                audio_len >= 1_200_000,
        ;
        return MAX_NEW_TOKENS;
    }
    let expected: usize = (3 * audio_len + 7999) / 8000;
    if expected + 8 > MAX_NEW_TOKENS {
        MAX_NEW_TOKENS
    } else {
        expected + 8
    }
}

/// The endings a model file may carry before `.onnx`, in the order they are
/// tried: quantized exports first, the full-precision file last.
pub open spec fn model_suffixes() -> Seq<Seq<char>> {
    seq!["_quantized"@, ".quantized"@, "_int8"@, ".int8"@, ""@]
}

/// The file names tried, in order, for the model called `base` (such as
/// `encoder_model`): `base`, one of [`model_suffixes`], then `.onnx`.
pub fn model_file_names(base: &str) -> (r: Vec<String>)
    ensures
        r@.len() == 5,
        forall|i: int| 0 <= i < 5 ==> (#[trigger] r@[i])@ == base@ + model_suffixes()[i] + ".onnx"@,
{
    let suffixes: [&str; 5] = ["_quantized", ".quantized", "_int8", ".int8", ""];
    let mut r: Vec<String> = Vec::new();
    let mut i: usize = 0;
    while i < 5
        invariant
            i <= 5,
            suffixes@.len() == 5,
            forall|k: int| 0 <= k < 5 ==> (#[trigger] suffixes@[k])@ == model_suffixes()[k],
            r@.len() == i,
            forall|k: int| 0 <= k < i ==> (#[trigger] r@[k])@ == base@ + model_suffixes()[k] + ".onnx"@,
        decreases 5 - i,
    {
        let mut name = crate::text::to_chars(base);
        crate::text::append_str(&mut name, suffixes[i]);
        crate::text::append_str(&mut name, ".onnx");
        r.push(crate::text::from_chars(&name));
        i = i + 1;
    }
    r
}

} // verus!
