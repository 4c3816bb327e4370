//! Moonshine tokenizer: turns generated token ids back into readable text.
//!
//! Moonshine ships a SentencePiece-style vocabulary. The decoder chain it
//! describes is:
//!
//!   1. the word-boundary marker `▁` becomes a space;
//!   2. `<0xNN>` pieces stand for a single byte (byte fallback);
//!   3. the pieces are joined and the leading space is dropped.

use std::collections::HashMap;

use vstd::prelude::*;
use vstd::utf8::{decode_utf8, encode_utf8, valid_utf8};

use crate::error::{config_error, fails_with_config, AppError};
use crate::text::{from_chars, has_prefix, has_suffix, slice_chars, starts_with, ends_with, to_chars};

verus! {

broadcast use vstd::std_specs::hash::group_hash_axioms;

/// The SentencePiece word-boundary marker used by Moonshine.
pub const WORD_BOUNDARY: char = '\u{2581}';

/// Decodes Moonshine token ids back into text.
pub struct MoonshineTokenizer {
    /// token id -> sub-word piece
    vocab: HashMap<u32, String>,
    /// Ids that must never reach the output: `<s>`, `</s>`, `<<ST_n>>`, ...
    special_ids: Vec<u32>,
}

/// What `String::from_utf8_lossy` makes of a byte sequence.
pub uninterp spec fn utf8_lossy(bytes: Seq<u8>) -> Seq<char>;

/// Calls `String::from_utf8_lossy`: valid UTF-8 decodes to exactly its
/// characters; any other input is named [`utf8_lossy`] (invalid sequences
/// become U+FFFD).
#[verifier::external_body]
fn from_utf8_lossy(bytes: &[u8]) -> (s: String)
    ensures
        s@ == utf8_lossy(bytes@),
        valid_utf8(bytes@) ==> s@ == decode_utf8(bytes@),
{
    String::from_utf8_lossy(bytes).into_owned()
}

/// The value of an ASCII hexadecimal digit.
pub open spec fn hex_value(c: char) -> int {
    if '0' <= c && c <= '9' {
        c as int - '0' as int
    } else if 'a' <= c && c <= 'f' {
        c as int - 'a' as int + 10
    } else {
        c as int - 'A' as int + 10
    }
}

/// Whether `c` is an ASCII hexadecimal digit.
pub open spec fn is_hex(c: char) -> bool {
    ('0' <= c && c <= '9') || ('a' <= c && c <= 'f') || ('A' <= c && c <= 'F')
}

/// The value of a run of hexadecimal digits.
pub open spec fn hex_digits_value(s: Seq<char>) -> int
    decreases s.len(),
{
    if s.len() == 0 {
        0
    } else {
        hex_digits_value(s.drop_last()) * 16 + hex_value(s.last())
    }
}

/// `s` without its optional leading `+`.
pub open spec fn unsigned_digits(s: Seq<char>) -> Seq<char> {
    if s.len() > 0 && s[0] == '+' {
        s.drop_first()
    } else {
        s
    }
}

/// Every character of `s` is a hexadecimal digit.
pub open spec fn all_hex(s: Seq<char>) -> bool {
    forall|i: int| 0 <= i < s.len() ==> is_hex(#[trigger] s[i])
}

/// `u8::from_str_radix(s, 16)`: an optional `+`, then at least one
/// hexadecimal digit, with a value below 256.
pub open spec fn spec_parse_hex_u8(s: Seq<char>) -> Option<u8> {
    let digits = unsigned_digits(s);
    if digits.len() > 0 && all_hex(digits) && hex_digits_value(digits) < 256 {
        Some(hex_digits_value(digits) as u8)
    } else {
        None
    }
}

/// The byte a `<0xNN>` byte-fallback piece stands for.
pub open spec fn spec_byte_piece(piece: Seq<char>) -> Option<u8> {
    if piece.len() >= 4 && starts_with(piece, "<0x"@) && ends_with(piece, ">"@) {
        spec_parse_hex_u8(piece.subrange(3, piece.len() - 1))
    } else {
        None
    }
}

proof fn lemma_hex_prefix_bound(s: Seq<char>, n: int)
    requires
        0 <= n <= s.len(),
        all_hex(s),
    ensures
        0 <= hex_digits_value(s.take(n)) <= hex_digits_value(s),
    decreases s.len() - n,
{
    if n < s.len() {
        lemma_hex_prefix_bound(s, n + 1);
        assert(s.take(n + 1).drop_last() =~= s.take(n));
        lemma_hex_nonneg(s.take(n));
    } else {
        assert(s.take(n) =~= s);
        lemma_hex_nonneg(s);
    }
}

proof fn lemma_hex_nonneg(s: Seq<char>)
    requires
        all_hex(s),
    ensures
        hex_digits_value(s) >= 0,
    decreases s.len(),
{
    if s.len() > 0 {
        lemma_hex_nonneg(s.drop_last());
    }
}

/// `u8::from_str_radix(s, 16)`.
fn parse_hex_u8(s: &Vec<char>) -> (r: Option<u8>)
    ensures
        r == spec_parse_hex_u8(s@),
{
    let start: usize = if s.len() > 0 && s[0] == '+' {
        1
    } else {
        0
    };
    let ghost digits = unsigned_digits(s@);
    assert(digits =~= s@.skip(start as int));
    if start >= s.len() {
        return None;
    }
    let mut value: u32 = 0;
    let mut i: usize = start;
    while i < s.len()
        invariant
            start <= i <= s.len(),
            start < s@.len(),
            digits == s@.skip(start as int),
            digits == unsigned_digits(s@),
            forall|k: int| 0 <= k < i - start ==> is_hex(#[trigger] digits[k]),
            value == hex_digits_value(digits.take(i - start)),
            value < 256,
        decreases s.len() - i,
    {
        let c = s[i];
        assert(digits[i - start] == c);
        let d: u32 = if '0' <= c && c <= '9' {
            (c as u32) - ('0' as u32)
        } else if 'a' <= c && c <= 'f' {
            (c as u32) - ('a' as u32) + 10
        } else if 'A' <= c && c <= 'F' {
            (c as u32) - ('A' as u32) + 10
        } else {
            proof {
                assert(!is_hex(digits[i - start]));
                assert(!all_hex(digits));
            }
            return None;
        };
        assert(d == hex_value(c) && is_hex(c));
        let next: u32 = value * 16 + d;
        proof {
            assert(digits.take(i - start + 1).drop_last() =~= digits.take(i - start));
            assert(digits.take(i - start + 1).last() == c);
            assert(hex_digits_value(digits.take(i - start + 1)) == next);
        }
        if next >= 256 {
            proof {
                if all_hex(digits) {
                    lemma_hex_prefix_bound(digits, i - start + 1);
                }
            }
            return None;
        }
        value = next;
        i = i + 1;
    }
    assert(digits.take(digits.len() as int) =~= digits);
    Some(value as u8)
}

/// Parses a `<0xNN>` byte-fallback piece into the byte it represents.
pub fn parse_byte_piece(piece: &str) -> (r: Option<u8>)
    ensures
        r == spec_byte_piece(piece@),
{
    let chars = to_chars(piece);
    let open = to_chars("<0x");
    let close = to_chars(">");
    if chars.len() >= 4 && has_prefix(&chars, &open) && has_suffix(&chars, &close) {
        let inner = slice_chars(&chars, 3, chars.len() - 1);
        parse_hex_u8(&inner)
    } else {
        proof {
            reveal_strlit("<0x");
            reveal_strlit(">");
            if chars@.len() < 4 && starts_with(chars@, "<0x"@) && ends_with(chars@, ">"@) {
                assert(chars@.len() >= 3);
            }
        }
        None
    }
}

/// A piece with its word-boundary markers turned into spaces.
pub open spec fn spaced(piece: Seq<char>) -> Seq<char> {
    piece.map_values(|c: char| if c == '\u{2581}' { ' ' } else { c })
}

/// The bytes one vocabulary piece contributes.
pub open spec fn piece_bytes(piece: Seq<char>) -> Seq<u8> {
    match spec_byte_piece(piece) {
        Some(b) => seq![b],
        None => encode_utf8(spaced(piece)),
    }
}

/// The bytes a run of token ids decodes to: special and unknown ids are
/// skipped (an id is read as its low 32 bits).
pub open spec fn decoded_bytes(vocab: Map<u32, String>, specials: Seq<u32>, ids: Seq<i64>) -> Seq<u8>
    decreases ids.len(),
{
    if ids.len() == 0 {
        seq![]
    } else {
        let rest = decoded_bytes(vocab, specials, ids.drop_last());
        let id = ids.last() as u32;
        if specials.contains(id) || !vocab.contains_key(id) {
            rest
        } else {
            rest + piece_bytes(vocab[id]@)
        }
    }
}

/// `text` without a leading space.
pub open spec fn without_leading_space(text: Seq<char>) -> Seq<char> {
    if text.len() > 0 && text[0] == ' ' {
        text.drop_first()
    } else {
        text
    }
}

/// The text token ids decode to: the decoded bytes read as UTF-8 (lossily),
/// without the leading space of the first word boundary.
pub open spec fn spec_decode(vocab: Map<u32, String>, specials: Seq<u32>, ids: Seq<i64>) -> Seq<char> {
    let text = utf8_lossy(decoded_bytes(vocab, specials, ids));
    if text.len() > 0 && text[0] == ' ' {
        text.drop_first()
    } else {
        text
    }
}

fn contains_u32(s: &Vec<u32>, x: u32) -> (b: bool)
    ensures
        b == s@.contains(x),
{
    let mut i: usize = 0;
    while i < s.len()
        invariant
            i <= s.len(),
            forall|k: int| 0 <= k < i ==> s@[k] != x,
        decreases s.len() - i,
    {
        if s[i] == x {
            assert(s@[i as int] == x);
            return true;
        }
        i = i + 1;
    }
    false
}

/// What `tokenizer.json` holds, as read by `serde_json`: the entries of
/// `model.vocab` (token, and id when it is an unsigned integer), absent when
/// there is no `model.vocab` object; and the `added_tokens` (id when it is
/// an unsigned integer, `special` when it is a boolean), absent when there
/// is no such array. `Err` carries `serde_json`'s message for bytes that
/// are not JSON.
pub type TokenizerJson = (Option<Vec<(String, Option<u64>)>>, Option<Vec<(Option<u64>, Option<bool>)>>);

/// The vocabulary entries as text and ids.
pub open spec fn entries_view(v: Seq<(String, Option<u64>)>) -> Seq<(Seq<char>, Option<u64>)> {
    v.map_values(|e: (String, Option<u64>)| (e.0@, e.1))
}

/// A parsed `tokenizer.json` as values.
pub open spec fn json_view(r: Result<TokenizerJson, String>) -> Result<
    (Option<Seq<(Seq<char>, Option<u64>)>>, Option<Seq<(Option<u64>, Option<bool>)>>),
    Seq<char>,
> {
    match r {
        Err(m) => Err(m@),
        Ok((vocab, added)) => Ok(
            (
                match vocab {
                    Some(v) => Some(entries_view(v@)),
                    None => None,
                },
                match added {
                    Some(a) => Some(a@),
                    None => None,
                },
            ),
        ),
    }
}

/// What `serde_json` reads from the bytes of a `tokenizer.json`.
pub uninterp spec fn parsed_tokenizer_json(raw: Seq<u8>) -> Result<
    (Option<Seq<(Seq<char>, Option<u64>)>>, Option<Seq<(Option<u64>, Option<bool>)>>),
    Seq<char>,
>;

/// Parses `raw` with `serde_json::from_slice` into a `serde_json::Value`
/// and reads out `model.vocab` and `added_tokens` as plain values; the
/// result is named [`parsed_tokenizer_json`].
#[verifier::external_body]
fn tokenizer_json(raw: &[u8]) -> (r: Result<TokenizerJson, String>)
    ensures
        json_view(r) == parsed_tokenizer_json(raw@),
{
    let json: serde_json::Value = serde_json::from_slice(raw).map_err(|e| e.to_string())?;
    let vocab = json.get("model").and_then(|m| m.get("vocab")).and_then(|v| v.as_object()).map(
        |o| o.iter().map(|(t, id)| (t.clone(), id.as_u64())).collect(),
    );
    let added = json.get("added_tokens").and_then(|a| a.as_array()).map(
        |a| a.iter().map(|t| (t.get("id").and_then(|i| i.as_u64()), t.get("special").and_then(|b| b.as_bool()))).collect(),
    );
    Ok((vocab, added))
}

/// The vocabulary the entries give: each entry with an id maps the id's low
/// 32 bits to its token, a later entry replacing an earlier one.
pub open spec fn vocab_of(entries: Seq<(Seq<char>, Option<u64>)>) -> Map<u32, Seq<char>>
    decreases entries.len(),
{
    if entries.len() == 0 {
        Map::empty()
    } else {
        let m = vocab_of(entries.drop_last());
        match entries.last().1 {
            Some(id) => m.insert(id as u32, entries.last().0),
            None => m,
        }
    }
}

/// The special ids among the added tokens: those with an id and flagged
/// `special: true`, in order, as their low 32 bits.
pub open spec fn specials_of(added: Seq<(Option<u64>, Option<bool>)>) -> Seq<u32>
    decreases added.len(),
{
    if added.len() == 0 {
        seq![]
    } else {
        let s = specials_of(added.drop_last());
        match added.last() {
            (Some(id), Some(true)) => s.push(id as u32),
            _ => s,
        }
    }
}

/// The tokenizer a parsed `tokenizer.json` describes, or why it cannot be
/// used.
pub open spec fn parsed_outcome(
    parsed: Result<
        (Option<Seq<(Seq<char>, Option<u64>)>>, Option<Seq<(Option<u64>, Option<bool>)>>),
        Seq<char>,
    >,
    r: Result<MoonshineTokenizer, AppError>,
) -> bool {
    match parsed {
        Err(m) => r matches Err(AppError::InvalidConfiguration(s)) && s@ == "invalid tokenizer.json: "@
            + m,
        Ok((None, _)) => fails_with_config(r, "tokenizer.json is missing model.vocab"@),
        Ok((Some(entries), added)) => if vocab_of(entries) == Map::<u32, Seq<char>>::empty() {
            fails_with_config(r, "tokenizer.json contains no vocabulary"@)
        } else {
            r matches Ok(t) && t.vocab().map_values(|s: String| s@) == vocab_of(entries)
                && t.special_ids() == match added {
                Some(a) => specials_of(a),
                None => seq![],
            }
        },
    }
}

/// The tokenizer a `tokenizer.json` describes, or why it cannot be read.
pub open spec fn tokenizer_outcome(raw: Seq<u8>, r: Result<MoonshineTokenizer, AppError>) -> bool {
    parsed_outcome(parsed_tokenizer_json(raw), r)
}

/// Builds a tokenizer from the bytes of a `tokenizer.json`: its vocabulary
/// from `model.vocab`, its special ids from the `added_tokens` flagged
/// special. Bytes that are not JSON, a file without `model.vocab`, and an
/// empty vocabulary are refused, each with its own message.
pub fn tokenizer_from_json(raw: &[u8]) -> (r: Result<MoonshineTokenizer, AppError>)
    ensures
        tokenizer_outcome(raw@, r),
{
    tokenizer_from_parsed(tokenizer_json(raw))
}

/// Builds a tokenizer from a parsed `tokenizer.json`: the vocabulary entries
/// of `model.vocab` and the `added_tokens`, or the parser's message.
pub fn tokenizer_from_parsed(parsed: Result<TokenizerJson, String>) -> (r: Result<MoonshineTokenizer, AppError>)
    ensures
        parsed_outcome(json_view(parsed), r),
{
    let (entries, added) = match parsed {
        Err(m) => {
            let mut v = to_chars("invalid tokenizer.json: ");
            crate::text::append_str(&mut v, m.as_str());
            return Err(AppError::InvalidConfiguration(from_chars(&v)));
        },
        Ok(parsed) => parsed,
    };
    let entries = match entries {
        None => {
            return Err(config_error("tokenizer.json is missing model.vocab"));
        },
        Some(e) => e,
    };
    let ghost ev = entries_view(entries@);
    let mut vocab: HashMap<u32, String> = HashMap::new();
    let mut i: usize = 0;
    while i < entries.len()
        invariant
            i <= entries@.len(),
            ev == entries_view(entries@),
            vocab@.map_values(|s: String| s@) == vocab_of(ev.take(i as int)),
        decreases entries.len() - i,
    {
        let ghost before = vocab@;
        proof {
            assert(ev.take(i + 1).drop_last() =~= ev.take(i as int));
            assert(ev.take(i + 1).last() == (entries@[i as int].0@, entries@[i as int].1));
        }
        match entries[i].1 {
            Some(id) => {
                let key: u32 = id as u32;
                vocab.insert(key, entries[i].0.clone());
                proof {
                    assert(vocab@.map_values(|s: String| s@) =~= before.map_values(|s: String| s@).insert(
                        key,
                        entries@[i as int].0@,
                    ));
                }
            },
            None => {},
        }
        i = i + 1;
    }
    proof {
        assert(ev.take(entries@.len() as int) =~= ev);
    }
    if vocab.is_empty() {
        proof {
            assert(vocab@.map_values(|s: String| s@) =~= Map::<u32, Seq<char>>::empty());
        }
        return Err(config_error("tokenizer.json contains no vocabulary"));
    }
    proof {
        if vocab_of(ev) == Map::<u32, Seq<char>>::empty() {
            assert(!vocab@.dom().is_empty());
            let k = vocab@.dom().choose();
            assert(vocab@.map_values(|s: String| s@).contains_key(k));
        }
    }
    let mut special_ids: Vec<u32> = Vec::new();
    match &added {
        Some(a) => {
            let mut j: usize = 0;
            while j < a.len()
                invariant
                    j <= a@.len(),
                    special_ids@ == specials_of(a@.take(j as int)),
                decreases a.len() - j,
            {
                proof {
                    assert(a@.take(j + 1).drop_last() =~= a@.take(j as int));
                }
                match a[j] {
                    (Some(id), Some(true)) => {
                        special_ids.push(id as u32);
                    },
                    _ => {},
                }
                j = j + 1;
            }
            proof {
                assert(a@.take(a@.len() as int) =~= a@);
            }
        },
        None => {},
    }
    Ok(MoonshineTokenizer::new(vocab, special_ids))
}

impl MoonshineTokenizer {
    /// A tokenizer over a vocabulary (`id -> piece`) and the ids of its
    /// special tokens.
    pub fn new(vocab: HashMap<u32, String>, special_ids: Vec<u32>) -> (t: Self)
        ensures
            t.vocab() == vocab@,
            t.special_ids() == special_ids@,
    {
        MoonshineTokenizer { vocab, special_ids }
    }

    /// The vocabulary.
    pub closed spec fn vocab(&self) -> Map<u32, String> {
        self.vocab@
    }

    /// The special token ids.
    pub closed spec fn special_ids(&self) -> Seq<u32> {
        self.special_ids@
    }

    /// Number of entries in the vocabulary (used for sanity checks).
    pub fn len(&self) -> (n: usize)
        ensures
            n == self.vocab().len(),
    {
        self.vocab.len()
    }

    /// Whether the vocabulary is empty.
    pub fn is_empty(&self) -> (b: bool)
        ensures
            b == (self.vocab().len() == 0),
    {
        let b = self.vocab.is_empty();
        proof {
            if !b {
                assert(self.vocab@.dom().len() > 0 || !(self.vocab@ =~= Map::empty()));
            }
            if self.vocab@.len() == 0 {
                assert(self.vocab@.dom() =~= Set::empty());
                assert(self.vocab@ =~= Map::empty());
            }
        }
        b
    }

    /// Decodes token ids into a cleaned-up string.
    ///
    /// Special tokens are dropped and the leading word-boundary space is
    /// trimmed, so `"▁the▁lord"` becomes `"the lord"` not `" the lord"`.
    pub fn decode(&self, ids: &[i64]) -> (s: String)
        ensures
            s@ == spec_decode(self.vocab(), self.special_ids(), ids@),
            valid_utf8(decoded_bytes(self.vocab(), self.special_ids(), ids@)) ==> s@
                == without_leading_space(
                decode_utf8(decoded_bytes(self.vocab(), self.special_ids(), ids@)),
            ),
    {
        let mut bytes: Vec<u8> = Vec::new();
        let mut i: usize = 0;
        while i < ids.len()
            invariant
                i <= ids@.len(),
                bytes@ == decoded_bytes(self.vocab@, self.special_ids@, ids@.take(i as int)),
            decreases ids.len() - i,
        {
            let id = ids[i] as u32;
            proof {
                assert(ids@.take(i + 1).drop_last() =~= ids@.take(i as int));
                assert(ids@.take(i + 1).last() == ids@[i as int]);
            }
            if !contains_u32(&self.special_ids, id) {
                match self.vocab.get(&id) {
                    Some(piece) => {
                        let ghost before = bytes@;
                        match parse_byte_piece(piece.as_str()) {
                            Some(byte) => {
                                bytes.push(byte);
                            },
                            None => {
                                let chars = to_chars(piece.as_str());
                                let mut replaced: Vec<char> = Vec::new();
                                let mut k: usize = 0;
                                while k < chars.len()
                                    invariant
                                        k <= chars@.len(),
                                        replaced@ == spaced(chars@.take(k as int)),
                                    decreases chars.len() - k,
                                {
                                    if chars[k] == WORD_BOUNDARY {
                                        replaced.push(' ');
                                    } else {
                                        replaced.push(chars[k]);
                                    }
                                    assert(spaced(chars@.take(k + 1)) =~= spaced(
                                        chars@.take(k as int),
                                    ).push(replaced@[k as int]));
                                    k = k + 1;
                                }
                                assert(chars@.take(chars@.len() as int) =~= chars@);
                                let text = from_chars(&replaced);
                                let encoded = text.as_str().as_bytes();
                                let mut j: usize = 0;
                                while j < encoded.len()
                                    invariant
                                        j <= encoded@.len(),
                                        bytes@ == before + encoded@.take(j as int),
                                    decreases encoded.len() - j,
                                {
                                    bytes.push(encoded[j]);
                                    assert(encoded@.take(j + 1) =~= encoded@.take(j as int).push(
                                        encoded@[j as int],
                                    ));
                                    j = j + 1;
                                }
                                assert(encoded@.take(encoded@.len() as int) =~= encoded@);
                            },
                        }
                    },
                    None => {},
                }
            }
            i = i + 1;
        }
        assert(ids@.take(ids@.len() as int) =~= ids@);
        let text = from_utf8_lossy(bytes.as_slice());
        let chars = to_chars(text.as_str());
        if chars.len() > 0 && chars[0] == ' ' {
            let rest = slice_chars(&chars, 1, chars.len());
            assert(rest@ =~= chars@.drop_first());
            from_chars(&rest)
        } else {
            text
        }
    }
}

} // verus!
