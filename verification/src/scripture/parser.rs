//! Deterministic Scripture reference parser.
//!
//! Designed to be independent of speech-transcription quality: it operates on
//! a normalized token stream and only ever emits a reference when a
//! recognizable Bible book is followed by a structurally valid chapter/verse
//! sequence. If a transcript has no recognizable book sequence it produces
//! nothing — it never invents references from random numbers.

use vstd::prelude::*;

use crate::text::{
    chars_eq_str, char_is_alphabetic, decimal, from_chars, is_alphabetic, is_ascii_digit,
    is_digit, is_whitespace, is_ws, lower_chars, lowercase, parse_integer, parse_u32,
    push_decimal, slice_chars, to_chars,
};

use super::books::{
    book_by_id, find_book, lemma_book_ids, spec_book_at, spec_book_by_id, spec_find_book,
    token_views, BibleBook, BookSpec,
};
use super::normalizer::{
    is_number_word, lemma_run_total_bounded, normalize_chars, spec_is_number_word, spec_normalize, spec_words_to_number,
    words_to_number,
};
use super::reference::{spec_is_valid, ScriptureReference};

verus! {

/// A normalized token derived from text.
#[derive(Debug, Clone, PartialEq)]
pub enum Token {
    Number(u32),
    Word(String),
    Colon,
    Dash,
}

/// The mathematical content of a [`Token`].
pub enum TokenV {
    Number(u32),
    Word(Seq<char>),
    Colon,
    Dash,
}

impl View for Token {
    type V = TokenV;

    open spec fn view(&self) -> TokenV {
        match self {
            Token::Number(n) => TokenV::Number(*n),
            Token::Word(w) => TokenV::Word(w@),
            Token::Colon => TokenV::Colon,
            Token::Dash => TokenV::Dash,
        }
    }
}

pub open spec fn tokens_view(ts: Seq<Token>) -> Seq<TokenV> {
    ts.map_values(|t: Token| t@)
}

/// The text a token stands for: digits for a number, the word itself, `:` or
/// `-`.
pub open spec fn token_text(t: TokenV) -> Seq<char> {
    match t {
        TokenV::Number(n) => decimal(n as nat),
        TokenV::Word(w) => w,
        TokenV::Colon => seq![':'],
        TokenV::Dash => seq!['-'],
    }
}

pub open spec fn token_texts(ts: Seq<TokenV>) -> Seq<Seq<char>> {
    ts.map_values(|t: TokenV| token_text(t))
}

fn token_text_chars(t: &Token) -> (r: Vec<char>)
    ensures
        r@ == token_text(t@),
{
    let mut out: Vec<char> = Vec::new();
    match t {
        Token::Number(n) => {
            push_decimal(&mut out, *n as u64);
            assert(out@ =~= decimal(*n as nat));
        },
        Token::Word(w) => {
            out = to_chars(w.as_str());
        },
        Token::Colon => {
            out.push(':');
            assert(out@ =~= seq![':']);
        },
        Token::Dash => {
            out.push('-');
            assert(out@ =~= seq!['-']);
        },
    }
    out
}

impl Token {
    /// The text the token stands for.
    pub fn text(&self) -> (s: String)
        ensures
            s@ == token_text(self@),
    {
        let v = token_text_chars(self);
        from_chars(&v)
    }
}

// ---------------------------------------------------------------------------
// Tokenizer
// ---------------------------------------------------------------------------

/// Characters that continue a word: letters and the apostrophe.
pub open spec fn is_word_char(c: char) -> bool {
    char_is_alphabetic(c) || c == '\''
}

pub open spec fn is_dash_char(c: char) -> bool {
    c == '-' || c == '\u{2013}' || c == '\u{2014}'
}

/// End of the run of ASCII digits starting at `i`.
pub open spec fn digit_end(cs: Seq<char>, i: int) -> int
    decreases cs.len() - i,
{
    if i < 0 || i >= cs.len() || !is_digit(cs[i]) {
        i
    } else {
        digit_end(cs, i + 1)
    }
}

/// End of the run of word characters starting at `i`.
pub open spec fn word_end(cs: Seq<char>, i: int) -> int
    decreases cs.len() - i,
{
    if i < 0 || i >= cs.len() || !is_word_char(cs[i]) {
        i
    } else {
        word_end(cs, i + 1)
    }
}

proof fn lemma_digit_end(cs: Seq<char>, i: int)
    requires
        0 <= i <= cs.len(),
    ensures
        i <= digit_end(cs, i) <= cs.len(),
        i < cs.len() && is_digit(cs[i]) ==> digit_end(cs, i) > i,
    decreases cs.len() - i,
{
    if i < cs.len() && is_digit(cs[i]) {
        lemma_digit_end(cs, i + 1);
    }
}

proof fn lemma_word_end(cs: Seq<char>, i: int)
    requires
        0 <= i <= cs.len(),
    ensures
        i <= word_end(cs, i) <= cs.len(),
        i < cs.len() && is_word_char(cs[i]) ==> word_end(cs, i) > i,
    decreases cs.len() - i,
{
    if i < cs.len() && is_word_char(cs[i]) {
        lemma_word_end(cs, i + 1);
    }
}

/// A trailing possessive (`john's`) is dropped from words longer than two
/// characters.
pub open spec fn strip_possessive(w: Seq<char>) -> Seq<char> {
    if w.len() > 2 && w[w.len() - 2] == '\'' && w[w.len() - 1] == 's' {
        w.take(w.len() - 2)
    } else {
        w
    }
}

/// The tokens of normalized text `cs` from position `i` on: digit runs become
/// numbers (when they fit in `u32`; otherwise they are dropped), letter runs
/// become lowercased words, `:` and dashes become separators, and everything
/// else separates tokens.
pub open spec fn scan_from(cs: Seq<char>, i: int) -> Seq<TokenV>
    decreases cs.len() - i,
{
    if i < 0 || i >= cs.len() {
        seq![]
    } else {
        let c = cs[i];
        if is_ws(c) {
            scan_from(cs, i + 1)
        } else if is_digit(c) {
            let j = digit_end(cs, i);
            if j <= i || j > cs.len() {
                seq![]
            } else {
                let head = match parse_integer(cs.subrange(i, j), 0, u32::MAX as int) {
                    Some(n) => seq![TokenV::Number(n as u32)],
                    None => seq![],
                };
                head + scan_from(cs, j)
            }
        } else if char_is_alphabetic(c) {
            let j = word_end(cs, i);
            if j <= i || j > cs.len() {
                seq![]
            } else {
                seq![TokenV::Word(strip_possessive(lowercase(cs.subrange(i, j))))] + scan_from(
                    cs,
                    j,
                )
            }
        } else if c == ':' {
            seq![TokenV::Colon] + scan_from(cs, i + 1)
        } else if is_dash_char(c) {
            seq![TokenV::Dash] + scan_from(cs, i + 1)
        } else {
            scan_from(cs, i + 1)
        }
    }
}

/// The token stream of a text.
pub open spec fn spec_tokenize(s: Seq<char>) -> Seq<TokenV> {
    scan_from(spec_normalize(s), 0)
}

/// Converts typed/spoken text into a token stream.
///
/// `:` becomes [`Token::Colon`], dashes become [`Token::Dash`], digit runs
/// become [`Token::Number`]. Trailing possessives ("john's") are stripped.
pub fn tokenize(input: &str) -> (r: Vec<Token>)
    ensures
        tokens_view(r@) == spec_tokenize(input@),
{
    let chars = normalize_chars(input);
    let ghost cs = chars@;
    let mut tokens: Vec<Token> = Vec::new();
    let mut i: usize = 0;
    while i < chars.len()
        invariant
            cs == chars@,
            i <= chars.len(),
            scan_from(cs, 0) == tokens_view(tokens@) + scan_from(cs, i as int),
        decreases chars.len() - i,
    {
        let ch = chars[i];
        let ghost before = tokens_view(tokens@);
        if is_whitespace(ch) {
            i = i + 1;
            continue ;
        }
        if is_ascii_digit(ch) {
            let start = i;
            while i < chars.len() && is_ascii_digit(chars[i])
                invariant
                    cs == chars@,
                    start <= i <= chars.len(),
                    digit_end(cs, start as int) == digit_end(cs, i as int),
                decreases chars.len() - i,
            {
                i = i + 1;
            }
            proof {
                lemma_digit_end(cs, start as int);
            }
            let run = slice_chars(&chars, start, i);
            match parse_u32(&run) {
                Some(n) => {
                    tokens.push(Token::Number(n));
                    assert(tokens_view(tokens@) =~= before + seq![TokenV::Number(n)]);
                },
                None => {
                    assert(tokens_view(tokens@) =~= before + seq![]);
                },
            }
            continue ;
        }
        if is_alphabetic(ch) {
            let start = i;
            while i < chars.len() && (is_alphabetic(chars[i]) || chars[i] == '\'')
                invariant
                    cs == chars@,
                    start <= i <= chars.len(),
                    word_end(cs, start as int) == word_end(cs, i as int),
                decreases chars.len() - i,
            {
                i = i + 1;
            }
            proof {
                lemma_word_end(cs, start as int);
            }
            let run = slice_chars(&chars, start, i);
            let mut word = lower_chars(&run);
            let n = word.len();
            if n > 2 && word[n - 2] == '\'' && word[n - 1] == 's' {
                word = slice_chars(&word, 0, n - 2);
            }
            tokens.push(Token::Word(from_chars(&word)));
            assert(tokens_view(tokens@) =~= before + seq![
                TokenV::Word(strip_possessive(lowercase(cs.subrange(start as int, i as int)))),
            ]);
            continue ;
        }
        if ch == ':' {
            tokens.push(Token::Colon);
            assert(tokens_view(tokens@) =~= before + seq![TokenV::Colon]);
        } else if ch == '-' || ch == '\u{2013}' || ch == '\u{2014}' {
            tokens.push(Token::Dash);
            assert(tokens_view(tokens@) =~= before + seq![TokenV::Dash]);
        }
        i = i + 1;
    }
    assert(tokens_view(tokens@) + scan_from(cs, i as int) =~= tokens_view(tokens@));
    tokens
}

/// The text of every token.
pub fn token_strings(tokens: &Vec<Token>) -> (r: Vec<String>)
    ensures
        r@.len() == tokens@.len(),
        forall|i: int| 0 <= i < tokens@.len() ==> #[trigger] r@[i]@ == token_text(tokens@[i]@),
{
    let mut r: Vec<String> = Vec::new();
    let mut i: usize = 0;
    while i < tokens.len()
        invariant
            i <= tokens.len(),
            r@.len() == i,
            forall|k: int| 0 <= k < i ==> #[trigger] r@[k]@ == token_text(tokens@[k]@),
        decreases tokens.len() - i,
    {
        r.push(tokens[i].text());
        i = i + 1;
    }
    r
}

// ---------------------------------------------------------------------------
// Markers and numbers
// ---------------------------------------------------------------------------

pub open spec fn spec_is_chapter_marker(t: TokenV) -> bool {
    match t {
        TokenV::Word(w) => w == "chapter"@ || w == "chapters"@ || w == "ch"@ || w == "chs"@,
        _ => false,
    }
}

pub open spec fn spec_is_verse_marker(t: TokenV) -> bool {
    match t {
        TokenV::Word(w) => w == "verse"@ || w == "verses"@ || w == "v"@ || w == "vs"@,
        _ => false,
    }
}

pub open spec fn spec_is_range_connector(t: TokenV) -> bool {
    match t {
        TokenV::Dash => true,
        TokenV::Colon => true,
        TokenV::Word(w) => w == "through"@ || w == "thru"@ || w == "to"@,
        _ => false,
    }
}

/// The word of a token, if it is one.
fn word_chars(t: &Token) -> (r: Option<Vec<char>>)
    ensures
        match (r, t@) {
            (Some(v), TokenV::Word(w)) => v@ == w,
            (None, TokenV::Word(_)) => false,
            (Some(_), _) => false,
            (None, _) => true,
        },
{
    match t {
        Token::Word(w) => Some(to_chars(w.as_str())),
        _ => None,
    }
}

fn word_is(t: &Token, lit: &str) -> (r: bool)
    ensures
        r == (t@ matches TokenV::Word(w) && w == lit@),
{
    match word_chars(t) {
        Some(w) => chars_eq_str(&w, lit),
        None => false,
    }
}

fn is_chapter_marker(t: &Token) -> (r: bool)
    ensures
        r == spec_is_chapter_marker(t@),
{
    word_is(t, "chapter") || word_is(t, "chapters") || word_is(t, "ch") || word_is(t, "chs")
}

fn is_verse_marker(t: &Token) -> (r: bool)
    ensures
        r == spec_is_verse_marker(t@),
{
    word_is(t, "verse") || word_is(t, "verses") || word_is(t, "v") || word_is(t, "vs")
}

fn is_range_connector(t: &Token) -> (r: bool)
    ensures
        r == spec_is_range_connector(t@),
{
    match t {
        Token::Dash => true,
        Token::Colon => true,
        Token::Word(_) => word_is(t, "through") || word_is(t, "thru") || word_is(t, "to"),
        Token::Number(_) => false,
    }
}

/// Up to `k` consecutive number words starting at `i`.
pub open spec fn number_window(toks: Seq<TokenV>, i: int, k: int) -> Seq<Seq<char>>
    decreases k,
{
    if k <= 0 || i < 0 || i >= toks.len() {
        seq![]
    } else {
        match toks[i] {
            TokenV::Word(w) => if spec_is_number_word(w) {
                seq![w] + number_window(toks, i + 1, k - 1)
            } else {
                seq![]
            },
            _ => seq![],
        }
    }
}

/// A number starting at token `i`: a digit token, a word spelled with
/// digits, or a compound of up to four number words; with the index after it.
pub open spec fn spec_number_at(toks: Seq<TokenV>, i: int) -> Option<(int, int)> {
    if i < 0 || i >= toks.len() {
        None
    } else {
        match toks[i] {
            TokenV::Number(n) => Some((n as int, i + 1)),
            TokenV::Word(w) => match parse_integer(w, 0, u32::MAX as int) {
                Some(n) => Some((n, i + 1)),
                None => if !spec_is_number_word(w) {
                    None
                } else {
                    match spec_words_to_number(number_window(toks, i, 4), 0) {
                        Some((n, c)) => Some((n, i + c)),
                        None => None,
                    }
                },
            },
            _ => None,
        }
    }
}

/// Reads a number starting at `i`: either a digit token, a digit-spelled
/// word, or a compound number word sequence.
fn number_at(tokens: &Vec<Token>, i: usize) -> (r: Option<(u32, usize)>)
    ensures
        match (r, spec_number_at(tokens_view(tokens@), i as int)) {
            (None, None) => true,
            (Some((n, c)), Some((sn, sc))) => n == sn && c == sc,
            _ => false,
        },
{
    let ghost toks = tokens_view(tokens@);
    if i >= tokens.len() {
        return None;
    }
    match &tokens[i] {
        Token::Number(n) => Some((*n, i + 1)),
        Token::Word(w) => {
            let wc = to_chars(w.as_str());
            if let Some(n) = parse_u32(&wc) {
                return Some((n, i + 1));
            }
            if !is_number_word(w.as_str()) {
                return None;
            }
            let mut window: Vec<&str> = Vec::new();
            let mut j: usize = i;
            let mut stopped = false;
            while j < tokens.len() && j - i < 4 && !stopped
                invariant
                    toks == tokens_view(tokens@),
                    i < tokens.len(),
                    i <= j <= i + 4,
                    !stopped ==> token_views(window@) + number_window(toks, j as int, i + 4 - j)
                        == number_window(toks, i as int, 4),
                    stopped ==> token_views(window@) == number_window(toks, i as int, 4),
                    window@.len() <= j - i,
                decreases i + 4 - j,
            {
                let ghost before = token_views(window@);
                match &tokens[j] {
                    Token::Word(v) => {
                        if is_number_word(v.as_str()) {
                            window.push(v.as_str());
                            assert(token_views(window@) =~= before + seq![v@]);
                            assert(number_window(toks, j as int, i + 4 - j) == seq![v@]
                                + number_window(toks, j + 1, i + 4 - (j + 1)));
                        } else {
                            stopped = true;
                            assert(number_window(toks, j as int, i + 4 - j) =~= seq![]);
                            assert(before + seq![] =~= before);
                        }
                    },
                    _ => {
                        stopped = true;
                        assert(number_window(toks, j as int, i + 4 - j) =~= seq![]);
                        assert(before + seq![] =~= before);
                    },
                }
                j = j + 1;
            }
            proof {
                if !stopped {
                    assert(number_window(toks, j as int, i + 4 - j) =~= seq![]);
                    assert(token_views(window@) + seq![] =~= token_views(window@));
                }
            }
            proof {
                lemma_run_total_bounded(token_views(window@), 0, 0, 0);
            }
            match words_to_number(window.as_slice(), 0) {
                Some((n, consumed)) => Some((n, i + consumed)),
                None => None,
            }
        },
        _ => None,
    }
}

// ---------------------------------------------------------------------------
// Grammar
// ---------------------------------------------------------------------------

/// Words that may stand between a book and its chapter ("John's gospel").
pub open spec fn spec_is_filler(t: TokenV) -> bool {
    match t {
        TokenV::Word(w) => w == "gospel"@ || w == "book"@ || w == "epistle"@ || w == "letter"@,
        _ => false,
    }
}

/// The position after any run of chapter markers starting at `c`.
pub open spec fn skip_chapter_markers(toks: Seq<TokenV>, c: int) -> int
    decreases toks.len() - c,
{
    if 0 <= c < toks.len() && spec_is_chapter_marker(toks[c]) {
        skip_chapter_markers(toks, c + 1)
    } else {
        c
    }
}

/// The reference that follows `book` at token `n0`, if the tokens there form
/// one.
///
/// Grammar (all parts after the book are optional):
///   [gospel|book|epistle|letter] [chapter|ch]* <chapter>
///   [(:|colon)] [verse|verses|v|vs] <verse> [(-|:|through|thru|to|and) [verse marker] <verse>]
/// A separator or verse marker that is not followed by a verse means the
/// reference is incomplete and nothing is emitted.
#[verifier::opaque]
pub open spec fn spec_parse_after_book(book: BookSpec, n0: int, toks: Seq<TokenV>) -> Option<
    ScriptureReference,
> {
    let c0 = if 0 <= n0 < toks.len() && spec_is_filler(toks[n0]) {
        n0 + 1
    } else {
        n0
    };
    let c1 = skip_chapter_markers(toks, c0);
    match spec_number_at(toks, c1) {
        None => None,
        Some((chapter, c2)) => {
            if chapter < 1 || chapter > book.chapters {
                None
            } else {
                let saw_sep = 0 <= c2 < toks.len() && (toks[c2] is Colon || toks[c2]
                    == TokenV::Word("colon"@));
                let c3 = if saw_sep {
                    c2 + 1
                } else {
                    c2
                };
                let saw_marker = 0 <= c3 < toks.len() && spec_is_verse_marker(toks[c3]);
                let c4 = if saw_marker {
                    c3 + 1
                } else {
                    c3
                };
                let start = match spec_number_at(toks, c4) {
                    Some((v, after)) => if 1 <= v < 1000 {
                        Some((v, after))
                    } else {
                        None
                    },
                    None => None,
                };
                match start {
                    None => if saw_sep || saw_marker {
                        None
                    } else {
                        Some(
                            ScriptureReference {
                                book_id: book.id as i32,
                                chapter: chapter as u16,
                                start_verse: None,
                                end_verse: None,
                            },
                        )
                    },
                    Some((v, c5)) => {
                        let connector = 0 <= c5 < toks.len() && (spec_is_range_connector(toks[c5])
                            || toks[c5] == TokenV::Word("and"@));
                        let end = if connector {
                            let c6 = if c5 + 1 < toks.len() && spec_is_verse_marker(toks[c5 + 1]) {
                                c5 + 2
                            } else {
                                c5 + 1
                            };
                            match spec_number_at(toks, c6) {
                                Some((e, _)) => if e >= v && e < 1000 {
                                    e
                                } else {
                                    v
                                },
                                None => v,
                            }
                        } else {
                            v
                        };
                        let r = ScriptureReference {
                            book_id: book.id as i32,
                            chapter: chapter as u16,
                            start_verse: Some(v as u16),
                            end_verse: Some(end as u16),
                        };
                        if spec_is_valid(r) {
                            Some(r)
                        } else {
                            None
                        }
                    },
                }
            }
        },
    }
}

/// Attempts to parse `book` followed by a reference from `tokens[n0..]`.
fn parse_after_book(book: &BibleBook, n0: usize, tokens: &Vec<Token>) -> (r: Option<
    ScriptureReference,
>)
    requires
        1 <= book@.id <= 66,
    ensures
        r == spec_parse_after_book(book@, n0 as int, tokens_view(tokens@)),
{
    reveal(spec_parse_after_book);
    let ghost toks = tokens_view(tokens@);
    let mut cursor = n0;

    // Optional filler directly after the book ("John's gospel chapter one").
    if cursor < tokens.len() {
        if word_is(&tokens[cursor], "gospel") || word_is(&tokens[cursor], "book") || word_is(
            &tokens[cursor],
            "epistle",
        ) || word_is(&tokens[cursor], "letter") {
            cursor = cursor + 1;
        }
    }
    // Optional "chapter" / "chapters" markers.
    while cursor < tokens.len() && is_chapter_marker(&tokens[cursor])
        invariant
            toks == tokens_view(tokens@),
            skip_chapter_markers(toks, cursor as int) == skip_chapter_markers(
                toks,
                if 0 <= n0 < toks.len() && spec_is_filler(toks[n0 as int]) {
                    n0 + 1
                } else {
                    n0 as int
                },
            ),
        decreases tokens.len() - cursor,
    {
        cursor = cursor + 1;
    }
    let Some((chapter, after_chapter)) = number_at(tokens, cursor) else {
        return None;
    };
    if chapter < 1 || chapter > book.chapters as u32 {
        return None;
    }
    cursor = after_chapter;

    // Optional separator: ":" token or the spoken word "colon".
    let mut saw_separator = false;
    if cursor < tokens.len() {
        if matches!(tokens[cursor], Token::Colon) || word_is(&tokens[cursor], "colon") {
            cursor = cursor + 1;
            saw_separator = true;
        }
    }
    // Optional verse marker ("verse"/"verses"/"v"/"vs").
    let mut saw_verse_marker = false;
    if cursor < tokens.len() {
        if is_verse_marker(&tokens[cursor]) {
            cursor = cursor + 1;
            saw_verse_marker = true;
        }
    }
    // The verse itself: a number token or number words.
    let mut start_verse: Option<u16> = None;
    if let Some((v, after)) = number_at(tokens, cursor) {
        if 1 <= v && v < 1000 {
            start_verse = Some(v as u16);
            cursor = after;
        }
    }
    if start_verse.is_none() && (saw_separator || saw_verse_marker) {
        return None;
    }
    let Some(start) = start_verse else {
        return Some(ScriptureReference::new(book.id, chapter as u16));
    };

    // Optional range: "-", ":", "through", "to" (or "and") + verse.
    let mut end_verse = start;
    if cursor < tokens.len() {
        if is_range_connector(&tokens[cursor]) || word_is(&tokens[cursor], "and") {
            let mut next = cursor + 1;
            if next < tokens.len() {
                if is_verse_marker(&tokens[next]) {
                    next = next + 1;
                }
            }
            if let Some((end_v, _)) = number_at(tokens, next) {
                if end_v >= start as u32 && end_v < 1000 {
                    end_verse = end_v as u16;
                }
            }
        }
    }
    let reference = ScriptureReference {
        book_id: book.id,
        chapter: chapter as u16,
        start_verse: Some(start),
        end_verse: Some(end_verse),
    };
    if reference.is_valid() {
        Some(reference)
    } else {
        None
    }
}

/// The references found in a token stream from position `i` on: wherever a
/// book is recognized and a reference follows it, that reference is emitted
/// and scanning resumes after the book; otherwise scanning moves one token on.
pub open spec fn refs_from(toks: Seq<TokenV>, i: int) -> Seq<ScriptureReference>
    decreases toks.len() - i,
{
    if i < 0 || i >= toks.len() {
        seq![]
    } else {
        match spec_find_book(token_texts(toks), i) {
            Some((k, consumed)) => if consumed >= 1 && i + consumed <= toks.len() && 0 <= k < 66 {
                match spec_parse_after_book(spec_book_at(k), i + consumed, toks) {
                    Some(r) => seq![r] + refs_from(toks, i + consumed),
                    None => refs_from(toks, i + 1),
                }
            } else {
                refs_from(toks, i + 1)
            },
            None => refs_from(toks, i + 1),
        }
    }
}

/// Every Scripture reference in a text, in order.
pub open spec fn spec_find_references(s: Seq<char>) -> Seq<ScriptureReference> {
    refs_from(spec_tokenize(s), 0)
}

/// A reference produced by the grammar is always structurally valid.
proof fn lemma_parse_after_book_valid(k: int, n0: int, toks: Seq<TokenV>)
    requires
        0 <= k < 66,
    ensures
        spec_parse_after_book(spec_book_at(k), n0, toks) matches Some(r) ==> spec_is_valid(r),
{
    reveal(spec_parse_after_book);
    lemma_book_ids();
    let b = spec_book_at(k);
    assert(spec_book_by_id(b.id) == Some(b));
}

/// The words and signs that join a first verse to a last one: `-`, `:`,
/// "through", "thru", "to" and "and".
pub open spec fn joins_verses(t: TokenV) -> bool {
    ||| t == TokenV::Dash
    ||| t == TokenV::Colon
    ||| t == TokenV::Word("through"@)
    ||| t == TokenV::Word("thru"@)
    ||| t == TokenV::Word("to"@)
    ||| t == TokenV::Word("and"@)
}

proof fn lemma_skip_chapter_markers(toks: Seq<TokenV>, n0: int, c1: int)
    requires
        0 <= n0 <= c1 < toks.len(),
        forall|j: int| n0 <= j < c1 ==> spec_is_chapter_marker(#[trigger] toks[j]),
        !spec_is_chapter_marker(toks[c1]),
    ensures
        skip_chapter_markers(toks, n0) == c1,
    decreases c1 - n0,
{
    if n0 < c1 {
        lemma_skip_chapter_markers(toks, n0 + 1, c1);
    }
}

/// A verse range is read whole: after a book, any chapter markers and a
/// valid chapter, then the verse opener (`:`, a verse marker, or both), a
/// first verse `v`, a joining word or sign (including "and") and a last
/// verse `e` with `v <= e < 1000` give the reference `chapter:v-e`, never
/// the first verse alone.
pub proof fn lemma_verse_range_is_read(
    k: int,
    n0: int,
    toks: Seq<TokenV>,
    c1: int,
    c: int,
    a1: int,
    c4: int,
    v: int,
    a2: int,
    e: int,
)
    requires
        0 <= k < 66,
        0 <= n0 <= c1 < toks.len(),
        !spec_is_filler(toks[n0]),
        forall|j: int| n0 <= j < c1 ==> spec_is_chapter_marker(#[trigger] toks[j]),
        !spec_is_chapter_marker(toks[c1]),
        spec_number_at(toks, c1) == Some((c, a1)),
        1 <= c <= spec_book_at(k).chapters,
        0 <= a1 < toks.len(),
        (toks[a1] == TokenV::Colon && a1 + 1 < toks.len() && !spec_is_verse_marker(toks[a1 + 1])
            && c4 == a1 + 1) || (spec_is_verse_marker(toks[a1]) && c4 == a1 + 1) || (toks[a1]
            == TokenV::Colon && a1 + 1 < toks.len() && spec_is_verse_marker(toks[a1 + 1]) && c4
            == a1 + 2),
        spec_number_at(toks, c4) == Some((v, a2)),
        1 <= v,
        0 <= a2 < toks.len(),
        joins_verses(toks[a2]),
        a2 + 1 < toks.len(),
        !spec_is_verse_marker(toks[a2 + 1]),
        spec_number_at(toks, a2 + 1) matches Some((end, _)) && end == e,
        v <= e < 1000,
    ensures
        spec_parse_after_book(spec_book_at(k), n0, toks) == Some(
            ScriptureReference {
                book_id: spec_book_at(k).id as i32,
                chapter: c as u16,
                start_verse: Some(v as u16),
                end_verse: Some(e as u16),
            },
        ),
{
    reveal(spec_parse_after_book);
    reveal_strlit("colon");
    reveal_strlit("verse");
    reveal_strlit("verses");
    reveal_strlit("v");
    reveal_strlit("vs");
    lemma_book_ids();
    lemma_skip_chapter_markers(toks, n0, c1);
    let b = spec_book_at(k);
    assert(spec_book_by_id(b.id) == Some(b));
    assert(b.chapters <= 150);
    let r = ScriptureReference {
        book_id: b.id as i32,
        chapter: c as u16,
        start_verse: Some(v as u16),
        end_verse: Some(e as u16),
    };
    assert(spec_is_valid(r));
    if spec_is_verse_marker(toks[a1]) {
        if let TokenV::Word(w) = toks[a1] {
            if w == "colon"@ {
                assert(w[0] == 'c');
                assert(w.len() == 5);
                assert(false);
            }
        }
    }
    let saw_sep = toks[a1] is Colon || toks[a1] == TokenV::Word("colon"@);
    let c3 = if saw_sep { a1 + 1 } else { a1 };
    let saw_marker = 0 <= c3 < toks.len() && spec_is_verse_marker(toks[c3]);
    assert(c4 == if saw_marker { c3 + 1 } else { c3 });
    assert(spec_is_range_connector(toks[a2]) || toks[a2] == TokenV::Word("and"@));
}

/// Every reference found from position `i` on is structurally valid.
pub proof fn lemma_refs_valid(toks: Seq<TokenV>, i: int)
    ensures
        forall|j: int| 0 <= j < refs_from(toks, i).len() ==> spec_is_valid(
            #[trigger] refs_from(toks, i)[j],
        ),
    decreases toks.len() - i,
{
    if 0 <= i < toks.len() {
        match spec_find_book(token_texts(toks), i) {
            Some((k, consumed)) => if consumed >= 1 && i + consumed <= toks.len() && 0 <= k < 66 {
                lemma_parse_after_book_valid(k, i + consumed, toks);
                match spec_parse_after_book(spec_book_at(k), i + consumed, toks) {
                    Some(r) => {
                        lemma_refs_valid(toks, i + consumed);
                        assert(spec_is_valid(r));
                        let rest = refs_from(toks, i + consumed);
                        assert(refs_from(toks, i) == seq![r] + rest);
                        assert forall|j: int|
                            0 <= j < refs_from(toks, i).len() implies spec_is_valid(
                            #[trigger] refs_from(toks, i)[j],
                        ) by {
                            if j > 0 {
                                assert(refs_from(toks, i)[j] == rest[j - 1]);
                            }
                        }
                    },
                    None => {
                        lemma_refs_valid(toks, i + 1);
                assert(refs_from(toks, i) == refs_from(toks, i + 1));
                    },
                }
            } else {
                lemma_refs_valid(toks, i + 1);
                assert(refs_from(toks, i) == refs_from(toks, i + 1));
            },
            None => {
                lemma_refs_valid(toks, i + 1);
                assert(refs_from(toks, i) == refs_from(toks, i + 1));
            },
        }
    }
}

/// Finds every Scripture reference that can be extracted from `text`.
///
/// A reference is only emitted when a canonical book is followed by a valid
/// chapter (and optional verse/range). Other numbers in the text are ignored.
pub fn find_references(text: &str) -> (refs: Vec<ScriptureReference>)
    ensures
        refs@ == spec_find_references(text@),
        forall|j: int| 0 <= j < refs@.len() ==> spec_is_valid(#[trigger] refs@[j]),
{
    let tokens = tokenize(text);
    let ghost toks = tokens_view(tokens@);
    let texts = token_strings(&tokens);
    let mut strs: Vec<&str> = Vec::new();
    let mut t: usize = 0;
    while t < texts.len()
        invariant
            t <= texts.len(),
            texts@.len() == tokens@.len(),
            strs@.len() == t,
            forall|k: int| 0 <= k < t ==> #[trigger] strs@[k]@ == texts@[k]@,
        decreases texts.len() - t,
    {
        strs.push(texts[t].as_str());
        t = t + 1;
    }
    proof {
        assert(token_views(strs@) =~= token_texts(toks)) by {
            assert forall|k: int| 0 <= k < toks.len() implies token_views(strs@)[k]
                == #[trigger] token_texts(toks)[k] by {
                assert(texts@[k]@ == token_text(tokens@[k]@));
            }
        }
    }
    let mut refs: Vec<ScriptureReference> = Vec::new();
    let mut i: usize = 0;
    while i < tokens.len()
        invariant
            toks == tokens_view(tokens@),
            token_views(strs@) == token_texts(toks),
            strs@.len() == toks.len(),
            i <= tokens.len(),
            refs_from(toks, 0) == refs@ + refs_from(toks, i as int),
        decreases tokens.len() - i,
    {
        let ghost sk = spec_find_book(token_texts(toks), i as int);
        if let Some((book, consumed)) = find_book(strs.as_slice(), i) {
            let ghost (k, len) = match sk {
                Some(p) => p,
                None => (0, 0),
            };
            proof {
                assert(token_views(strs@) == token_texts(toks));
                lemma_book_ids();
                assert(0 <= k < 66 && book@ == spec_book_at(k) && consumed == len && sk is Some);
                assert(i + consumed <= toks.len());
            }
            let found = parse_after_book(&book, i + consumed, &tokens);
            assert(refs_from(toks, i as int) == match found {
                Some(r) => seq![r] + refs_from(toks, i + consumed),
                None => refs_from(toks, i + 1),
            });
            if let Some(reference) = found {
                let ghost before = refs@;
                refs.push(reference);
                assert(refs@ =~= before + seq![reference]);
                i = i + consumed;
                continue ;
            }
        }
        i = i + 1;
    }
    assert(refs@ + refs_from(toks, i as int) =~= refs@);
    proof {
        lemma_refs_valid(toks, 0);
    }
    refs
}

/// The first reference in a text.
pub open spec fn spec_parse_reference(s: Seq<char>) -> Option<ScriptureReference> {
    let refs = spec_find_references(s);
    if refs.len() > 0 {
        Some(refs[0])
    } else {
        None
    }
}

/// Parses the first Scripture reference found in `text`, if any.
pub fn parse_reference(text: &str) -> (r: Option<ScriptureReference>)
    ensures
        r == spec_parse_reference(text@),
        r matches Some(x) ==> spec_is_valid(x),
{
    let refs = find_references(text);
    if refs.len() > 0 {
        Some(refs[0])
    } else {
        None
    }
}

} // verus!
