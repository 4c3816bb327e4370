//! Text normalization and number-word conversion.
//!
//! Spoken input ("chapter three verse sixteen") and typed input ("John 3:16")
//! are both reduced to a normalized token stream before parsing.

use vstd::prelude::*;

use crate::text::{
    all_digits, chars_eq_str, collapse_whitespace, collapse_ws, from_chars, is_ascii_digit,
    is_collapsed, lemma_collapse_ws_shape, lower_chars, lowercase, to_chars, trim, trim_chars,
};

use super::books::token_views;
use super::reference::{small_word, tens_word};

verus! {

/// Curly single quotes become `'` and curly double quotes become `"`.
pub open spec fn straighten_quote(c: char) -> char {
    if c == '\u{2018}' || c == '\u{2019}' || c == '\u{201B}' {
        '\''
    } else if c == '\u{201C}' || c == '\u{201D}' || c == '\u{201F}' {
        '"'
    } else {
        c
    }
}

/// The normalized form of a text: quotes straightened, trimmed, lowercased,
/// and every run of whitespace collapsed to one space.
pub open spec fn spec_normalize(s: Seq<char>) -> Seq<char> {
    collapse_ws(lowercase(trim(s.map_values(|c: char| straighten_quote(c)))))
}

/// Whatever the input, normalized text has no whitespace at either end, and
/// its only whitespace is single spaces between words.
pub proof fn lemma_normalized_shape(s: Seq<char>)
    ensures
        is_collapsed(spec_normalize(s)),
{
    lemma_collapse_ws_shape(lowercase(trim(s.map_values(|c: char| straighten_quote(c)))));
}

/// The characters of [`normalize_text`].
pub fn normalize_chars(input: &str) -> (r: Vec<char>)
    ensures
        r@ == spec_normalize(input@),
{
    let chars = to_chars(input);
    let mut straight: Vec<char> = Vec::new();
    let mut i: usize = 0;
    while i < chars.len()
        invariant
            i <= chars.len(),
            straight@ == chars@.take(i as int).map_values(|c: char| straighten_quote(c)),
        decreases chars.len() - i,
    {
        let c = chars[i];
        let s = if c == '\u{2018}' || c == '\u{2019}' || c == '\u{201B}' {
            '\''
        } else if c == '\u{201C}' || c == '\u{201D}' || c == '\u{201F}' {
            '"'
        } else {
            c
        };
        straight.push(s);
        i = i + 1;
        assert(straight@ =~= chars@.take(i as int).map_values(|c: char| straighten_quote(c)));
    }
    assert(chars@.take(chars.len() as int) =~= chars@);
    let trimmed = trim_chars(&straight);
    let lowered = lower_chars(&trimmed);
    collapse_whitespace(&lowered)
}

/// Collapses whitespace, lowercases, and normalizes curly quotes/apostrophes.
pub fn normalize_text(input: &str) -> (r: String)
    ensures
        r@ == spec_normalize(input@),
{
    let v = normalize_chars(input);
    from_chars(&v)
}

pub open spec fn spec_simple_number(w: Seq<char>) -> Option<u32> {
    if w == "zero"@ {
        Some(0)
    } else if w == "one"@ {
        Some(1)
    } else if w == "first"@ {
        Some(1)
    } else if w == "two"@ {
        Some(2)
    } else if w == "second"@ {
        Some(2)
    } else if w == "three"@ {
        Some(3)
    } else if w == "third"@ {
        Some(3)
    } else if w == "four"@ {
        Some(4)
    } else if w == "fourth"@ {
        Some(4)
    } else if w == "five"@ {
        Some(5)
    } else if w == "fifth"@ {
        Some(5)
    } else if w == "six"@ {
        Some(6)
    } else if w == "seven"@ {
        Some(7)
    } else if w == "eight"@ {
        Some(8)
    } else if w == "nine"@ {
        Some(9)
    } else if w == "ten"@ {
        Some(10)
    } else if w == "eleven"@ {
        Some(11)
    } else if w == "twelve"@ {
        Some(12)
    } else if w == "thirteen"@ {
        Some(13)
    } else if w == "fourteen"@ {
        Some(14)
    } else if w == "fifteen"@ {
        Some(15)
    } else if w == "sixteen"@ {
        Some(16)
    } else if w == "seventeen"@ {
        Some(17)
    } else if w == "eighteen"@ {
        Some(18)
    } else if w == "nineteen"@ {
        Some(19)
    } else if w == "twenty"@ {
        Some(20)
    } else if w == "thirty"@ {
        Some(30)
    } else if w == "forty"@ {
        Some(40)
    } else if w == "fifty"@ {
        Some(50)
    } else if w == "sixty"@ {
        Some(60)
    } else if w == "seventy"@ {
        Some(70)
    } else if w == "eighty"@ {
        Some(80)
    } else if w == "ninety"@ {
        Some(90)
    } else if w == "hundred"@ {
        Some(100)
    } else {
        None
    }
}

fn simple_number_chars(w: &Vec<char>) -> (r: Option<u32>)
    ensures
        r == spec_simple_number(w@),
{
    if chars_eq_str(w, "zero") {
        return Some(0);
    }
    if chars_eq_str(w, "one") {
        return Some(1);
    }
    if chars_eq_str(w, "first") {
        return Some(1);
    }
    if chars_eq_str(w, "two") {
        return Some(2);
    }
    if chars_eq_str(w, "second") {
        return Some(2);
    }
    if chars_eq_str(w, "three") {
        return Some(3);
    }
    if chars_eq_str(w, "third") {
        return Some(3);
    }
    if chars_eq_str(w, "four") {
        return Some(4);
    }
    if chars_eq_str(w, "fourth") {
        return Some(4);
    }
    if chars_eq_str(w, "five") {
        return Some(5);
    }
    if chars_eq_str(w, "fifth") {
        return Some(5);
    }
    if chars_eq_str(w, "six") {
        return Some(6);
    }
    if chars_eq_str(w, "seven") {
        return Some(7);
    }
    if chars_eq_str(w, "eight") {
        return Some(8);
    }
    if chars_eq_str(w, "nine") {
        return Some(9);
    }
    if chars_eq_str(w, "ten") {
        return Some(10);
    }
    if chars_eq_str(w, "eleven") {
        return Some(11);
    }
    if chars_eq_str(w, "twelve") {
        return Some(12);
    }
    if chars_eq_str(w, "thirteen") {
        return Some(13);
    }
    if chars_eq_str(w, "fourteen") {
        return Some(14);
    }
    if chars_eq_str(w, "fifteen") {
        return Some(15);
    }
    if chars_eq_str(w, "sixteen") {
        return Some(16);
    }
    if chars_eq_str(w, "seventeen") {
        return Some(17);
    }
    if chars_eq_str(w, "eighteen") {
        return Some(18);
    }
    if chars_eq_str(w, "nineteen") {
        return Some(19);
    }
    if chars_eq_str(w, "twenty") {
        return Some(20);
    }
    if chars_eq_str(w, "thirty") {
        return Some(30);
    }
    if chars_eq_str(w, "forty") {
        return Some(40);
    }
    if chars_eq_str(w, "fifty") {
        return Some(50);
    }
    if chars_eq_str(w, "sixty") {
        return Some(60);
    }
    if chars_eq_str(w, "seventy") {
        return Some(70);
    }
    if chars_eq_str(w, "eighty") {
        return Some(80);
    }
    if chars_eq_str(w, "ninety") {
        return Some(90);
    }
    if chars_eq_str(w, "hundred") {
        return Some(100);
    }
    None
}

/// Basic cardinal number words up to one hundred.
pub fn simple_number(word: &str) -> (r: Option<u32>)
    ensures
        r == spec_simple_number(word@),
{
    let w = to_chars(word);
    simple_number_chars(&w)
}

/// The state reached by reading number words from `cursor` on, with
/// `value` the completed hundreds and `current` the part being built; returns
/// the final `(value, current, cursor)`. A word stops the run as soon as it
/// cannot combine with what has been read, and is left for the caller.
pub open spec fn number_run(tokens: Seq<Seq<char>>, cursor: int, value: int, current: int) -> (
    int,
    int,
    int,
)
    decreases tokens.len() - cursor,
{
    if cursor < 0 || cursor >= tokens.len() {
        (value, current, cursor)
    } else {
        match spec_simple_number(tokens[cursor]) {
            None => (value, current, cursor),
            Some(n) => {
                if n == 100 {
                    if current == 0 {
                        number_run(tokens, cursor + 1, value, 100)
                    } else if 1 <= current <= 9 {
                        number_run(tokens, cursor + 1, value, current * 100)
                    } else {
                        (value, current, cursor)
                    }
                } else if current == 0 {
                    number_run(tokens, cursor + 1, value, n as int)
                } else if current >= 20 && current % 10 == 0 && n < 10 {
                    number_run(tokens, cursor + 1, value, current + n)
                } else if current >= 100 && current % 100 == 0 && n < 100 {
                    number_run(tokens, cursor + 1, value + current, n as int)
                } else {
                    (value, current, cursor)
                }
            },
        }
    }
}

/// The number spelled by the words at `idx` and the index one past them, or
/// `None` when `tokens[idx]` is not a number word.
pub open spec fn spec_words_to_number(tokens: Seq<Seq<char>>, idx: int) -> Option<(int, int)> {
    let (value, current, end) = number_run(tokens, idx, 0, 0);
    if end == idx {
        None
    } else {
        Some((value + current, end))
    }
}

/// A run never moves backwards.
pub proof fn lemma_number_run_forward(tokens: Seq<Seq<char>>, cursor: int, value: int, current: int)
    requires
        0 <= cursor,
    ensures
        number_run(tokens, cursor, value, current).2 >= cursor,
    decreases tokens.len() - cursor,
{
    if cursor < tokens.len() {
        match spec_simple_number(tokens[cursor]) {
            None => {},
            Some(n) => {
                if n == 100 {
                    if current == 0 {
                        lemma_number_run_forward(tokens, cursor + 1, value, 100);
                    } else if 1 <= current <= 9 {
                        lemma_number_run_forward(tokens, cursor + 1, value, current * 100);
                    }
                } else if current == 0 {
                    lemma_number_run_forward(tokens, cursor + 1, value, n as int);
                } else if current >= 20 && current % 10 == 0 && n < 10 {
                    lemma_number_run_forward(tokens, cursor + 1, value, current + n);
                } else if current >= 100 && current % 100 == 0 && n < 100 {
                    lemma_number_run_forward(tokens, cursor + 1, value + current, n as int);
                }
            },
        }
    }
}

/// The number a run of words starting at `idx` adds up to.
pub open spec fn run_total(tokens: Seq<Seq<char>>, idx: int) -> int {
    let (value, current, _) = number_run(tokens, idx, 0, 0);
    value + current
}

proof fn lemma_simple_number_small(w: Seq<char>)
    ensures
        spec_simple_number(w) matches Some(n) ==> n <= 100,
{
}

/// A run only ever adds to what it has read.
proof fn lemma_run_grows(tokens: Seq<Seq<char>>, cursor: int, value: int, current: int)
    requires
        0 <= cursor,
        0 <= value,
        0 <= current,
    ensures
        number_run(tokens, cursor, value, current).0 >= 0,
        number_run(tokens, cursor, value, current).1 >= 0,
        number_run(tokens, cursor, value, current).0 + number_run(tokens, cursor, value, current).1
            >= value + current,
    decreases tokens.len() - cursor,
{
    if cursor < tokens.len() {
        match spec_simple_number(tokens[cursor]) {
            None => {},
            Some(n) => {
                if n == 100 {
                    if current == 0 {
                        lemma_run_grows(tokens, cursor + 1, value, 100);
                    } else if 1 <= current <= 9 {
                        lemma_run_grows(tokens, cursor + 1, value, current * 100);
                    }
                } else if current == 0 {
                    lemma_run_grows(tokens, cursor + 1, value, n as int);
                } else if current >= 20 && current % 10 == 0 && n < 10 {
                    lemma_run_grows(tokens, cursor + 1, value, current + n);
                } else if current >= 100 && current % 100 == 0 && n < 100 {
                    lemma_run_grows(tokens, cursor + 1, value + current, n as int);
                }
            },
        }
    }
}

/// Each word of a run adds at most 900 to it.
pub proof fn lemma_run_total_bounded(tokens: Seq<Seq<char>>, cursor: int, value: int, current: int)
    requires
        0 <= cursor <= tokens.len(),
        0 <= value,
        0 <= current,
    ensures
        number_run(tokens, cursor, value, current).0 + number_run(tokens, cursor, value, current).1
            <= value + current + 900 * (tokens.len() - cursor),
    decreases tokens.len() - cursor,
{
    if cursor < tokens.len() {
        lemma_simple_number_small(tokens[cursor]);
        match spec_simple_number(tokens[cursor]) {
            None => {},
            Some(n) => {
                if n == 100 {
                    if current == 0 {
                        lemma_run_total_bounded(tokens, cursor + 1, value, 100);
                    } else if 1 <= current <= 9 {
                        lemma_run_total_bounded(tokens, cursor + 1, value, current * 100);
                    }
                } else if current == 0 {
                    lemma_run_total_bounded(tokens, cursor + 1, value, n as int);
                } else if current >= 20 && current % 10 == 0 && n < 10 {
                    lemma_run_total_bounded(tokens, cursor + 1, value, current + n);
                } else if current >= 100 && current % 100 == 0 && n < 100 {
                    lemma_run_total_bounded(tokens, cursor + 1, value + current, n as int);
                }
            },
        }
    }
}

/// Parses a compound number word sequence starting at `tokens[idx]`.
///
/// Supports "twenty eight", "one hundred", "one hundred five", ... Consumption
/// is minimal: the sequence stops as soon as the next word cannot combine with
/// the running value, so "three sixteen" parses as 3 followed by 16 rather
/// than one big number. Returns the value and the index one past the consumed
/// words. The number the run adds up to must fit in a `u32`.
pub fn words_to_number(tokens: &[&str], idx: usize) -> (r: Option<(u32, usize)>)
    requires
        run_total(token_views(tokens@), idx as int) <= u32::MAX,
    ensures
        match (r, spec_words_to_number(token_views(tokens@), idx as int)) {
            (None, None) => true,
            (Some((v, end)), Some((sv, send))) => v == sv && end == send,
            _ => false,
        },
        r matches Some((_, end)) ==> idx < end <= tokens.len(),
{
    let ghost tv = token_views(tokens@);
    let mut value: u32 = 0;
    let mut current: u32 = 0;
    let mut cursor: usize = idx;
    proof {
        lemma_run_grows(tv, idx as int, 0, 0);
    }
    while cursor < tokens.len()
        invariant
            run_total(tv, idx as int) <= u32::MAX,
            tv == token_views(tokens@),
            idx <= cursor,
            cursor <= tokens.len() || cursor == idx,
            value + current <= run_total(tv, idx as int),
            number_run(tv, idx as int, 0, 0) == number_run(
                tv,
                cursor as int,
                value as int,
                current as int,
            ),
        ensures
            idx <= cursor,
            cursor <= tokens.len() || cursor == idx,
            number_run(tv, idx as int, 0, 0) == (value as int, current as int, cursor as int),
        decreases tokens.len() - cursor,
    {
        let w = to_chars(tokens[cursor]);
        assert(w@ == tv[cursor as int]);
        proof {
            lemma_simple_number_small(w@);
            match spec_simple_number(w@) {
                Some(n) => {
                    lemma_run_grows(tv, cursor + 1, value as int, 100);
                    lemma_run_grows(tv, cursor + 1, value as int, current * 100);
                    lemma_run_grows(tv, cursor + 1, value as int, n as int);
                    lemma_run_grows(tv, cursor + 1, value as int, current + n);
                    lemma_run_grows(tv, cursor + 1, value + current, n as int);
                },
                None => {},
            }
        }
        let Some(n) = simple_number_chars(&w) else {
            break ;
        };
        if n == 100 {
            if current == 0 {
                current = 100;
            } else if 1 <= current && current <= 9 {
                current = current * 100;
            } else {
                break ;
            }
            cursor = cursor + 1;
            continue ;
        }
        if current == 0 {
            current = n;
            cursor = cursor + 1;
            continue ;
        }
        if current >= 20 && current % 10 == 0 && n < 10 {
            current = current + n;
            cursor = cursor + 1;
            continue ;
        }
        if current >= 100 && current % 100 == 0 && n < 100 {
            value = value + current;
            current = n;
            cursor = cursor + 1;
            continue ;
        }
        break ;
    }
    proof {
        lemma_number_run_forward(tv, cursor as int, value as int, current as int);
    }
    let total = value + current;
    if cursor == idx {
        None
    } else {
        Some((total, cursor))
    }
}

/// Whether a word is a number word or a run of ASCII digits.
pub open spec fn spec_is_number_word(w: Seq<char>) -> bool {
    spec_simple_number(w) is Some || all_digits(w)
}

fn is_number_word_chars(w: &Vec<char>) -> (r: bool)
    ensures
        r == spec_is_number_word(w@),
{
    if simple_number_chars(w).is_some() {
        return true;
    }
    let mut i: usize = 0;
    while i < w.len()
        invariant
            i <= w.len(),
            spec_simple_number(w@) is None,
            all_digits(w@.take(i as int)),
        decreases w.len() - i,
    {
        if !is_ascii_digit(w[i]) {
            assert(!crate::text::is_digit(w@[i as int]));
            assert(!all_digits(w@));
            return false;
        }
        i = i + 1;
        assert forall|k: int| 0 <= k < i implies crate::text::is_digit(
            #[trigger] w@.take(i as int)[k],
        ) by {
            if k < i - 1 {
                assert(w@.take(i as int)[k] == w@.take(i - 1)[k]);
            }
        }
    }
    assert(w@.take(w.len() as int) =~= w@);
    true
}

/// True when the token is a cardinal/ordinal number word.
pub fn is_number_word(word: &str) -> (r: bool)
    ensures
        r == spec_is_number_word(word@),
{
    let w = to_chars(word);
    is_number_word_chars(&w)
}

/// The values of the words for one to nine.
proof fn lemma_unit_word_values()
    ensures
        spec_simple_number("one"@) == Some(1u32),
        spec_simple_number("two"@) == Some(2u32),
        spec_simple_number("three"@) == Some(3u32),
        spec_simple_number("four"@) == Some(4u32),
        spec_simple_number("five"@) == Some(5u32),
        spec_simple_number("six"@) == Some(6u32),
        spec_simple_number("seven"@) == Some(7u32),
        spec_simple_number("eight"@) == Some(8u32),
        spec_simple_number("nine"@) == Some(9u32),
{
    reveal_strlit("zero");
    reveal_strlit("one");
    reveal_strlit("first");
    reveal_strlit("two");
    reveal_strlit("second");
    reveal_strlit("three");
    reveal_strlit("third");
    reveal_strlit("four");
    reveal_strlit("fourth");
    reveal_strlit("five");
    reveal_strlit("fifth");
    reveal_strlit("six");
    reveal_strlit("seven");
    reveal_strlit("eight");
    reveal_strlit("nine");
    assert("one"@.len() == 3 && "zero"@.len() == 4);
    assert(spec_simple_number("one"@) == Some(1u32));
    assert("two"@.len() == 3 && "zero"@.len() == 4);
    assert("two"@[0] == 't' && "one"@[0] == 'o');
    assert("two"@.len() == 3 && "first"@.len() == 5);
    assert(spec_simple_number("two"@) == Some(2u32));
    assert("three"@.len() == 5 && "zero"@.len() == 4);
    assert("three"@.len() == 5 && "one"@.len() == 3);
    assert("three"@[0] == 't' && "first"@[0] == 'f');
    assert("three"@.len() == 5 && "two"@.len() == 3);
    assert("three"@.len() == 5 && "second"@.len() == 6);
    assert(spec_simple_number("three"@) == Some(3u32));
    assert("four"@[0] == 'f' && "zero"@[0] == 'z');
    assert("four"@.len() == 4 && "one"@.len() == 3);
    assert("four"@.len() == 4 && "first"@.len() == 5);
    assert("four"@.len() == 4 && "two"@.len() == 3);
    assert("four"@.len() == 4 && "second"@.len() == 6);
    assert("four"@.len() == 4 && "three"@.len() == 5);
    assert("four"@.len() == 4 && "third"@.len() == 5);
    assert(spec_simple_number("four"@) == Some(4u32));
    assert("five"@[0] == 'f' && "zero"@[0] == 'z');
    assert("five"@.len() == 4 && "one"@.len() == 3);
    assert("five"@.len() == 4 && "first"@.len() == 5);
    assert("five"@.len() == 4 && "two"@.len() == 3);
    assert("five"@.len() == 4 && "second"@.len() == 6);
    assert("five"@.len() == 4 && "three"@.len() == 5);
    assert("five"@.len() == 4 && "third"@.len() == 5);
    assert("five"@[1] == 'i' && "four"@[1] == 'o');
    assert("five"@.len() == 4 && "fourth"@.len() == 6);
    assert(spec_simple_number("five"@) == Some(5u32));
    assert("six"@.len() == 3 && "zero"@.len() == 4);
    assert("six"@[0] == 's' && "one"@[0] == 'o');
    assert("six"@.len() == 3 && "first"@.len() == 5);
    assert("six"@[0] == 's' && "two"@[0] == 't');
    assert("six"@.len() == 3 && "second"@.len() == 6);
    assert("six"@.len() == 3 && "three"@.len() == 5);
    assert("six"@.len() == 3 && "third"@.len() == 5);
    assert("six"@.len() == 3 && "four"@.len() == 4);
    assert("six"@.len() == 3 && "fourth"@.len() == 6);
    assert("six"@.len() == 3 && "five"@.len() == 4);
    assert("six"@.len() == 3 && "fifth"@.len() == 5);
    assert(spec_simple_number("six"@) == Some(6u32));
    assert("seven"@.len() == 5 && "zero"@.len() == 4);
    assert("seven"@.len() == 5 && "one"@.len() == 3);
    assert("seven"@[0] == 's' && "first"@[0] == 'f');
    assert("seven"@.len() == 5 && "two"@.len() == 3);
    assert("seven"@.len() == 5 && "second"@.len() == 6);
    assert("seven"@[0] == 's' && "three"@[0] == 't');
    assert("seven"@[0] == 's' && "third"@[0] == 't');
    assert("seven"@.len() == 5 && "four"@.len() == 4);
    assert("seven"@.len() == 5 && "fourth"@.len() == 6);
    assert("seven"@.len() == 5 && "five"@.len() == 4);
    assert("seven"@[0] == 's' && "fifth"@[0] == 'f');
    assert("seven"@.len() == 5 && "six"@.len() == 3);
    assert(spec_simple_number("seven"@) == Some(7u32));
    assert("eight"@.len() == 5 && "zero"@.len() == 4);
    assert("eight"@.len() == 5 && "one"@.len() == 3);
    assert("eight"@[0] == 'e' && "first"@[0] == 'f');
    assert("eight"@.len() == 5 && "two"@.len() == 3);
    assert("eight"@.len() == 5 && "second"@.len() == 6);
    assert("eight"@[0] == 'e' && "three"@[0] == 't');
    assert("eight"@[0] == 'e' && "third"@[0] == 't');
    assert("eight"@.len() == 5 && "four"@.len() == 4);
    assert("eight"@.len() == 5 && "fourth"@.len() == 6);
    assert("eight"@.len() == 5 && "five"@.len() == 4);
    assert("eight"@[0] == 'e' && "fifth"@[0] == 'f');
    assert("eight"@.len() == 5 && "six"@.len() == 3);
    assert("eight"@[0] == 'e' && "seven"@[0] == 's');
    assert(spec_simple_number("eight"@) == Some(8u32));
    assert("nine"@[0] == 'n' && "zero"@[0] == 'z');
    assert("nine"@.len() == 4 && "one"@.len() == 3);
    assert("nine"@.len() == 4 && "first"@.len() == 5);
    assert("nine"@.len() == 4 && "two"@.len() == 3);
    assert("nine"@.len() == 4 && "second"@.len() == 6);
    assert("nine"@.len() == 4 && "three"@.len() == 5);
    assert("nine"@.len() == 4 && "third"@.len() == 5);
    assert("nine"@[0] == 'n' && "four"@[0] == 'f');
    assert("nine"@.len() == 4 && "fourth"@.len() == 6);
    assert("nine"@[0] == 'n' && "five"@[0] == 'f');
    assert("nine"@.len() == 4 && "fifth"@.len() == 5);
    assert("nine"@.len() == 4 && "six"@.len() == 3);
    assert("nine"@.len() == 4 && "seven"@.len() == 5);
    assert("nine"@.len() == 4 && "eight"@.len() == 5);
    assert(spec_simple_number("nine"@) == Some(9u32));
}

/// The values of the words for ten to nineteen.
proof fn lemma_teen_word_values()
    ensures
        spec_simple_number("ten"@) == Some(10u32),
        spec_simple_number("eleven"@) == Some(11u32),
        spec_simple_number("twelve"@) == Some(12u32),
        spec_simple_number("thirteen"@) == Some(13u32),
        spec_simple_number("fourteen"@) == Some(14u32),
        spec_simple_number("fifteen"@) == Some(15u32),
        spec_simple_number("sixteen"@) == Some(16u32),
        spec_simple_number("seventeen"@) == Some(17u32),
        spec_simple_number("eighteen"@) == Some(18u32),
        spec_simple_number("nineteen"@) == Some(19u32),
{
    reveal_strlit("zero");
    reveal_strlit("one");
    reveal_strlit("first");
    reveal_strlit("two");
    reveal_strlit("second");
    reveal_strlit("three");
    reveal_strlit("third");
    reveal_strlit("four");
    reveal_strlit("fourth");
    reveal_strlit("five");
    reveal_strlit("fifth");
    reveal_strlit("six");
    reveal_strlit("seven");
    reveal_strlit("eight");
    reveal_strlit("nine");
    reveal_strlit("ten");
    reveal_strlit("eleven");
    reveal_strlit("twelve");
    reveal_strlit("thirteen");
    reveal_strlit("fourteen");
    reveal_strlit("fifteen");
    reveal_strlit("sixteen");
    reveal_strlit("seventeen");
    reveal_strlit("eighteen");
    reveal_strlit("nineteen");
    assert("ten"@.len() == 3 && "zero"@.len() == 4);
    assert("ten"@[0] == 't' && "one"@[0] == 'o');
    assert("ten"@.len() == 3 && "first"@.len() == 5);
    assert("ten"@[1] == 'e' && "two"@[1] == 'w');
    assert("ten"@.len() == 3 && "second"@.len() == 6);
    assert("ten"@.len() == 3 && "three"@.len() == 5);
    assert("ten"@.len() == 3 && "third"@.len() == 5);
    assert("ten"@.len() == 3 && "four"@.len() == 4);
    assert("ten"@.len() == 3 && "fourth"@.len() == 6);
    assert("ten"@.len() == 3 && "five"@.len() == 4);
    assert("ten"@.len() == 3 && "fifth"@.len() == 5);
    assert("ten"@[0] == 't' && "six"@[0] == 's');
    assert("ten"@.len() == 3 && "seven"@.len() == 5);
    assert("ten"@.len() == 3 && "eight"@.len() == 5);
    assert("ten"@.len() == 3 && "nine"@.len() == 4);
    assert(spec_simple_number("ten"@) == Some(10u32));
    assert("eleven"@.len() == 6 && "zero"@.len() == 4);
    assert("eleven"@.len() == 6 && "one"@.len() == 3);
    assert("eleven"@.len() == 6 && "first"@.len() == 5);
    assert("eleven"@.len() == 6 && "two"@.len() == 3);
    assert("eleven"@[0] == 'e' && "second"@[0] == 's');
    assert("eleven"@.len() == 6 && "three"@.len() == 5);
    assert("eleven"@.len() == 6 && "third"@.len() == 5);
    assert("eleven"@.len() == 6 && "four"@.len() == 4);
    assert("eleven"@[0] == 'e' && "fourth"@[0] == 'f');
    assert("eleven"@.len() == 6 && "five"@.len() == 4);
    assert("eleven"@.len() == 6 && "fifth"@.len() == 5);
    assert("eleven"@.len() == 6 && "six"@.len() == 3);
    assert("eleven"@.len() == 6 && "seven"@.len() == 5);
    assert("eleven"@.len() == 6 && "eight"@.len() == 5);
    assert("eleven"@.len() == 6 && "nine"@.len() == 4);
    assert("eleven"@.len() == 6 && "ten"@.len() == 3);
    assert(spec_simple_number("eleven"@) == Some(11u32));
    assert("twelve"@.len() == 6 && "zero"@.len() == 4);
    assert("twelve"@.len() == 6 && "one"@.len() == 3);
    assert("twelve"@.len() == 6 && "first"@.len() == 5);
    assert("twelve"@.len() == 6 && "two"@.len() == 3);
    assert("twelve"@[0] == 't' && "second"@[0] == 's');
    assert("twelve"@.len() == 6 && "three"@.len() == 5);
    assert("twelve"@.len() == 6 && "third"@.len() == 5);
    assert("twelve"@.len() == 6 && "four"@.len() == 4);
    assert("twelve"@[0] == 't' && "fourth"@[0] == 'f');
    assert("twelve"@.len() == 6 && "five"@.len() == 4);
    assert("twelve"@.len() == 6 && "fifth"@.len() == 5);
    assert("twelve"@.len() == 6 && "six"@.len() == 3);
    assert("twelve"@.len() == 6 && "seven"@.len() == 5);
    assert("twelve"@.len() == 6 && "eight"@.len() == 5);
    assert("twelve"@.len() == 6 && "nine"@.len() == 4);
    assert("twelve"@.len() == 6 && "ten"@.len() == 3);
    assert("twelve"@[0] == 't' && "eleven"@[0] == 'e');
    assert(spec_simple_number("twelve"@) == Some(12u32));
    assert("thirteen"@.len() == 8 && "zero"@.len() == 4);
    assert("thirteen"@.len() == 8 && "one"@.len() == 3);
    assert("thirteen"@.len() == 8 && "first"@.len() == 5);
    assert("thirteen"@.len() == 8 && "two"@.len() == 3);
    assert("thirteen"@.len() == 8 && "second"@.len() == 6);
    assert("thirteen"@.len() == 8 && "three"@.len() == 5);
    assert("thirteen"@.len() == 8 && "third"@.len() == 5);
    assert("thirteen"@.len() == 8 && "four"@.len() == 4);
    assert("thirteen"@.len() == 8 && "fourth"@.len() == 6);
    assert("thirteen"@.len() == 8 && "five"@.len() == 4);
    assert("thirteen"@.len() == 8 && "fifth"@.len() == 5);
    assert("thirteen"@.len() == 8 && "six"@.len() == 3);
    assert("thirteen"@.len() == 8 && "seven"@.len() == 5);
    assert("thirteen"@.len() == 8 && "eight"@.len() == 5);
    assert("thirteen"@.len() == 8 && "nine"@.len() == 4);
    assert("thirteen"@.len() == 8 && "ten"@.len() == 3);
    assert("thirteen"@.len() == 8 && "eleven"@.len() == 6);
    assert("thirteen"@.len() == 8 && "twelve"@.len() == 6);
    assert(spec_simple_number("thirteen"@) == Some(13u32));
    assert("fourteen"@.len() == 8 && "zero"@.len() == 4);
    assert("fourteen"@.len() == 8 && "one"@.len() == 3);
    assert("fourteen"@.len() == 8 && "first"@.len() == 5);
    assert("fourteen"@.len() == 8 && "two"@.len() == 3);
    assert("fourteen"@.len() == 8 && "second"@.len() == 6);
    assert("fourteen"@.len() == 8 && "three"@.len() == 5);
    assert("fourteen"@.len() == 8 && "third"@.len() == 5);
    assert("fourteen"@.len() == 8 && "four"@.len() == 4);
    assert("fourteen"@.len() == 8 && "fourth"@.len() == 6);
    assert("fourteen"@.len() == 8 && "five"@.len() == 4);
    assert("fourteen"@.len() == 8 && "fifth"@.len() == 5);
    assert("fourteen"@.len() == 8 && "six"@.len() == 3);
    assert("fourteen"@.len() == 8 && "seven"@.len() == 5);
    assert("fourteen"@.len() == 8 && "eight"@.len() == 5);
    assert("fourteen"@.len() == 8 && "nine"@.len() == 4);
    assert("fourteen"@.len() == 8 && "ten"@.len() == 3);
    assert("fourteen"@.len() == 8 && "eleven"@.len() == 6);
    assert("fourteen"@.len() == 8 && "twelve"@.len() == 6);
    assert("fourteen"@[0] == 'f' && "thirteen"@[0] == 't');
    assert(spec_simple_number("fourteen"@) == Some(14u32));
    assert("fifteen"@.len() == 7 && "zero"@.len() == 4);
    assert("fifteen"@.len() == 7 && "one"@.len() == 3);
    assert("fifteen"@.len() == 7 && "first"@.len() == 5);
    assert("fifteen"@.len() == 7 && "two"@.len() == 3);
    assert("fifteen"@.len() == 7 && "second"@.len() == 6);
    assert("fifteen"@.len() == 7 && "three"@.len() == 5);
    assert("fifteen"@.len() == 7 && "third"@.len() == 5);
    assert("fifteen"@.len() == 7 && "four"@.len() == 4);
    assert("fifteen"@.len() == 7 && "fourth"@.len() == 6);
    assert("fifteen"@.len() == 7 && "five"@.len() == 4);
    assert("fifteen"@.len() == 7 && "fifth"@.len() == 5);
    assert("fifteen"@.len() == 7 && "six"@.len() == 3);
    assert("fifteen"@.len() == 7 && "seven"@.len() == 5);
    assert("fifteen"@.len() == 7 && "eight"@.len() == 5);
    assert("fifteen"@.len() == 7 && "nine"@.len() == 4);
    assert("fifteen"@.len() == 7 && "ten"@.len() == 3);
    assert("fifteen"@.len() == 7 && "eleven"@.len() == 6);
    assert("fifteen"@.len() == 7 && "twelve"@.len() == 6);
    assert("fifteen"@.len() == 7 && "thirteen"@.len() == 8);
    assert("fifteen"@.len() == 7 && "fourteen"@.len() == 8);
    assert(spec_simple_number("fifteen"@) == Some(15u32));
    assert("sixteen"@.len() == 7 && "zero"@.len() == 4);
    assert("sixteen"@.len() == 7 && "one"@.len() == 3);
    assert("sixteen"@.len() == 7 && "first"@.len() == 5);
    assert("sixteen"@.len() == 7 && "two"@.len() == 3);
    assert("sixteen"@.len() == 7 && "second"@.len() == 6);
    assert("sixteen"@.len() == 7 && "three"@.len() == 5);
    assert("sixteen"@.len() == 7 && "third"@.len() == 5);
    assert("sixteen"@.len() == 7 && "four"@.len() == 4);
    assert("sixteen"@.len() == 7 && "fourth"@.len() == 6);
    assert("sixteen"@.len() == 7 && "five"@.len() == 4);
    assert("sixteen"@.len() == 7 && "fifth"@.len() == 5);
    assert("sixteen"@.len() == 7 && "six"@.len() == 3);
    assert("sixteen"@.len() == 7 && "seven"@.len() == 5);
    assert("sixteen"@.len() == 7 && "eight"@.len() == 5);
    assert("sixteen"@.len() == 7 && "nine"@.len() == 4);
    assert("sixteen"@.len() == 7 && "ten"@.len() == 3);
    assert("sixteen"@.len() == 7 && "eleven"@.len() == 6);
    assert("sixteen"@.len() == 7 && "twelve"@.len() == 6);
    assert("sixteen"@.len() == 7 && "thirteen"@.len() == 8);
    assert("sixteen"@.len() == 7 && "fourteen"@.len() == 8);
    assert("sixteen"@[0] == 's' && "fifteen"@[0] == 'f');
    assert(spec_simple_number("sixteen"@) == Some(16u32));
    assert("seventeen"@.len() == 9 && "zero"@.len() == 4);
    assert("seventeen"@.len() == 9 && "one"@.len() == 3);
    assert("seventeen"@.len() == 9 && "first"@.len() == 5);
    assert("seventeen"@.len() == 9 && "two"@.len() == 3);
    assert("seventeen"@.len() == 9 && "second"@.len() == 6);
    assert("seventeen"@.len() == 9 && "three"@.len() == 5);
    assert("seventeen"@.len() == 9 && "third"@.len() == 5);
    assert("seventeen"@.len() == 9 && "four"@.len() == 4);
    assert("seventeen"@.len() == 9 && "fourth"@.len() == 6);
    assert("seventeen"@.len() == 9 && "five"@.len() == 4);
    assert("seventeen"@.len() == 9 && "fifth"@.len() == 5);
    assert("seventeen"@.len() == 9 && "six"@.len() == 3);
    assert("seventeen"@.len() == 9 && "seven"@.len() == 5);
    assert("seventeen"@.len() == 9 && "eight"@.len() == 5);
    assert("seventeen"@.len() == 9 && "nine"@.len() == 4);
    assert("seventeen"@.len() == 9 && "ten"@.len() == 3);
    assert("seventeen"@.len() == 9 && "eleven"@.len() == 6);
    assert("seventeen"@.len() == 9 && "twelve"@.len() == 6);
    assert("seventeen"@.len() == 9 && "thirteen"@.len() == 8);
    assert("seventeen"@.len() == 9 && "fourteen"@.len() == 8);
    assert("seventeen"@.len() == 9 && "fifteen"@.len() == 7);
    assert("seventeen"@.len() == 9 && "sixteen"@.len() == 7);
    assert(spec_simple_number("seventeen"@) == Some(17u32));
    assert("eighteen"@.len() == 8 && "zero"@.len() == 4);
    assert("eighteen"@.len() == 8 && "one"@.len() == 3);
    assert("eighteen"@.len() == 8 && "first"@.len() == 5);
    assert("eighteen"@.len() == 8 && "two"@.len() == 3);
    assert("eighteen"@.len() == 8 && "second"@.len() == 6);
    assert("eighteen"@.len() == 8 && "three"@.len() == 5);
    assert("eighteen"@.len() == 8 && "third"@.len() == 5);
    assert("eighteen"@.len() == 8 && "four"@.len() == 4);
    assert("eighteen"@.len() == 8 && "fourth"@.len() == 6);
    assert("eighteen"@.len() == 8 && "five"@.len() == 4);
    assert("eighteen"@.len() == 8 && "fifth"@.len() == 5);
    assert("eighteen"@.len() == 8 && "six"@.len() == 3);
    assert("eighteen"@.len() == 8 && "seven"@.len() == 5);
    assert("eighteen"@.len() == 8 && "eight"@.len() == 5);
    assert("eighteen"@.len() == 8 && "nine"@.len() == 4);
    assert("eighteen"@.len() == 8 && "ten"@.len() == 3);
    assert("eighteen"@.len() == 8 && "eleven"@.len() == 6);
    assert("eighteen"@.len() == 8 && "twelve"@.len() == 6);
    assert("eighteen"@[0] == 'e' && "thirteen"@[0] == 't');
    assert("eighteen"@[0] == 'e' && "fourteen"@[0] == 'f');
    assert("eighteen"@.len() == 8 && "fifteen"@.len() == 7);
    assert("eighteen"@.len() == 8 && "sixteen"@.len() == 7);
    assert("eighteen"@.len() == 8 && "seventeen"@.len() == 9);
    assert(spec_simple_number("eighteen"@) == Some(18u32));
    assert("nineteen"@.len() == 8 && "zero"@.len() == 4);
    assert("nineteen"@.len() == 8 && "one"@.len() == 3);
    assert("nineteen"@.len() == 8 && "first"@.len() == 5);
    assert("nineteen"@.len() == 8 && "two"@.len() == 3);
    assert("nineteen"@.len() == 8 && "second"@.len() == 6);
    assert("nineteen"@.len() == 8 && "three"@.len() == 5);
    assert("nineteen"@.len() == 8 && "third"@.len() == 5);
    assert("nineteen"@.len() == 8 && "four"@.len() == 4);
    assert("nineteen"@.len() == 8 && "fourth"@.len() == 6);
    assert("nineteen"@.len() == 8 && "five"@.len() == 4);
    assert("nineteen"@.len() == 8 && "fifth"@.len() == 5);
    assert("nineteen"@.len() == 8 && "six"@.len() == 3);
    assert("nineteen"@.len() == 8 && "seven"@.len() == 5);
    assert("nineteen"@.len() == 8 && "eight"@.len() == 5);
    assert("nineteen"@.len() == 8 && "nine"@.len() == 4);
    assert("nineteen"@.len() == 8 && "ten"@.len() == 3);
    assert("nineteen"@.len() == 8 && "eleven"@.len() == 6);
    assert("nineteen"@.len() == 8 && "twelve"@.len() == 6);
    assert("nineteen"@[0] == 'n' && "thirteen"@[0] == 't');
    assert("nineteen"@[0] == 'n' && "fourteen"@[0] == 'f');
    assert("nineteen"@.len() == 8 && "fifteen"@.len() == 7);
    assert("nineteen"@.len() == 8 && "sixteen"@.len() == 7);
    assert("nineteen"@.len() == 8 && "seventeen"@.len() == 9);
    assert("nineteen"@[0] == 'n' && "eighteen"@[0] == 'e');
    assert(spec_simple_number("nineteen"@) == Some(19u32));
}

/// The values of the words for the tens and for a hundred.
proof fn lemma_tens_word_values()
    ensures
        spec_simple_number("twenty"@) == Some(20u32),
        spec_simple_number("thirty"@) == Some(30u32),
        spec_simple_number("forty"@) == Some(40u32),
        spec_simple_number("fifty"@) == Some(50u32),
        spec_simple_number("sixty"@) == Some(60u32),
        spec_simple_number("seventy"@) == Some(70u32),
        spec_simple_number("eighty"@) == Some(80u32),
        spec_simple_number("ninety"@) == Some(90u32),
        spec_simple_number("hundred"@) == Some(100u32),
{
    reveal_strlit("zero");
    reveal_strlit("one");
    reveal_strlit("first");
    reveal_strlit("two");
    reveal_strlit("second");
    reveal_strlit("three");
    reveal_strlit("third");
    reveal_strlit("four");
    reveal_strlit("fourth");
    reveal_strlit("five");
    reveal_strlit("fifth");
    reveal_strlit("six");
    reveal_strlit("seven");
    reveal_strlit("eight");
    reveal_strlit("nine");
    reveal_strlit("ten");
    reveal_strlit("eleven");
    reveal_strlit("twelve");
    reveal_strlit("thirteen");
    reveal_strlit("fourteen");
    reveal_strlit("fifteen");
    reveal_strlit("sixteen");
    reveal_strlit("seventeen");
    reveal_strlit("eighteen");
    reveal_strlit("nineteen");
    reveal_strlit("twenty");
    reveal_strlit("thirty");
    reveal_strlit("forty");
    reveal_strlit("fifty");
    reveal_strlit("sixty");
    reveal_strlit("seventy");
    reveal_strlit("eighty");
    reveal_strlit("ninety");
    reveal_strlit("hundred");
    assert("twenty"@.len() == 6 && "zero"@.len() == 4);
    assert("twenty"@.len() == 6 && "one"@.len() == 3);
    assert("twenty"@.len() == 6 && "first"@.len() == 5);
    assert("twenty"@.len() == 6 && "two"@.len() == 3);
    assert("twenty"@[0] == 't' && "second"@[0] == 's');
    assert("twenty"@.len() == 6 && "three"@.len() == 5);
    assert("twenty"@.len() == 6 && "third"@.len() == 5);
    assert("twenty"@.len() == 6 && "four"@.len() == 4);
    assert("twenty"@[0] == 't' && "fourth"@[0] == 'f');
    assert("twenty"@.len() == 6 && "five"@.len() == 4);
    assert("twenty"@.len() == 6 && "fifth"@.len() == 5);
    assert("twenty"@.len() == 6 && "six"@.len() == 3);
    assert("twenty"@.len() == 6 && "seven"@.len() == 5);
    assert("twenty"@.len() == 6 && "eight"@.len() == 5);
    assert("twenty"@.len() == 6 && "nine"@.len() == 4);
    assert("twenty"@.len() == 6 && "ten"@.len() == 3);
    assert("twenty"@[0] == 't' && "eleven"@[0] == 'e');
    assert("twenty"@[3] == 'n' && "twelve"@[3] == 'l');
    assert("twenty"@.len() == 6 && "thirteen"@.len() == 8);
    assert("twenty"@.len() == 6 && "fourteen"@.len() == 8);
    assert("twenty"@.len() == 6 && "fifteen"@.len() == 7);
    assert("twenty"@.len() == 6 && "sixteen"@.len() == 7);
    assert("twenty"@.len() == 6 && "seventeen"@.len() == 9);
    assert("twenty"@.len() == 6 && "eighteen"@.len() == 8);
    assert("twenty"@.len() == 6 && "nineteen"@.len() == 8);
    assert(spec_simple_number("twenty"@) == Some(20u32));
    assert("thirty"@.len() == 6 && "zero"@.len() == 4);
    assert("thirty"@.len() == 6 && "one"@.len() == 3);
    assert("thirty"@.len() == 6 && "first"@.len() == 5);
    assert("thirty"@.len() == 6 && "two"@.len() == 3);
    assert("thirty"@[0] == 't' && "second"@[0] == 's');
    assert("thirty"@.len() == 6 && "three"@.len() == 5);
    assert("thirty"@.len() == 6 && "third"@.len() == 5);
    assert("thirty"@.len() == 6 && "four"@.len() == 4);
    assert("thirty"@[0] == 't' && "fourth"@[0] == 'f');
    assert("thirty"@.len() == 6 && "five"@.len() == 4);
    assert("thirty"@.len() == 6 && "fifth"@.len() == 5);
    assert("thirty"@.len() == 6 && "six"@.len() == 3);
    assert("thirty"@.len() == 6 && "seven"@.len() == 5);
    assert("thirty"@.len() == 6 && "eight"@.len() == 5);
    assert("thirty"@.len() == 6 && "nine"@.len() == 4);
    assert("thirty"@.len() == 6 && "ten"@.len() == 3);
    assert("thirty"@[0] == 't' && "eleven"@[0] == 'e');
    assert("thirty"@[1] == 'h' && "twelve"@[1] == 'w');
    assert("thirty"@.len() == 6 && "thirteen"@.len() == 8);
    assert("thirty"@.len() == 6 && "fourteen"@.len() == 8);
    assert("thirty"@.len() == 6 && "fifteen"@.len() == 7);
    assert("thirty"@.len() == 6 && "sixteen"@.len() == 7);
    assert("thirty"@.len() == 6 && "seventeen"@.len() == 9);
    assert("thirty"@.len() == 6 && "eighteen"@.len() == 8);
    assert("thirty"@.len() == 6 && "nineteen"@.len() == 8);
    assert("thirty"@[1] == 'h' && "twenty"@[1] == 'w');
    assert(spec_simple_number("thirty"@) == Some(30u32));
    assert("forty"@.len() == 5 && "zero"@.len() == 4);
    assert("forty"@.len() == 5 && "one"@.len() == 3);
    assert("forty"@[1] == 'o' && "first"@[1] == 'i');
    assert("forty"@.len() == 5 && "two"@.len() == 3);
    assert("forty"@.len() == 5 && "second"@.len() == 6);
    assert("forty"@[0] == 'f' && "three"@[0] == 't');
    assert("forty"@[0] == 'f' && "third"@[0] == 't');
    assert("forty"@.len() == 5 && "four"@.len() == 4);
    assert("forty"@.len() == 5 && "fourth"@.len() == 6);
    assert("forty"@.len() == 5 && "five"@.len() == 4);
    assert("forty"@[1] == 'o' && "fifth"@[1] == 'i');
    assert("forty"@.len() == 5 && "six"@.len() == 3);
    assert("forty"@[0] == 'f' && "seven"@[0] == 's');
    assert("forty"@[0] == 'f' && "eight"@[0] == 'e');
    assert("forty"@.len() == 5 && "nine"@.len() == 4);
    assert("forty"@.len() == 5 && "ten"@.len() == 3);
    assert("forty"@.len() == 5 && "eleven"@.len() == 6);
    assert("forty"@.len() == 5 && "twelve"@.len() == 6);
    assert("forty"@.len() == 5 && "thirteen"@.len() == 8);
    assert("forty"@.len() == 5 && "fourteen"@.len() == 8);
    assert("forty"@.len() == 5 && "fifteen"@.len() == 7);
    assert("forty"@.len() == 5 && "sixteen"@.len() == 7);
    assert("forty"@.len() == 5 && "seventeen"@.len() == 9);
    assert("forty"@.len() == 5 && "eighteen"@.len() == 8);
    assert("forty"@.len() == 5 && "nineteen"@.len() == 8);
    assert("forty"@.len() == 5 && "twenty"@.len() == 6);
    assert("forty"@.len() == 5 && "thirty"@.len() == 6);
    assert(spec_simple_number("forty"@) == Some(40u32));
    assert("fifty"@.len() == 5 && "zero"@.len() == 4);
    assert("fifty"@.len() == 5 && "one"@.len() == 3);
    assert("fifty"@[2] == 'f' && "first"@[2] == 'r');
    assert("fifty"@.len() == 5 && "two"@.len() == 3);
    assert("fifty"@.len() == 5 && "second"@.len() == 6);
    assert("fifty"@[0] == 'f' && "three"@[0] == 't');
    assert("fifty"@[0] == 'f' && "third"@[0] == 't');
    assert("fifty"@.len() == 5 && "four"@.len() == 4);
    assert("fifty"@.len() == 5 && "fourth"@.len() == 6);
    assert("fifty"@.len() == 5 && "five"@.len() == 4);
    assert("fifty"@[4] == 'y' && "fifth"@[4] == 'h');
    assert("fifty"@.len() == 5 && "six"@.len() == 3);
    assert("fifty"@[0] == 'f' && "seven"@[0] == 's');
    assert("fifty"@[0] == 'f' && "eight"@[0] == 'e');
    assert("fifty"@.len() == 5 && "nine"@.len() == 4);
    assert("fifty"@.len() == 5 && "ten"@.len() == 3);
    assert("fifty"@.len() == 5 && "eleven"@.len() == 6);
    assert("fifty"@.len() == 5 && "twelve"@.len() == 6);
    assert("fifty"@.len() == 5 && "thirteen"@.len() == 8);
    assert("fifty"@.len() == 5 && "fourteen"@.len() == 8);
    assert("fifty"@.len() == 5 && "fifteen"@.len() == 7);
    assert("fifty"@.len() == 5 && "sixteen"@.len() == 7);
    assert("fifty"@.len() == 5 && "seventeen"@.len() == 9);
    assert("fifty"@.len() == 5 && "eighteen"@.len() == 8);
    assert("fifty"@.len() == 5 && "nineteen"@.len() == 8);
    assert("fifty"@.len() == 5 && "twenty"@.len() == 6);
    assert("fifty"@.len() == 5 && "thirty"@.len() == 6);
    assert("fifty"@[1] == 'i' && "forty"@[1] == 'o');
    assert(spec_simple_number("fifty"@) == Some(50u32));
    assert("sixty"@.len() == 5 && "zero"@.len() == 4);
    assert("sixty"@.len() == 5 && "one"@.len() == 3);
    assert("sixty"@[0] == 's' && "first"@[0] == 'f');
    assert("sixty"@.len() == 5 && "two"@.len() == 3);
    assert("sixty"@.len() == 5 && "second"@.len() == 6);
    assert("sixty"@[0] == 's' && "three"@[0] == 't');
    assert("sixty"@[0] == 's' && "third"@[0] == 't');
    assert("sixty"@.len() == 5 && "four"@.len() == 4);
    assert("sixty"@.len() == 5 && "fourth"@.len() == 6);
    assert("sixty"@.len() == 5 && "five"@.len() == 4);
    assert("sixty"@[0] == 's' && "fifth"@[0] == 'f');
    assert("sixty"@.len() == 5 && "six"@.len() == 3);
    assert("sixty"@[1] == 'i' && "seven"@[1] == 'e');
    assert("sixty"@[0] == 's' && "eight"@[0] == 'e');
    assert("sixty"@.len() == 5 && "nine"@.len() == 4);
    assert("sixty"@.len() == 5 && "ten"@.len() == 3);
    assert("sixty"@.len() == 5 && "eleven"@.len() == 6);
    assert("sixty"@.len() == 5 && "twelve"@.len() == 6);
    assert("sixty"@.len() == 5 && "thirteen"@.len() == 8);
    assert("sixty"@.len() == 5 && "fourteen"@.len() == 8);
    assert("sixty"@.len() == 5 && "fifteen"@.len() == 7);
    assert("sixty"@.len() == 5 && "sixteen"@.len() == 7);
    assert("sixty"@.len() == 5 && "seventeen"@.len() == 9);
    assert("sixty"@.len() == 5 && "eighteen"@.len() == 8);
    assert("sixty"@.len() == 5 && "nineteen"@.len() == 8);
    assert("sixty"@.len() == 5 && "twenty"@.len() == 6);
    assert("sixty"@.len() == 5 && "thirty"@.len() == 6);
    assert("sixty"@[0] == 's' && "forty"@[0] == 'f');
    assert("sixty"@[0] == 's' && "fifty"@[0] == 'f');
    assert(spec_simple_number("sixty"@) == Some(60u32));
    assert("seventy"@.len() == 7 && "zero"@.len() == 4);
    assert("seventy"@.len() == 7 && "one"@.len() == 3);
    assert("seventy"@.len() == 7 && "first"@.len() == 5);
    assert("seventy"@.len() == 7 && "two"@.len() == 3);
    assert("seventy"@.len() == 7 && "second"@.len() == 6);
    assert("seventy"@.len() == 7 && "three"@.len() == 5);
    assert("seventy"@.len() == 7 && "third"@.len() == 5);
    assert("seventy"@.len() == 7 && "four"@.len() == 4);
    assert("seventy"@.len() == 7 && "fourth"@.len() == 6);
    assert("seventy"@.len() == 7 && "five"@.len() == 4);
    assert("seventy"@.len() == 7 && "fifth"@.len() == 5);
    assert("seventy"@.len() == 7 && "six"@.len() == 3);
    assert("seventy"@.len() == 7 && "seven"@.len() == 5);
    assert("seventy"@.len() == 7 && "eight"@.len() == 5);
    assert("seventy"@.len() == 7 && "nine"@.len() == 4);
    assert("seventy"@.len() == 7 && "ten"@.len() == 3);
    assert("seventy"@.len() == 7 && "eleven"@.len() == 6);
    assert("seventy"@.len() == 7 && "twelve"@.len() == 6);
    assert("seventy"@.len() == 7 && "thirteen"@.len() == 8);
    assert("seventy"@.len() == 7 && "fourteen"@.len() == 8);
    assert("seventy"@[0] == 's' && "fifteen"@[0] == 'f');
    assert("seventy"@[1] == 'e' && "sixteen"@[1] == 'i');
    assert("seventy"@.len() == 7 && "seventeen"@.len() == 9);
    assert("seventy"@.len() == 7 && "eighteen"@.len() == 8);
    assert("seventy"@.len() == 7 && "nineteen"@.len() == 8);
    assert("seventy"@.len() == 7 && "twenty"@.len() == 6);
    assert("seventy"@.len() == 7 && "thirty"@.len() == 6);
    assert("seventy"@.len() == 7 && "forty"@.len() == 5);
    assert("seventy"@.len() == 7 && "fifty"@.len() == 5);
    assert("seventy"@.len() == 7 && "sixty"@.len() == 5);
    assert(spec_simple_number("seventy"@) == Some(70u32));
    assert("eighty"@.len() == 6 && "zero"@.len() == 4);
    assert("eighty"@.len() == 6 && "one"@.len() == 3);
    assert("eighty"@.len() == 6 && "first"@.len() == 5);
    assert("eighty"@.len() == 6 && "two"@.len() == 3);
    assert("eighty"@[0] == 'e' && "second"@[0] == 's');
    assert("eighty"@.len() == 6 && "three"@.len() == 5);
    assert("eighty"@.len() == 6 && "third"@.len() == 5);
    assert("eighty"@.len() == 6 && "four"@.len() == 4);
    assert("eighty"@[0] == 'e' && "fourth"@[0] == 'f');
    assert("eighty"@.len() == 6 && "five"@.len() == 4);
    assert("eighty"@.len() == 6 && "fifth"@.len() == 5);
    assert("eighty"@.len() == 6 && "six"@.len() == 3);
    assert("eighty"@.len() == 6 && "seven"@.len() == 5);
    assert("eighty"@.len() == 6 && "eight"@.len() == 5);
    assert("eighty"@.len() == 6 && "nine"@.len() == 4);
    assert("eighty"@.len() == 6 && "ten"@.len() == 3);
    assert("eighty"@[1] == 'i' && "eleven"@[1] == 'l');
    assert("eighty"@[0] == 'e' && "twelve"@[0] == 't');
    assert("eighty"@.len() == 6 && "thirteen"@.len() == 8);
    assert("eighty"@.len() == 6 && "fourteen"@.len() == 8);
    assert("eighty"@.len() == 6 && "fifteen"@.len() == 7);
    assert("eighty"@.len() == 6 && "sixteen"@.len() == 7);
    assert("eighty"@.len() == 6 && "seventeen"@.len() == 9);
    assert("eighty"@.len() == 6 && "eighteen"@.len() == 8);
    assert("eighty"@.len() == 6 && "nineteen"@.len() == 8);
    assert("eighty"@[0] == 'e' && "twenty"@[0] == 't');
    assert("eighty"@[0] == 'e' && "thirty"@[0] == 't');
    assert("eighty"@.len() == 6 && "forty"@.len() == 5);
    assert("eighty"@.len() == 6 && "fifty"@.len() == 5);
    assert("eighty"@.len() == 6 && "sixty"@.len() == 5);
    assert("eighty"@.len() == 6 && "seventy"@.len() == 7);
    assert(spec_simple_number("eighty"@) == Some(80u32));
    assert("ninety"@.len() == 6 && "zero"@.len() == 4);
    assert("ninety"@.len() == 6 && "one"@.len() == 3);
    assert("ninety"@.len() == 6 && "first"@.len() == 5);
    assert("ninety"@.len() == 6 && "two"@.len() == 3);
    assert("ninety"@[0] == 'n' && "second"@[0] == 's');
    assert("ninety"@.len() == 6 && "three"@.len() == 5);
    assert("ninety"@.len() == 6 && "third"@.len() == 5);
    assert("ninety"@.len() == 6 && "four"@.len() == 4);
    assert("ninety"@[0] == 'n' && "fourth"@[0] == 'f');
    assert("ninety"@.len() == 6 && "five"@.len() == 4);
    assert("ninety"@.len() == 6 && "fifth"@.len() == 5);
    assert("ninety"@.len() == 6 && "six"@.len() == 3);
    assert("ninety"@.len() == 6 && "seven"@.len() == 5);
    assert("ninety"@.len() == 6 && "eight"@.len() == 5);
    assert("ninety"@.len() == 6 && "nine"@.len() == 4);
    assert("ninety"@.len() == 6 && "ten"@.len() == 3);
    assert("ninety"@[0] == 'n' && "eleven"@[0] == 'e');
    assert("ninety"@[0] == 'n' && "twelve"@[0] == 't');
    assert("ninety"@.len() == 6 && "thirteen"@.len() == 8);
    assert("ninety"@.len() == 6 && "fourteen"@.len() == 8);
    assert("ninety"@.len() == 6 && "fifteen"@.len() == 7);
    assert("ninety"@.len() == 6 && "sixteen"@.len() == 7);
    assert("ninety"@.len() == 6 && "seventeen"@.len() == 9);
    assert("ninety"@.len() == 6 && "eighteen"@.len() == 8);
    assert("ninety"@.len() == 6 && "nineteen"@.len() == 8);
    assert("ninety"@[0] == 'n' && "twenty"@[0] == 't');
    assert("ninety"@[0] == 'n' && "thirty"@[0] == 't');
    assert("ninety"@.len() == 6 && "forty"@.len() == 5);
    assert("ninety"@.len() == 6 && "fifty"@.len() == 5);
    assert("ninety"@.len() == 6 && "sixty"@.len() == 5);
    assert("ninety"@.len() == 6 && "seventy"@.len() == 7);
    assert("ninety"@[0] == 'n' && "eighty"@[0] == 'e');
    assert(spec_simple_number("ninety"@) == Some(90u32));
    assert("hundred"@.len() == 7 && "zero"@.len() == 4);
    assert("hundred"@.len() == 7 && "one"@.len() == 3);
    assert("hundred"@.len() == 7 && "first"@.len() == 5);
    assert("hundred"@.len() == 7 && "two"@.len() == 3);
    assert("hundred"@.len() == 7 && "second"@.len() == 6);
    assert("hundred"@.len() == 7 && "three"@.len() == 5);
    assert("hundred"@.len() == 7 && "third"@.len() == 5);
    assert("hundred"@.len() == 7 && "four"@.len() == 4);
    assert("hundred"@.len() == 7 && "fourth"@.len() == 6);
    assert("hundred"@.len() == 7 && "five"@.len() == 4);
    assert("hundred"@.len() == 7 && "fifth"@.len() == 5);
    assert("hundred"@.len() == 7 && "six"@.len() == 3);
    assert("hundred"@.len() == 7 && "seven"@.len() == 5);
    assert("hundred"@.len() == 7 && "eight"@.len() == 5);
    assert("hundred"@.len() == 7 && "nine"@.len() == 4);
    assert("hundred"@.len() == 7 && "ten"@.len() == 3);
    assert("hundred"@.len() == 7 && "eleven"@.len() == 6);
    assert("hundred"@.len() == 7 && "twelve"@.len() == 6);
    assert("hundred"@.len() == 7 && "thirteen"@.len() == 8);
    assert("hundred"@.len() == 7 && "fourteen"@.len() == 8);
    assert("hundred"@[0] == 'h' && "fifteen"@[0] == 'f');
    assert("hundred"@[0] == 'h' && "sixteen"@[0] == 's');
    assert("hundred"@.len() == 7 && "seventeen"@.len() == 9);
    assert("hundred"@.len() == 7 && "eighteen"@.len() == 8);
    assert("hundred"@.len() == 7 && "nineteen"@.len() == 8);
    assert("hundred"@.len() == 7 && "twenty"@.len() == 6);
    assert("hundred"@.len() == 7 && "thirty"@.len() == 6);
    assert("hundred"@.len() == 7 && "forty"@.len() == 5);
    assert("hundred"@.len() == 7 && "fifty"@.len() == 5);
    assert("hundred"@.len() == 7 && "sixty"@.len() == 5);
    assert("hundred"@[0] == 'h' && "seventy"@[0] == 's');
    assert("hundred"@.len() == 7 && "eighty"@.len() == 6);
    assert("hundred"@.len() == 7 && "ninety"@.len() == 6);
    assert(spec_simple_number("hundred"@) == Some(100u32));
}

/// Each word for one to nineteen reads as its number.
proof fn lemma_small_word_reads(k: int)
    requires
        1 <= k <= 19,
    ensures
        spec_simple_number(small_word(k)) == Some(k as u32),
{
    lemma_unit_word_values();
    lemma_teen_word_values();
}

/// Each word for a multiple of ten from twenty to ninety reads as its
/// number.
proof fn lemma_tens_word_reads(t: int)
    requires
        2 <= t <= 9,
    ensures
        spec_simple_number(tens_word(t)) == Some((10 * t) as u32),
{
    lemma_tens_word_values();
}

/// The words a number below a hundred is said in: "seven", "sixteen",
/// "forty", "twenty one".
pub open spec fn spoken_below_hundred(n: int) -> Seq<Seq<char>> {
    if n < 20 {
        seq![small_word(n)]
    } else if n % 10 == 0 {
        seq![tens_word(n / 10)]
    } else {
        seq![tens_word(n / 10), small_word(n % 10)]
    }
}

/// The words a number from 1 to 999 is said in, one word each: "one
/// hundred", "one hundred nineteen", "three hundred twenty one".
pub open spec fn spoken_number(n: int) -> Seq<Seq<char>> {
    if n < 100 {
        spoken_below_hundred(n)
    } else if n % 100 == 0 {
        seq![small_word(n / 100), "hundred"@]
    } else {
        seq![small_word(n / 100), "hundred"@] + spoken_below_hundred(n % 100)
    }
}

/// Reading the words of a number below a hundred, after `value` completed
/// hundreds and with `current` either 0 or a whole number of hundreds, adds
/// that number and reads to the end.
proof fn lemma_read_below_hundred(
    words: Seq<Seq<char>>,
    at: int,
    n: int,
    value: int,
    current: int,
)
    requires
        1 <= n <= 99,
        0 <= at,
        words.len() == at + spoken_below_hundred(n).len(),
        words.subrange(at, words.len() as int) == spoken_below_hundred(n),
        current == 0 || (100 <= current <= 900 && current % 100 == 0),
    ensures
        number_run(words, at, value, current).0 + number_run(words, at, value, current).1 == value
            + current + n,
        number_run(words, at, value, current).2 == words.len(),
{
    let tail = spoken_below_hundred(n);
    assert(words[at] == tail[0]);
    if n < 20 {
        lemma_small_word_reads(n);
        if current == 0 {
            assert(number_run(words, at + 1, value, n) == (value, n, at + 1));
        } else if n < 10 {
            assert(number_run(words, at + 1, value, current + n) == (value, current + n, at + 1));
        } else {
            assert(number_run(words, at + 1, value + current, n) == (value + current, n, at + 1));
        }
    } else {
        let t = n / 10;
        lemma_tens_word_reads(t);
        let v2 = if current == 0 { value } else { value + current };
        if n % 10 == 0 {
            assert(number_run(words, at + 1, v2, n) == (v2, n, at + 1));
        } else {
            assert(words[at + 1] == tail[1]);
            lemma_small_word_reads(n % 10);
            assert(number_run(words, at + 2, v2, n) == (v2, n, at + 2));
            assert(number_run(words, at + 1, v2, 10 * t) == (v2, n, at + 2));
        }
    }
}

/// Every number from 1 to 999, said in words as it is spoken, reads back as
/// that number and uses up every one of its words: "one hundred twenty one"
/// is 121, never 100 followed by 21.
pub proof fn lemma_spoken_numbers_read_back(n: int)
    requires
        1 <= n <= 999,
    ensures
        spec_words_to_number(spoken_number(n), 0) == Some((n, spoken_number(n).len() as int)),
{
    let words = spoken_number(n);
    if n < 100 {
        assert(words.subrange(0, words.len() as int) =~= spoken_below_hundred(n));
        lemma_read_below_hundred(words, 0, n, 0, 0);
    } else {
        let h = n / 100;
        lemma_small_word_reads(h);
        lemma_tens_word_values();
        assert(words[0] == small_word(h));
        assert(words[1] == "hundred"@);
        if n % 100 == 0 {
            assert(number_run(words, 2, 0, h * 100) == (0int, h * 100, 2int));
        } else {
            let r = n % 100;
            assert(words.subrange(2, words.len() as int) =~= spoken_below_hundred(r));
            lemma_read_below_hundred(words, 2, r, 0, h * 100);
        }
        assert(number_run(words, 1, 0, h) == number_run(words, 2, 0, h * 100));
        assert(number_run(words, 0, 0, 0) == number_run(words, 1, 0, h));
    }
}

/// Two numbers said one after the other are not run together: a word for
/// one to nineteen followed by another such word reads as the first number
/// alone ("three sixteen" is 3, then 16).
pub proof fn lemma_separate_numbers_stay_apart(a: int, b: int)
    requires
        1 <= a <= 19,
        1 <= b <= 19,
    ensures
        spec_words_to_number(seq![small_word(a), small_word(b)], 0) == Some((a, 1int)),
{
    lemma_small_word_reads(a);
    lemma_small_word_reads(b);
    let words = seq![small_word(a), small_word(b)];
    assert(number_run(words, 1, 0, a) == (0int, a, 1int));
}

} // verus!
