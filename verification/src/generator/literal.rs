//! The words that literals stand for.

use vstd::prelude::*;
use crate::generator::word::Word;
use crate::generator::word::word_range;
use crate::lexer::characters;
use crate::lexer::scan::spelled;
use crate::lexer::token::Keyword;

verus! {

/// The value of `c` as a digit to `base`: to the base 256, the lowest eight
/// bits of the character; to the base sixteen, that of a hexadecimal digit;
/// to any other base, that of a decimal digit.
pub open spec fn digit(c: char, base: nat) -> Option<nat> {
    if base == 256 {
        Some((c as u32 % 256) as nat)
    } else if '0' <= c <= '9' {
        Some((c as u32 - '0' as u32) as nat)
    } else if 'a' <= c <= 'f' && base == 16 {
        Some((c as u32 - 'a' as u32 + 10) as nat)
    } else if 'A' <= c <= 'F' && base == 16 {
        Some((c as u32 - 'A' as u32 + 10) as nat)
    } else {
        None
    }
}

/// The number that the digits of `text` from `at` on write to `base`,
/// behind digits that wrote `value`; nothing where one of them is no digit.
pub open spec fn number(text: Seq<char>, at: int, value: nat, base: nat) -> Option<nat>
    decreases text.len() - at,
{
    if at < 0 || at >= text.len() {
        Some(value)
    } else {
        match digit(text[at], base) {
            Some(next) => number(text, at + 1, value * base + next, base),
            None => None,
        }
    }
}

/// The word that holds `value` exactly; nothing where the value does not
/// fit in a word.
pub open spec fn word_of(value: Option<nat>) -> Option<Word> {
    match value {
        Some(value) => if value < word_range() {
            Some(Word::of(value))
        } else {
            None
        },
        None => None,
    }
}

/// Digits never make a number smaller.
pub proof fn lemma_number_grows(text: Seq<char>, at: int, value: nat, base: nat)
    requires
        base >= 1,
    ensures
        number(text, at, value, base) matches Some(written) ==> written >= value,
    decreases text.len() - at,
{
    if 0 <= at < text.len() {
        match digit(text[at], base) {
            Some(next) => {
                assert(value * base >= value) by (nonlinear_arith)
                    requires
                        base >= 1,
                ;
                lemma_number_grows(text, at + 1, value * base + next, base);
            },
            None => {},
        }
    }
}

/// The word that the literal written as `text` stands for: one for `true`,
/// zero for `false`; for a string in quotes, its characters as the digits
/// of a number to the base 256; for `0x` and hexadecimal digits, or for
/// decimal digits, the number that they write. The word holds the number
/// exactly: a number that does not fit in a word stands for nothing, and
/// so does any other text.
pub open spec fn literal_word(text: Seq<char>) -> Option<Word> {
    if text == Keyword::True.spelling() {
        Some(Word::small(1))
    } else if text == Keyword::False.spelling() {
        Some(Word::small(0))
    } else if text.len() >= 2 && text[0] == '"' && text.last() == '"' {
        word_of(number(text.subrange(1, text.len() - 1), 0, 0, 256))
    } else if text.len() > 2 && text[0] == '0' && text[1] == 'x' {
        word_of(number(text, 2, 0, 16))
    } else if text.len() > 0 {
        word_of(number(text, 0, 0, 10))
    } else {
        None
    }
}

/// Tells the value of `c` as a digit to `base`.
fn digit_value(c: char, base: u64) -> (value: Option<u64>)
    requires
        base == 10 || base == 16 || base == 256,
    ensures
        match digit(c, base as nat) {
            Some(next) => value == Some(next as u64) && next < base,
            None => value is None,
        },
{
    let code = c as u32;
    if base == 256 {
        Some((code % 256) as u64)
    } else if '0' <= c && c <= '9' {
        Some((code - '0' as u32) as u64)
    } else if 'a' <= c && c <= 'f' && base == 16 {
        Some((code - 'a' as u32 + 10) as u64)
    } else if 'A' <= c && c <= 'F' && base == 16 {
        Some((code - 'A' as u32 + 10) as u64)
    } else {
        None
    }
}

/// Reads the number that the characters of `text` from `from` up to `to`
/// write to `base`, where it fits in a word.
fn read_number(text: &Vec<char>, from: usize, to: usize, base: u64) -> (word: Option<Word>)
    requires
        from <= to <= text.len(),
        base == 10 || base == 16 || base == 256,
    ensures
        word == word_of(number(text@.subrange(0, to as int), from as int, 0, base as nat)),
{
    let ghost digits = text@.subrange(0, to as int);
    let ghost mut value: nat = 0;
    let mut word = Word::from_u64(0);
    let mut at: usize = from;
    while at < to
        invariant
            from <= at <= to <= text.len(),
            base == 10 || base == 16 || base == 256,
            digits == text@.subrange(0, to as int),
            number(digits, from as int, 0, base as nat) == number(
                digits,
                at as int,
                value,
                base as nat,
            ),
            word.value() == value,
        decreases to - at,
    {
        let next = match digit_value(text[at], base) {
            Some(next) => next,
            None => {
                return None;
            },
        };
        word = match word.scaled(base, next) {
            Some(word) => word,
            None => {
                proof {
                    lemma_number_grows(
                        digits,
                        at + 1,
                        value * (base as nat) + (next as nat),
                        base as nat,
                    );
                }
                return None;
            },
        };
        proof {
            value = value * (base as nat) + (next as nat);
        }
        at = at + 1;
    }
    proof {
        word.lemma_of_value();
    }
    Some(word)
}

/// Reads the word that the literal written as `text` stands for.
pub fn read_literal(text: &String) -> (word: Option<Word>)
    ensures
        word == literal_word(text@),
{
    let chars = characters(text.as_str());
    let length = chars.len();
    assert(chars@.subrange(0, length as int) =~= chars@);
    if spelled(&chars, 0, length, &Keyword::True.letters()) {
        Some(Word::from_u64(1))
    } else if spelled(&chars, 0, length, &Keyword::False.letters()) {
        Some(Word::from_u64(0))
    } else if length >= 2 && chars[0] == '"' && chars[length - 1] == '"' {
        let word = read_number(&chars, 1, length - 1, 256);
        proof {
            lemma_number_window(chars@, 1, length - 1, 1, 0, 256);
        }
        word
    } else if length > 2 && chars[0] == '0' && chars[1] == 'x' {
        read_number(&chars, 2, length, 16)
    } else if length > 0 {
        read_number(&chars, 0, length, 10)
    } else {
        None
    }
}

/// The digits of a text between two places write the same number whether
/// they are read in the text cut at the second place or in the piece
/// between the two.
pub proof fn lemma_number_window(text: Seq<char>, from: int, to: int, at: int, value: nat, base: nat)
    requires
        0 <= from <= at <= to <= text.len(),
    ensures
        number(text.subrange(0, to), at, value, base) == number(
            text.subrange(from, to),
            at - from,
            value,
            base,
        ),
    decreases to - at,
{
    if at < to {
        match digit(text[at], base) {
            Some(next) => {
                lemma_number_window(text, from, to, at + 1, value * base + next, base);
            },
            None => {},
        }
    }
}

} // verus!
