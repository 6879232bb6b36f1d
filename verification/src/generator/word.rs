//! The machine word: an unsigned integer of the field width, 256 bits.

use vstd::prelude::*;

verus! {

/// Two to the power 64: the number of values that a limb can hold.
pub open spec fn limb_range() -> nat {
    0x1_0000_0000_0000_0000
}

/// Two to the power 256: the number of values that a word can hold.
pub open spec fn word_range() -> nat {
    0x1_0000_0000_0000_0000_0000_0000_0000_0000_0000_0000_0000_0000_0000_0000_0000_0000nat
}

/// A word, in four limbs of 64 bits, the lowest first.
#[derive(Debug, Clone, Copy, PartialEq, Eq, Structural)]
pub struct Word {
    /// The bits 0 to 63.
    pub limb0: u64,
    /// The bits 64 to 127.
    pub limb1: u64,
    /// The bits 128 to 191.
    pub limb2: u64,
    /// The bits 192 to 255.
    pub limb3: u64,
}

impl Word {
    /// The number that the word holds.
    pub open spec fn value(self) -> nat {
        (self.limb0 + limb_range() * (self.limb1 + limb_range() * (self.limb2 + limb_range()
            * self.limb3))) as nat
    }

    /// The word that holds `value`, taken modulo the range of a word.
    pub open spec fn of(value: nat) -> Word {
        Word {
            limb0: (value % limb_range()) as u64,
            limb1: (value / limb_range() % limb_range()) as u64,
            limb2: (value / limb_range() / limb_range() % limb_range()) as u64,
            limb3: (value / limb_range() / limb_range() / limb_range() % limb_range()) as u64,
        }
    }

    /// The word that holds `value`.
    pub open spec fn small(value: u64) -> Word {
        Word { limb0: value, limb1: 0, limb2: 0, limb3: 0 }
    }

    /// The word with every bit set.
    pub open spec fn ones() -> Word {
        Word { limb0: u64::MAX, limb1: u64::MAX, limb2: u64::MAX, limb3: u64::MAX }
    }

    /// Whether the number that the word holds fits in 64 bits.
    pub open spec fn fits(self) -> bool {
        self.limb1 == 0 && self.limb2 == 0 && self.limb3 == 0
    }

    /// A word is the word of the number that it holds, and that number is
    /// below the range of a word.
    pub proof fn lemma_of_value(self)
        ensures
            Word::of(self.value()) == self,
            self.value() < word_range(),
            self.fits() ==> self.value() == self.limb0,
    {
        let b = limb_range() as int;
        let high = self.limb1 + b * (self.limb2 + b * self.limb3);
        let higher = self.limb2 + b * self.limb3;
        assert(self.value() == self.limb0 + b * high);
        assert(high == self.limb1 + b * higher);
        vstd::arithmetic::div_mod::lemma_fundamental_div_mod_converse(
            self.value() as int,
            b,
            high,
            self.limb0 as int,
        );
        vstd::arithmetic::div_mod::lemma_fundamental_div_mod_converse(
            high,
            b,
            higher,
            self.limb1 as int,
        );
        vstd::arithmetic::div_mod::lemma_fundamental_div_mod_converse(
            higher,
            b,
            self.limb3 as int,
            self.limb2 as int,
        );
        vstd::arithmetic::div_mod::lemma_small_mod(self.limb3 as nat, limb_range());
    }

    /// The word of a number below the range of a word holds that number.
    pub proof fn lemma_value_of(value: nat)
        requires
            value < word_range(),
        ensures
            Word::of(value).value() == value,
    {
        let b = limb_range() as int;
        let v = value as int;
        vstd::arithmetic::div_mod::lemma_fundamental_div_mod(v, b);
        vstd::arithmetic::div_mod::lemma_fundamental_div_mod(v / b, b);
        vstd::arithmetic::div_mod::lemma_fundamental_div_mod(v / b / b, b);
        assert(v / b / b / b < b);
        vstd::arithmetic::div_mod::lemma_small_mod((v / b / b / b) as nat, limb_range());
    }

    /// The word that holds `value`.
    pub fn from_u64(value: u64) -> (word: Word)
        ensures
            word == Word::small(value),
    {
        Word { limb0: value, limb1: 0, limb2: 0, limb3: 0 }
    }

    /// The word with every bit set.
    pub fn all_ones() -> (word: Word)
        ensures
            word == Word::ones(),
    {
        Word { limb0: u64::MAX, limb1: u64::MAX, limb2: u64::MAX, limb3: u64::MAX }
    }

    /// Tells whether the number that the word holds fits in 64 bits.
    pub fn is_small(&self) -> (fits: bool)
        ensures
            fits == self.fits(),
    {
        self.limb1 == 0 && self.limb2 == 0 && self.limb3 == 0
    }

    /// Tells whether the word holds zero.
    pub fn is_zero(&self) -> (zero: bool)
        ensures
            zero == (self.value() == 0),
    {
        self.limb0 == 0 && self.limb1 == 0 && self.limb2 == 0 && self.limb3 == 0
    }

    /// Tells whether the word holds less than `other`.
    pub fn less(&self, other: &Word) -> (below: bool)
        ensures
            below == (self.value() < other.value()),
    {
        if self.limb3 != other.limb3 {
            self.limb3 < other.limb3
        } else if self.limb2 != other.limb2 {
            self.limb2 < other.limb2
        } else if self.limb1 != other.limb1 {
            self.limb1 < other.limb1
        } else {
            self.limb0 < other.limb0
        }
    }

    /// The sum of the word and `other`, modulo the range of a word.
    pub fn add(&self, other: &Word) -> (sum: Word)
        ensures
            sum == Word::of((self.value() + other.value()) % word_range()),
    {
        let s0: u128 = self.limb0 as u128 + other.limb0 as u128;
        let s1: u128 = self.limb1 as u128 + other.limb1 as u128 + s0 / 0x1_0000_0000_0000_0000u128;
        let s2: u128 = self.limb2 as u128 + other.limb2 as u128 + s1 / 0x1_0000_0000_0000_0000u128;
        let s3: u128 = self.limb3 as u128 + other.limb3 as u128 + s2 / 0x1_0000_0000_0000_0000u128;
        let sum = Word {
            limb0: (s0 % 0x1_0000_0000_0000_0000u128) as u64,
            limb1: (s1 % 0x1_0000_0000_0000_0000u128) as u64,
            limb2: (s2 % 0x1_0000_0000_0000_0000u128) as u64,
            limb3: (s3 % 0x1_0000_0000_0000_0000u128) as u64,
        };
        proof {
            let carry = (s3 / 0x1_0000_0000_0000_0000u128) as int;
            let total = self.value() + other.value();
            sum.lemma_of_value();
            assert(total == sum.value() + carry * word_range());
            vstd::arithmetic::div_mod::lemma_fundamental_div_mod_converse(
                total as int,
                word_range() as int,
                carry,
                sum.value() as int,
            );
        }
        sum
    }

    /// The difference of the word and `other`, modulo the range of a word.
    pub fn sub(&self, other: &Word) -> (difference: Word)
        ensures
            difference == Word::of(
                ((self.value() + word_range() - other.value()) % (word_range() as int)) as nat,
            ),
    {
        let b: u128 = 0x1_0000_0000_0000_0000u128;
        let d0: u128 = b + self.limb0 as u128 - other.limb0 as u128;
        let d1: u128 = b + self.limb1 as u128 - other.limb1 as u128 - (1 - d0 / b);
        let d2: u128 = b + self.limb2 as u128 - other.limb2 as u128 - (1 - d1 / b);
        let d3: u128 = b + self.limb3 as u128 - other.limb3 as u128 - (1 - d2 / b);
        let difference = Word {
            limb0: (d0 % b) as u64,
            limb1: (d1 % b) as u64,
            limb2: (d2 % b) as u64,
            limb3: (d3 % b) as u64,
        };
        proof {
            let kept = (d3 / b) as int;
            let total = self.value() + word_range() - other.value();
            self.lemma_of_value();
            other.lemma_of_value();
            difference.lemma_of_value();
            assert(total == difference.value() + kept * word_range());
            vstd::arithmetic::div_mod::lemma_fundamental_div_mod_converse(
                total as int,
                word_range() as int,
                kept,
                difference.value() as int,
            );
        }
        difference
    }

    /// The word times `base` plus `digit`, where that is below the range of
    /// a word.
    pub fn scaled(&self, base: u64, digit: u64) -> (result: Option<Word>)
        requires
            base == 10 || base == 16 || base == 256,
            digit < base,
        ensures
            match result {
                Some(word) => word.value() == self.value() * base + digit,
                None => self.value() * base + digit >= word_range(),
            },
    {
        let b: u128 = 0x1_0000_0000_0000_0000u128;
        let t0: u128 = times(self.limb0, base) + digit as u128;
        let t1: u128 = times(self.limb1, base) + t0 / b;
        let t2: u128 = times(self.limb2, base) + t1 / b;
        let t3: u128 = times(self.limb3, base) + t2 / b;
        let word = Word {
            limb0: (t0 % b) as u64,
            limb1: (t1 % b) as u64,
            limb2: (t2 % b) as u64,
            limb3: (t3 % b) as u64,
        };
        proof {
            let r = limb_range() as int;
            let (l0, l1, l2, l3) = (
                self.limb0 as int,
                self.limb1 as int,
                self.limb2 as int,
                self.limb3 as int,
            );
            let m = base as int;
            assert((l0 + r * (l1 + r * (l2 + r * l3))) * m == l0 * m + r * (l1 * m + r * (l2 * m
                + r * (l3 * m)))) by (nonlinear_arith);
            word.lemma_of_value();
            assert(self.value() * base + digit == word.value() + (t3 / b) * word_range());
        }
        if t3 / b != 0 {
            None
        } else {
            Some(word)
        }
    }
}

/// Computes `limb` times `base`.
fn times(limb: u64, base: u64) -> (product: u128)
    requires
        base == 10 || base == 16 || base == 256,
    ensures
        product == limb * base,
        product <= 0xffff_ffff_ffff_ffff * 256,
{
    if base == 10 {
        limb as u128 * 10
    } else if base == 16 {
        limb as u128 * 16
    } else {
        limb as u128 * 256
    }
}

} // verus!
