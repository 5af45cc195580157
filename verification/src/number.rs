//! The magnitude grammar: an unsigned decimal numeral, read exactly.
//!
//! A numeral is a run of ASCII digits, optionally followed by a point and a
//! second run of digits; at least one digit must be present. The whole part
//! saturates at `u32::MAX`; of the fraction the first three digits are kept.
//!
//! Signs, exponents and the words for infinity and not-a-number are left
//! out on purpose: `+5`, `-5`, `1e3`, `inf` and `nan` are no numerals here.
//! A magnitude on the screen is a plain decimal, and a grammar that took the
//! other forms would have to give a stat a negative, unbounded or undefined
//! magnitude. Cutting the fraction is on purpose too: magnitudes that differ
//! only beyond the third digit of the fraction are the same magnitude, and
//! stats that hold them are equal.

use vstd::prelude::*;
use crate::relic::Percent;
use crate::text::{count_prefix, lemma_prefix_members, prefix_len, str_chars, CharClass};

verus! {

/// A magnitude as read from text: the whole part and the fraction in
/// thousandths.
#[derive(Debug, Clone, Copy, PartialEq, Eq, Structural)]
pub struct Magnitude {
    pub whole: u32,
    pub thousandths: u16,
}

impl Magnitude {
    /// The magnitude as a percentage: a thousand for each whole, and the
    /// fraction.
    pub open spec fn as_percent(self) -> Percent {
        Percent { thousandths: (self.whole * 1000 + self.thousandths) as u64 }
    }

    /// The magnitude as a percentage, in thousandths.
    pub fn percent(self) -> (p: Percent)
        ensures
            p == self.as_percent(),
    {
        Percent { thousandths: self.whole as u64 * 1000 + self.thousandths as u64 }
    }
}

/// The value of the digit `c`.
pub open spec fn digit_value(c: char) -> nat {
    (c as u32 - 48) as nat
}

/// The number that a run of digits denotes in base ten.
pub open spec fn digits_value(s: Seq<char>) -> nat
    decreases s.len(),
{
    if s.len() == 0 {
        0
    } else {
        digits_value(s.drop_last()) * 10 + digit_value(s.last())
    }
}

/// `n`, or `u32::MAX` where `n` is larger.
pub open spec fn saturated(n: nat) -> u32 {
    if n > u32::MAX {
        u32::MAX
    } else {
        n as u32
    }
}

/// The digit at place `i` of a fraction, `0` past its end.
pub open spec fn fraction_digit(fraction: Seq<char>, i: int) -> nat {
    if 0 <= i < fraction.len() {
        digit_value(fraction[i])
    } else {
        0
    }
}

/// The first three digits of a fraction, as thousandths.
pub open spec fn leading_thousandths(fraction: Seq<char>) -> nat {
    fraction_digit(fraction, 0) * 100 + fraction_digit(fraction, 1) * 10 + fraction_digit(
        fraction,
        2,
    )
}

/// What a token denotes as a magnitude, if it is a numeral.
pub open spec fn magnitude_of(token: Seq<char>) -> Option<Magnitude> {
    let w = prefix_len(token, CharClass::Digit) as int;
    let whole = saturated(digits_value(token.take(w)));
    let rest = token.skip(w);
    if rest.len() == 0 {
        if w > 0 {
            Some(Magnitude { whole, thousandths: 0 })
        } else {
            None
        }
    } else {
        let fraction = rest.skip(1);
        if rest[0] == '.' && prefix_len(fraction, CharClass::Digit) == fraction.len() && w
            + fraction.len() > 0 {
            Some(Magnitude { whole, thousandths: leading_thousandths(fraction) as u16 })
        } else {
            None
        }
    }
}

fn digit_at(token: &Vec<char>, i: usize) -> (d: u32)
    requires
        i < token@.len(),
        CharClass::Digit.holds(token@[i as int]),
    ensures
        d == digit_value(token@[i as int]),
        d <= 9,
{
    token[i] as u32 - 48
}

/// The saturated value of the first `count` characters, all digits.
fn whole_part(token: &Vec<char>, count: usize) -> (whole: u32)
    requires
        count <= token@.len(),
        forall|j: int| 0 <= j < count ==> CharClass::Digit.holds(token@[j]),
    ensures
        whole == saturated(digits_value(token@.take(count as int))),
{
    let mut acc: u64 = 0;
    let mut i: usize = 0;
    proof {
        assert(token@.take(0) =~= Seq::<char>::empty());
    }
    while i < count
        invariant
            i <= count <= token@.len(),
            forall|j: int| 0 <= j < count ==> CharClass::Digit.holds(token@[j]),
            acc == saturated(digits_value(token@.take(i as int))),
        decreases count - i,
    {
        let d = digit_at(token, i);
        proof {
            let ghost upto = token@.take(i + 1);
            assert(upto.drop_last() =~= token@.take(i as int));
            assert(upto.last() == token@[i as int]);
            assert(digits_value(upto) == digits_value(token@.take(i as int)) * 10 + d);
        }
        let next = acc * 10 + d as u64;
        acc = if next > u32::MAX as u64 {
            u32::MAX as u64
        } else {
            next
        };
        i += 1;
    }
    acc as u32
}

fn fraction_place(token: &Vec<char>, start: usize, i: usize) -> (d: u16)
    requires
        start <= token@.len(),
        i < 3,
        forall|j: int| start <= j < token@.len() ==> CharClass::Digit.holds(token@[j]),
    ensures
        d == fraction_digit(token@.skip(start as int), i as int),
        d <= 9,
{
    if i < token.len() - start {
        digit_at(token, start + i) as u16
    } else {
        0
    }
}

/// Reads a numeral. Absent where the token is none.
pub fn parse_magnitude(token: &str) -> (m: Option<Magnitude>)
    ensures
        m == magnitude_of(token@),
        m is Some ==> m->0.thousandths < 1000,
{
    let chars = str_chars(token);
    magnitude_of_chars(&chars)
}

pub(crate) fn magnitude_of_chars(token: &Vec<char>) -> (m: Option<Magnitude>)
    ensures
        m == magnitude_of(token@),
        m is Some ==> m->0.thousandths < 1000,
{
    let n = token.len();
    let w = count_prefix(token, 0, CharClass::Digit);
    proof {
        assert(token@.skip(0) =~= token@);
        assert forall|j: int| 0 <= j < w implies CharClass::Digit.holds(token@[j]) by {
            lemma_prefix_members(token@, CharClass::Digit, j);
        }
    }
    let whole = whole_part(token, w);
    if w == n {
        if w > 0 {
            Some(Magnitude { whole, thousandths: 0 })
        } else {
            None
        }
    } else if token[w] == '.' {
        let f = count_prefix(token, w + 1, CharClass::Digit);
        proof {
            assert(token@.skip(w as int).skip(1) =~= token@.skip(w + 1));
        }
        if w + 1 + f == n && w + f > 0 {
            proof {
                let ghost fraction = token@.skip(w + 1);
                assert forall|j: int| w + 1 <= j < n implies CharClass::Digit.holds(token@[j]) by {
                    lemma_prefix_members(fraction, CharClass::Digit, j - (w + 1));
                }
            }
            let thousandths = fraction_place(token, w + 1, 0) * 100 + fraction_place(
                token,
                w + 1,
                1,
            ) * 10 + fraction_place(token, w + 1, 2);
            Some(Magnitude { whole, thousandths })
        } else {
            None
        }
    } else {
        None
    }
}

} // verus!
