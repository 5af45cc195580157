//! The stat grammar.
//!
//! A stat line is trimmed, loses every occurrence of the word `Boost`, is
//! put in lowercase and split at whitespace. The last word is the magnitude,
//! read after its trailing percent signs are dropped; the words before it,
//! joined by single spaces, are the key. For the stats that exist both as an
//! absolute number and as a percentage, a percent sign anywhere in the line
//! as it was given selects the percentage.

use vstd::prelude::*;
use crate::number::{magnitude_of, magnitude_of_chars, Magnitude};
use crate::relic::Stat;
use crate::text::{
    has_char, join_with_space, joined, lowercase, lowercased, remove_all, spells, split_whitespace,
    str_chars, strip_trailing, trim, trimmed, without_pattern, without_trailing, words_of,
    words_view,
};

verus! {

/// The stat that a key selects, given the magnitude and whether the line
/// held a percent sign.
pub open spec fn stat_for_key(key: Seq<char>, magnitude: Magnitude, percent: bool) -> Option<Stat> {
    if key == "hp"@ {
        Some(if percent {
            Stat::HPP(magnitude.as_percent())
        } else {
            Stat::HP(magnitude.whole)
        })
    } else if key == "atk"@ {
        Some(if percent {
            Stat::ATKP(magnitude.as_percent())
        } else {
            Stat::ATK(magnitude.whole)
        })
    } else if key == "def"@ {
        Some(if percent {
            Stat::DEFP(magnitude.as_percent())
        } else {
            Stat::DEF(magnitude.whole)
        })
    } else if key == "spd"@ {
        Some(Stat::SPD(magnitude.whole))
    } else if key == "break effect"@ {
        Some(Stat::BE(magnitude.as_percent()))
    } else if key == "effect hit rate"@ {
        Some(Stat::EHR(magnitude.as_percent()))
    } else if key == "energy regeneration rate"@ {
        Some(Stat::ERR(magnitude.as_percent()))
    } else if key == "outgoing healing"@ {
        Some(Stat::OHB(magnitude.as_percent()))
    } else if key == "physical dmg"@ {
        Some(Stat::PHYS(magnitude.as_percent()))
    } else if key == "fire dmg"@ {
        Some(Stat::FIRE(magnitude.as_percent()))
    } else if key == "ice dmg"@ {
        Some(Stat::ICE(magnitude.as_percent()))
    } else if key == "wind dmg"@ {
        Some(Stat::WIND(magnitude.as_percent()))
    } else if key == "lightning dmg"@ {
        Some(Stat::LIGHTNING(magnitude.as_percent()))
    } else if key == "quantum dmg"@ {
        Some(Stat::QUANTUM(magnitude.as_percent()))
    } else if key == "imaginary dmg"@ {
        Some(Stat::IMAGINARY(magnitude.as_percent()))
    } else if key == "crit rate"@ {
        Some(Stat::CR(magnitude.as_percent()))
    } else if key == "crit dmg"@ {
        Some(Stat::CD(magnitude.as_percent()))
    } else {
        None
    }
}

/// The stat that a normalised line denotes. `percent` tells whether the line
/// held a percent sign before it was normalised.
pub open spec fn stat_of_normalized(line: Seq<char>, percent: bool) -> Option<Stat> {
    let words = split_whitespace(line);
    if words.len() < 2 {
        None
    } else {
        match magnitude_of(strip_trailing(words.last(), '%')) {
            Some(magnitude) => stat_for_key(
                join_with_space(words.drop_last()),
                magnitude,
                percent,
            ),
            None => None,
        }
    }
}

/// A line before it is put in lowercase: trimmed and without `Boost`.
pub open spec fn without_boost(text: Seq<char>) -> Seq<char> {
    remove_all(trim(text), "Boost"@)
}

/// The stat that a line of text denotes.
pub open spec fn stat_of_text(text: Seq<char>) -> Option<Stat> {
    stat_of_normalized(lowercase(without_boost(text)), text.contains('%'))
}

fn stat_for_chars(key: &Vec<char>, magnitude: Magnitude, percent: bool) -> (stat: Option<Stat>)
    ensures
        stat == stat_for_key(key@, magnitude, percent),
{
    if spells(key, "hp") {
        Some(if percent {
            Stat::HPP(magnitude.percent())
        } else {
            Stat::HP(magnitude.whole)
        })
    } else if spells(key, "atk") {
        Some(if percent {
            Stat::ATKP(magnitude.percent())
        } else {
            Stat::ATK(magnitude.whole)
        })
    } else if spells(key, "def") {
        Some(if percent {
            Stat::DEFP(magnitude.percent())
        } else {
            Stat::DEF(magnitude.whole)
        })
    } else if spells(key, "spd") {
        Some(Stat::SPD(magnitude.whole))
    } else if spells(key, "break effect") {
        Some(Stat::BE(magnitude.percent()))
    } else if spells(key, "effect hit rate") {
        Some(Stat::EHR(magnitude.percent()))
    } else if spells(key, "energy regeneration rate") {
        Some(Stat::ERR(magnitude.percent()))
    } else if spells(key, "outgoing healing") {
        Some(Stat::OHB(magnitude.percent()))
    } else if spells(key, "physical dmg") {
        Some(Stat::PHYS(magnitude.percent()))
    } else if spells(key, "fire dmg") {
        Some(Stat::FIRE(magnitude.percent()))
    } else if spells(key, "ice dmg") {
        Some(Stat::ICE(magnitude.percent()))
    } else if spells(key, "wind dmg") {
        Some(Stat::WIND(magnitude.percent()))
    } else if spells(key, "lightning dmg") {
        Some(Stat::LIGHTNING(magnitude.percent()))
    } else if spells(key, "quantum dmg") {
        Some(Stat::QUANTUM(magnitude.percent()))
    } else if spells(key, "imaginary dmg") {
        Some(Stat::IMAGINARY(magnitude.percent()))
    } else if spells(key, "crit rate") {
        Some(Stat::CR(magnitude.percent()))
    } else if spells(key, "crit dmg") {
        Some(Stat::CD(magnitude.percent()))
    } else {
        None
    }
}

fn stat_of_chars(line: &Vec<char>, percent: bool) -> (stat: Option<Stat>)
    ensures
        stat == stat_of_normalized(line@, percent),
{
    let words = words_of(line);
    let n = words.len();
    if n < 2 {
        return None;
    }
    let numeral = without_trailing(&words[n - 1], '%');
    proof {
        assert(words_view(words@).last() == words@[n - 1]@);
        assert(words_view(words@).take(n - 1) =~= words_view(words@).drop_last());
    }
    match magnitude_of_chars(&numeral) {
        Some(magnitude) => {
            let key = joined(&words, n - 1);
            stat_for_chars(&key, magnitude, percent)
        },
        None => None,
    }
}

/// Selects the stat for a key that is already in lowercase, its words
/// joined by single spaces.
pub fn stat_from_key(key: &str, magnitude: Magnitude, percent: bool) -> (stat: Option<Stat>)
    ensures
        stat == stat_for_key(key@, magnitude, percent),
{
    let chars = str_chars(key);
    stat_for_chars(&chars, magnitude, percent)
}

/// Reads a line that is already normalised: trimmed, without `Boost`, in
/// lowercase. `percent` tells whether the line as it was given held a
/// percent sign.
pub fn parse_normalized_stat(line: &str, percent: bool) -> (stat: Option<Stat>)
    ensures
        stat == stat_of_normalized(line@, percent),
{
    let chars = str_chars(line);
    stat_of_chars(&chars, percent)
}

/// Reads a stat line. Absent where the line has fewer than two words, its
/// last word is no numeral, or its key is unknown.
pub fn parse_stat(s: &str) -> (stat: Option<Stat>)
    ensures
        stat == stat_of_text(s@),
{
    let chars = str_chars(s);
    let percent = has_char(&chars, '%');
    let core = trimmed(&chars);
    let boost = str_chars("Boost");
    let plain = without_pattern(&core, &boost);
    let lower = lowercased(&plain);
    stat_of_chars(&lower, percent)
}

} // verus!
