//! The set grammar: the first alphanumeric token of a set description,
//! in lowercase, selects the set; after the article `the` the second token
//! decides.

use vstd::prelude::*;
use crate::relic::RelicSet;
use crate::text::{
    copy_range, count_prefix, leading_alphanumeric, lowercase, lowercased, spells, str_chars,
    CharClass,
};

verus! {

/// The set that a lowercase first token selects by itself.
pub open spec fn set_for_prefix(token: Seq<char>) -> Option<RelicSet> {
    if token == "band"@ {
        Some(RelicSet::BAND)
    } else if token == "champion"@ {
        Some(RelicSet::CHAMPION)
    } else if token == "eagle"@ {
        Some(RelicSet::EAGLE)
    } else if token == "firesmith"@ {
        Some(RelicSet::FIRESMITH)
    } else if token == "genius"@ {
        Some(RelicSet::GENIUS)
    } else if token == "guard"@ {
        Some(RelicSet::GUARD)
    } else if token == "hero"@ {
        Some(RelicSet::HERO)
    } else if token == "hunter"@ {
        Some(RelicSet::HUNTER)
    } else if token == "iron"@ {
        Some(RelicSet::IRON)
    } else if token == "knight"@ {
        Some(RelicSet::KNIGHT)
    } else if token == "longevous"@ {
        Some(RelicSet::DISCIPLE)
    } else if token == "messenger"@ {
        Some(RelicSet::MESSENGER)
    } else if token == "musketeer"@ {
        Some(RelicSet::MUSKETEER)
    } else if token == "passerby"@ {
        Some(RelicSet::PASSERBY)
    } else if token == "pioneer"@ {
        Some(RelicSet::PIONEER)
    } else if token == "poet"@ {
        Some(RelicSet::POET)
    } else if token == "prisoner"@ {
        Some(RelicSet::PRISONER)
    } else if token == "sacerdos"@ {
        Some(RelicSet::ORDEAL)
    } else if token == "scholar"@ {
        Some(RelicSet::SCHOLAR)
    } else if token == "thief"@ {
        Some(RelicSet::THIEF)
    } else if token == "warrior"@ {
        Some(RelicSet::GODDESS)
    } else if token == "wastelander"@ {
        Some(RelicSet::WASTELANDER)
    } else if token == "watchmaker"@ {
        Some(RelicSet::WATCHMAKER)
    } else if token == "wavestrider"@ {
        Some(RelicSet::WAVESTRIDER)
    } else if token == "belobog"@ {
        Some(RelicSet::BELOBOG)
    } else if token == "bone"@ {
        Some(RelicSet::BONE)
    } else if token == "broken"@ {
        Some(RelicSet::KEEL)
    } else if token == "celestial"@ {
        Some(RelicSet::CELESTIAL)
    } else if token == "duran"@ {
        Some(RelicSet::DURAN)
    } else if token == "firmament"@ {
        Some(RelicSet::GLAMOTH)
    } else if token == "fleet"@ {
        Some(RelicSet::AGELESS)
    } else if token == "forge"@ {
        Some(RelicSet::FORGE)
    } else if token == "giant"@ {
        Some(RelicSet::TREE)
    } else if token == "inert"@ {
        Some(RelicSet::INERT)
    } else if token == "izumo"@ {
        Some(RelicSet::REALM)
    } else if token == "lushaka"@ {
        Some(RelicSet::SUNKEN)
    } else if token == "pan"@ {
        Some(RelicSet::ENTERPRISE)
    } else if token == "penacony"@ {
        Some(RelicSet::PENACONY)
    } else if token == "rutilant"@ {
        Some(RelicSet::ARENA)
    } else if token == "sigonia"@ {
        Some(RelicSet::DESOLATION)
    } else if token == "space"@ {
        Some(RelicSet::STATION)
    } else if token == "sprightly"@ {
        Some(RelicSet::SPRIGHTLY)
    } else if token == "talia"@ {
        Some(RelicSet::BANDITRY)
    } else {
        None
    }
}

/// The set that a lowercase second token selects after the article.
pub open spec fn set_after_article(token: Seq<char>) -> Option<RelicSet> {
    if token == "ashblazing"@ {
        Some(RelicSet::DUKE)
    } else if token == "wind"@ {
        Some(RelicSet::SOAR)
    } else if token == "wondrous"@ {
        Some(RelicSet::PARK)
    } else {
        None
    }
}

/// The set that the first two tokens select, both in lowercase. The second
/// is absent where the text ends with the first.
pub open spec fn set_for_tokens(first: Seq<char>, second: Option<Seq<char>>) -> Option<RelicSet> {
    if first == "the"@ {
        match second {
            Some(token) => set_after_article(token),
            None => None,
        }
    } else {
        set_for_prefix(first)
    }
}

/// The first token of a description: its leading run of alphanumeric
/// characters, which may be empty.
pub open spec fn first_token(text: Seq<char>) -> Seq<char> {
    leading_alphanumeric(text)
}

/// The second token: the alphanumeric run that starts right after the
/// character that ended the first. Absent where nothing ended the first.
pub open spec fn second_token(text: Seq<char>) -> Option<Seq<char>> {
    let first = first_token(text);
    if first.len() < text.len() {
        Some(leading_alphanumeric(text.skip(first.len() as int + 1)))
    } else {
        None
    }
}

/// The set that a description names.
pub open spec fn set_of_text(text: Seq<char>) -> Option<RelicSet> {
    set_for_tokens(
        lowercase(first_token(text)),
        match second_token(text) {
            Some(token) => Some(lowercase(token)),
            None => None,
        },
    )
}

fn prefix_set(token: &Vec<char>) -> (set: Option<RelicSet>)
    ensures
        set == set_for_prefix(token@),
{
    if spells(token, "band") {
        Some(RelicSet::BAND)
    } else if spells(token, "champion") {
        Some(RelicSet::CHAMPION)
    } else if spells(token, "eagle") {
        Some(RelicSet::EAGLE)
    } else if spells(token, "firesmith") {
        Some(RelicSet::FIRESMITH)
    } else if spells(token, "genius") {
        Some(RelicSet::GENIUS)
    } else if spells(token, "guard") {
        Some(RelicSet::GUARD)
    } else if spells(token, "hero") {
        Some(RelicSet::HERO)
    } else if spells(token, "hunter") {
        Some(RelicSet::HUNTER)
    } else if spells(token, "iron") {
        Some(RelicSet::IRON)
    } else if spells(token, "knight") {
        Some(RelicSet::KNIGHT)
    } else if spells(token, "longevous") {
        Some(RelicSet::DISCIPLE)
    } else if spells(token, "messenger") {
        Some(RelicSet::MESSENGER)
    } else if spells(token, "musketeer") {
        Some(RelicSet::MUSKETEER)
    } else if spells(token, "passerby") {
        Some(RelicSet::PASSERBY)
    } else if spells(token, "pioneer") {
        Some(RelicSet::PIONEER)
    } else if spells(token, "poet") {
        Some(RelicSet::POET)
    } else if spells(token, "prisoner") {
        Some(RelicSet::PRISONER)
    } else if spells(token, "sacerdos") {
        Some(RelicSet::ORDEAL)
    } else if spells(token, "scholar") {
        Some(RelicSet::SCHOLAR)
    } else if spells(token, "thief") {
        Some(RelicSet::THIEF)
    } else if spells(token, "warrior") {
        Some(RelicSet::GODDESS)
    } else if spells(token, "wastelander") {
        Some(RelicSet::WASTELANDER)
    } else if spells(token, "watchmaker") {
        Some(RelicSet::WATCHMAKER)
    } else if spells(token, "wavestrider") {
        Some(RelicSet::WAVESTRIDER)
    } else if spells(token, "belobog") {
        Some(RelicSet::BELOBOG)
    } else if spells(token, "bone") {
        Some(RelicSet::BONE)
    } else if spells(token, "broken") {
        Some(RelicSet::KEEL)
    } else if spells(token, "celestial") {
        Some(RelicSet::CELESTIAL)
    } else if spells(token, "duran") {
        Some(RelicSet::DURAN)
    } else if spells(token, "firmament") {
        Some(RelicSet::GLAMOTH)
    } else if spells(token, "fleet") {
        Some(RelicSet::AGELESS)
    } else if spells(token, "forge") {
        Some(RelicSet::FORGE)
    } else if spells(token, "giant") {
        Some(RelicSet::TREE)
    } else if spells(token, "inert") {
        Some(RelicSet::INERT)
    } else if spells(token, "izumo") {
        Some(RelicSet::REALM)
    } else if spells(token, "lushaka") {
        Some(RelicSet::SUNKEN)
    } else if spells(token, "pan") {
        Some(RelicSet::ENTERPRISE)
    } else if spells(token, "penacony") {
        Some(RelicSet::PENACONY)
    } else if spells(token, "rutilant") {
        Some(RelicSet::ARENA)
    } else if spells(token, "sigonia") {
        Some(RelicSet::DESOLATION)
    } else if spells(token, "space") {
        Some(RelicSet::STATION)
    } else if spells(token, "sprightly") {
        Some(RelicSet::SPRIGHTLY)
    } else if spells(token, "talia") {
        Some(RelicSet::BANDITRY)
    } else {
        None
    }
}

fn article_set(token: &Vec<char>) -> (set: Option<RelicSet>)
    ensures
        set == set_after_article(token@),
{
    if spells(token, "ashblazing") {
        Some(RelicSet::DUKE)
    } else if spells(token, "wind") {
        Some(RelicSet::SOAR)
    } else if spells(token, "wondrous") {
        Some(RelicSet::PARK)
    } else {
        None
    }
}

fn set_for_chars(first: &Vec<char>, second: &Option<Vec<char>>) -> (set: Option<RelicSet>)
    ensures
        set == set_for_tokens(
            first@,
            match second {
                Some(token) => Some(token@),
                None => None,
            },
        ),
{
    if spells(first, "the") {
        match second {
            Some(token) => article_set(token),
            None => None,
        }
    } else {
        prefix_set(first)
    }
}

/// Selects the set from tokens that are already in lowercase.
pub fn set_from_tokens(first: &str, second: Option<&str>) -> (set: Option<RelicSet>)
    ensures
        set == set_for_tokens(
            first@,
            match second {
                Some(token) => Some(token@),
                None => None,
            },
        ),
{
    let first_chars = str_chars(first);
    let second_chars = match second {
        Some(token) => Some(str_chars(token)),
        None => None,
    };
    set_for_chars(&first_chars, &second_chars)
}

/// Reads the set out of a set description. Absent where the leading tokens
/// select none.
pub fn parse_set(s: &str) -> (set: Option<RelicSet>)
    ensures
        set == set_of_text(s@),
{
    let chars = str_chars(s);
    let n = count_prefix(&chars, 0, CharClass::Alphanumeric);
    proof {
        assert(chars@.skip(0) =~= chars@);
    }
    let first = copy_range(&chars, 0, n);
    proof {
        assert(chars@.subrange(0, n as int) =~= chars@.take(n as int));
    }
    let head = lowercased(&first);
    let second = if n < chars.len() {
        let m = count_prefix(&chars, n + 1, CharClass::Alphanumeric);
        let token = copy_range(&chars, n + 1, n + 1 + m);
        proof {
            assert(chars@.subrange(n + 1, n + 1 + m) =~= chars@.skip(n + 1).take(m as int));
        }
        Some(lowercased(&token))
    } else {
        None
    };
    set_for_chars(&head, &second)
}

} // verus!
